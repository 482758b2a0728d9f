use lcn_core::services::now_playing::parse;

#[test]
fn now_playing_echantillon_reel() {
    let np = parse(r#"{"artist":"Dried Beans","title":"Will you marry it?","album":"EX1","year":"2018","ts":1781951278}"#).unwrap();
    assert_eq!(np.artist, "Dried Beans");
    assert_eq!(np.title, "Will you marry it?");
    assert_eq!(np.album, "EX1");
    assert_eq!(np.year, "2018");
    assert!(!np.is_live);
    assert_eq!(np.metadata_line(), "Dried Beans • EX1 • 2018");
}

#[test]
fn direct_sur_titre_brut() {
    assert!(parse(r#"{"title":"DIRECT - Session","artist":"X"}"#).unwrap().is_live);
    assert!(!parse(r#"{"title":"Direct Hit","artist":"X"}"#).unwrap().is_live);
}

#[test]
fn direct_sur_artiste_brut() {
    assert!(parse(r#"{"artist":"Le Chat (DIRECT)","title":"X"}"#).unwrap().is_live);
}

#[test]
fn split_artiste_titre() {
    let np = parse(r#"{"title":"Foo — Bar"}"#).unwrap();
    assert_eq!(np.artist, "Foo");
    assert_eq!(np.title, "Bar");
    let np2 = parse(r#"{"title":"Foo - Bar"}"#).unwrap();
    assert_eq!(np2.artist, "Foo");
    assert_eq!(np2.title, "Bar");
}

#[test]
fn album_annee_depuis_titre() {
    let np = parse(r#"{"title":"Song (Great Album, 2019)"}"#).unwrap();
    assert_eq!(np.year, "2019");
    assert_eq!(np.album, "Great Album");
}

#[test]
fn objet_imbrique_et_tableau() {
    let np = parse(r#"{"now_playing":{"song":{"artist":"A","title":"B"}}}"#).unwrap();
    assert_eq!((np.artist.as_str(), np.title.as_str()), ("A", "B"));
    let np2 = parse(r#"[{"artist":"A","title":"B"}]"#).unwrap();
    assert_eq!((np2.artist.as_str(), np2.title.as_str()), ("A", "B"));
}

#[test]
fn annee_numerique_et_repli_titre() {
    let np = parse(r#"{"artist":"A","title":"B","year":2024}"#).unwrap();
    assert_eq!(np.year, "2024");
    let np2 = parse(r#"{"artist":"A","title":""}"#).unwrap();
    assert_eq!(np2.display_title(), "Titre indisponible pour l'instant");
}

#[test]
fn payloads_invalides() {
    assert!(parse("{}").is_none());
    assert!(parse(r#"{"ts":1}"#).is_none());
    assert!(parse("pas du json").is_none());
}

#[test]
fn metadata_line_skips_empty_parts() {
    let np = parse(r#"{"artist":"A","title":"B"}"#).unwrap();
    assert_eq!(np.metadata_line(), "A");
    assert_eq!(np.display_title(), "B");
}
