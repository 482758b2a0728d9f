use lcn_core::services::news::parse;

#[test]
fn tri_desc_et_filtrage_titre_vide() {
    let data = r#"{"items":[
        {"id":"a","title":"Ancien","sortKey":"2026-01-01-001","lead":"l","body":"b"},
        {"id":"b","title":"","sortKey":"2026-09-09-009"},
        {"slug":"c","title":"Récent","sortKey":"2026-08-01-002"}
    ]}"#;
    let entries = parse(data);
    assert_eq!(entries.len(), 2);
    assert_eq!(entries[0].title, "Récent");
    assert_eq!(entries[1].title, "Ancien");
    assert_eq!(entries[1].stable_id, "a");
}

#[test]
fn replis_stableid_datelabel() {
    let data = r#"{"items":[{"slug":"s","title":"T","publishedOn":"2026-03-02"}]}"#;
    let e = &parse(data)[0];
    assert_eq!(e.stable_id, "s");
    assert_eq!(e.sort_key, "2026-03-02");
    assert_eq!(e.date_label, "2026-03-02");
}

#[test]
fn cle_entries_en_repli() {
    let data = r#"{"entries":[{"id":"x","title":"T","sortKey":"2026-01-01-001"}]}"#;
    assert_eq!(parse(data).len(), 1);
}

#[test]
fn json_invalide() {
    assert!(parse("nope").is_empty());
    assert!(parse("{}").is_empty());
}

#[test]
fn stable_order_and_id_fallback() {
    // Equal sort keys keep their input order; without id or slug the id is sortKey + title.
    let data = r#"{"items":[
        {"title":"Un","sortKey":"2026-01-01"},
        {"title":"Deux","sortKey":"2026-01-01"},
        {"title":"  Trois  ","sortKey":"2027"}
    ]}"#;
    let e = parse(data);
    let titles: Vec<&str> = e.iter().map(|x| x.title.as_str()).collect();
    assert_eq!(titles, ["Trois", "Un", "Deux"]);
    assert_eq!(e[1].stable_id, "2026-01-01Un");
    assert_eq!(parse(r#"{"items":{}}"#).len(), 0);
}
