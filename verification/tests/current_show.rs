use lcn_core::services::current_show::{parse, CurrentShow};

#[test]
fn current_show_echantillon_reel() {
    let cs = parse(r#"{"show":"La table du chat","kind":"music_block","is_live":false,"since":1781950842}"#).unwrap();
    assert_eq!(cs.show, "La table du chat");
    assert_eq!(cs.kind, "music_block");
    assert!(!cs.is_live);
    assert_eq!(cs.since, 1781950842);
}

#[test]
fn direct_et_kind_live() {
    assert!(parse(r#"{"show":"DIRECT","kind":"live","is_live":true}"#).unwrap().is_live);
    assert!(parse(r#"{"kind":"live"}"#).unwrap().is_live);
}

#[test]
fn payload_string_et_endcap() {
    assert_eq!(parse(r#""Beats & Flow""#).unwrap().show, "Beats & Flow");
    assert_eq!(parse(r#"{"show":"Matinée Fragments endcap"}"#).unwrap().show, "Matinée Fragments");
}

#[test]
fn booleen_tolerant() {
    assert!(parse(r#"{"show":"X","is_live":"oui"}"#).unwrap().is_live);
    assert!(parse(r#"{"show":"X","is_live":1}"#).unwrap().is_live);
    assert!(!parse(r#"{"show":"X","is_live":"non"}"#).unwrap().is_live);
}

#[test]
fn elapsed_paliers() {
    let cs = CurrentShow { since: 1000, ..Default::default() };
    assert_eq!(cs.elapsed_text(1000), Some("depuis quelques instants".into()));
    assert_eq!(cs.elapsed_text(1030), Some("depuis quelques instants".into()));
    assert_eq!(cs.elapsed_text(1000 + 120), Some("depuis 2 min".into()));
    assert_eq!(cs.elapsed_text(1000 + 3700), Some("depuis 1 h 1".into()));
    assert_eq!(cs.elapsed_text(1000 + 7200), Some("depuis 2 h".into()));
    let none = CurrentShow { since: 0, ..Default::default() };
    assert_eq!(none.elapsed_text(99999), None);
}

#[test]
fn invalide() {
    assert!(parse("{}").is_none());
}

#[test]
fn elapsed_edges() {
    let cs = CurrentShow { since: 1000, ..Default::default() };
    // A clock behind the start counts as zero.
    assert_eq!(cs.elapsed_text(10), Some("depuis quelques instants".into()));
    assert_eq!(cs.elapsed_text(1059), Some("depuis quelques instants".into()));
    assert_eq!(cs.elapsed_text(1060), Some("depuis 1 min".into()));
    assert_eq!(cs.elapsed_text(1000 + 3599), Some("depuis 59 min".into()));
    assert_eq!(cs.elapsed_text(1000 + 3600), Some("depuis 1 h".into()));
    assert_eq!(cs.elapsed_text(1000 + 3600 + 9 * 60), Some("depuis 1 h 9".into()));
    let neg = CurrentShow { since: -5, ..Default::default() };
    assert_eq!(neg.elapsed_text(100), None);
}

#[test]
fn payload_variants() {
    assert!(parse("not json").is_none());
    assert!(parse("[]").is_none());
    assert!(parse(r#""""#).is_none());
    let cs = parse(r#"{"show":"  A  ","kind":"  ","since":"12"}"#).unwrap();
    assert_eq!(cs.show, "A");
    assert!(!cs.is_live);
}
