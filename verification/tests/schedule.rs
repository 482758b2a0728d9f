use lcn_core::services::schedule::{normalize_comparable, parse, Schedule};

#[test]
fn normalisation() {
    assert_eq!(normalize_comparable("L'instinct mode"), "l instinct mode");
    assert_eq!(normalize_comparable("Matinée : Fragments"), "matinee fragments");
    assert_eq!(normalize_comparable("  Les   Ondes  "), "les ondes");
}

#[test]
fn creneau_courant_et_puis() {
    let data = r#"{"days":[{"id":"mon","name":"Lundi","slots":[
        {"time":"00h00","title":"Nuit","start":"00:00","end":"07:00"},
        {"time":"07h00","title":"Réveil","start":"07:00","end":"07:05"},
        {"time":"Puis","title":"Matinée : Fragments","start":"07:05","end":"12:00"}
    ]}]}"#;
    let sch = parse(data);
    let day = sch.day("mon").unwrap();
    assert_eq!(day.slots.len(), 3);
    assert_eq!(Schedule::current_slot_index(day, 9 * 60 + 30), Some(2));
    assert_eq!(Schedule::current_slot_index(day, 7 * 60 + 2), Some(1));
}

#[test]
fn alias_map_embarque_et_json() {
    let data = r#"{"aliases":{"La table du chat (repère)":"La table du chat"},"days":[]}"#;
    let sch = parse(data);
    assert_eq!(sch.canonical("fragments"), "matinee fragments");
    assert_eq!(sch.canonical("la table du chat repere"), "la table du chat");
}

#[test]
fn rapprochement_nom_grille() {
    let data = r#"{"days":[{"id":"mon","name":"L","slots":[
        {"time":"07h05","title":"Matinée : Fragments","start":"07:05"}
    ]}]}"#;
    let sch = parse(data);
    let day = sch.day("mon").unwrap();
    let normalized = normalize_comparable("Fragments");
    assert_eq!(sch.match_slot_by_name(day, &normalized), Some(0));
}

#[test]
fn jour_sans_id_rejete() {
    let data = r#"{"days":[{"name":"SansId","slots":[]},{"id":"tue","name":"Mardi","slots":[]}]}"#;
    let sch = parse(data);
    assert_eq!(sch.days.len(), 1);
    assert_eq!(sch.days[0].id, "tue");
}

#[test]
fn slot_times_and_inheritance() {
    let data = r#"{"days":[{"id":"wed","name":"Mercredi","shortName":"","slots":[
        {"time":"6 h 30","title":"Aube"},
        {"time":"Puis","title":"Suite"},
        {"time":"25h00","title":"Faux"},
        {"time":"","title":"Sans heure"},
        {"time":"09:15","title":"Neuf","end":"10:00","badge":"Nouveau","meta":true}
    ]}]}"#;
    let sch = parse(data);
    let day = sch.day("wed").unwrap();
    assert_eq!(day.short_name, "wed");
    let starts: Vec<Option<u32>> = day.slots.iter().map(|s| s.start_min).collect();
    // "Puis" inherits the previous start; an impossible hour has none; no time, no slot.
    assert_eq!(starts, [Some(390), Some(390), None, Some(555)]);
    assert_eq!(day.slots[3].end_min, Some(600));
    assert_eq!(day.slots[3].badge.as_deref(), Some("Nouveau"));
    assert!(day.slots[3].meta);
    // Before the first start there is no current slot; ties go to the last slot.
    assert_eq!(Schedule::current_slot_index(day, 6 * 60), None);
    assert_eq!(Schedule::current_slot_index(day, 7 * 60), Some(1));
    assert!(sch.day("mon").is_none());
}

#[test]
fn normalized_form_and_unknown_names() {
    assert_eq!(normalize_comparable(""), "");
    assert_eq!(normalize_comparable("--!!--"), "");
    assert_eq!(normalize_comparable("Ça, c'est ÉTÉ!"), "ca c est ete");
    let sch = parse("not json");
    assert!(sch.days.is_empty());
    assert_eq!(sch.canonical("inconnu"), "inconnu");
    assert_eq!(sch.canonical("ondes du chat noir"), "les ondes du chat noir");
}
