use lcn_core::section::Section;

#[test]
fn order_and_roundtrip_are_stable() {
    // Frozen order: Accueil, Actualités, Historique, Grille, Voix & Formats, À propos.
    let ids: Vec<&str> = Section::ALL.iter().map(|s| s.id()).collect();
    assert_eq!(ids, ["home", "news", "history", "schedule", "voices", "about"]);
    for (i, section) in Section::ALL.iter().enumerate() {
        assert_eq!(Section::from_index(i as i32), Some(*section));
    }
    assert_eq!(Section::from_index(6), None);
    assert_eq!(Section::from_index(-1), None);
}

#[test]
fn section_ids_round_trip() {
    for section in Section::ALL.iter() {
        assert_eq!(Section::from_id(section.id()), Some(*section));
        assert_eq!(Section::from_index(section.index()), Some(*section));
    }
    assert_eq!(Section::from_id("nope"), None);
    assert_eq!(Section::from_id(""), None);
}
