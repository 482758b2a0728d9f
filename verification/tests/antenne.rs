use lcn_core::antenne::{resolve, AntenneState, Tint};
use lcn_core::player::StreamHealth::{Active, Connecting, Failed};

#[test]
fn direct_prime_sur_tout() {
    // Even with a failed stream and no local listening, a live show stays « direct — on air ».
    assert_eq!(resolve(Failed, true, false, false), AntenneState::Direct);
    assert_eq!(resolve(Active, true, true, true), AntenneState::Direct);
}

#[test]
fn ordre_de_resolution() {
    assert_eq!(resolve(Failed, false, true, true), AntenneState::HorsLigne);
    assert_eq!(resolve(Connecting, false, true, false), AntenneState::Connexion);
    assert_eq!(resolve(Connecting, false, false, true), AntenneState::ALAntenne);
    assert_eq!(resolve(Active, false, true, false), AntenneState::ALAntenne);
    assert_eq!(resolve(Active, false, false, true), AntenneState::ALAntenne);
    assert_eq!(resolve(Active, false, false, false), AntenneState::HorsLigne);
}

#[test]
fn sorties_verbatim() {
    assert_eq!(AntenneState::Direct.label(), "direct — on air");
    assert_eq!(AntenneState::Direct.kicker(), "// direct");
    assert_eq!(AntenneState::Direct.tint(), Tint::Braise);
    assert!(AntenneState::Direct.is_filled());

    assert_eq!(AntenneState::ALAntenne.label(), "à l'antenne");
    assert_eq!(AntenneState::ALAntenne.kicker(), "// en ce moment");
    assert_eq!(AntenneState::ALAntenne.tint(), Tint::Azur);
    assert!(!AntenneState::ALAntenne.is_filled());

    assert_eq!(AntenneState::Connexion.label(), "connexion…");
    assert_eq!(AntenneState::Connexion.tint(), Tint::Azur);

    assert_eq!(AntenneState::HorsLigne.label(), "hors ligne");
    assert_eq!(AntenneState::HorsLigne.tint(), Tint::Muted);
}

#[test]
fn accessibility_labels_verbatim() {
    assert_eq!(AntenneState::Direct.accessibility_label(), "En direct, à l'antenne");
    assert_eq!(AntenneState::ALAntenne.accessibility_label(), "À l'antenne");
    assert_eq!(AntenneState::Connexion.accessibility_label(), "Connexion au flux en cours");
    assert_eq!(AntenneState::HorsLigne.accessibility_label(), "Hors ligne");
    assert_eq!(AntenneState::Connexion.kicker(), "// en ce moment");
    assert!(!AntenneState::HorsLigne.is_filled());
}

#[test]
fn only_direct_is_ember_and_filled() {
    for state in [AntenneState::Direct, AntenneState::ALAntenne, AntenneState::Connexion, AntenneState::HorsLigne] {
        assert_eq!(state.tint() == Tint::Braise, state == AntenneState::Direct);
        assert_eq!(state.is_filled(), state == AntenneState::Direct);
    }
}
