use lcn_core::theme::{full_css, is_dark, tokens, ThemePreference};

#[test]
fn palette_has_both_veils() {
    let t = tokens();
    assert_eq!(t.len(), 15);
    assert_eq!(t[0].name, "lcn_bg");
    let veil = t.iter().find(|k| k.name == "lcn_accent_veil").unwrap();
    assert_eq!(veil.light, "rgba(12,132,204,0.10)");
    assert_eq!(veil.dark, "rgba(54,166,223,0.14)");
}

#[test]
fn css_lists_colours_then_rules() {
    let light = full_css(false, "window {}\n");
    assert!(light.starts_with("@define-color lcn_bg #f4eee0;\n@define-color lcn_surface #faf6ec;\n"));
    assert!(light.ends_with(";\n\nwindow {}\n"));
    let dark = full_css(true, "");
    assert!(dark.starts_with("@define-color lcn_bg #14110d;\n"));
    assert!(dark.contains("@define-color lcn_direct #ef6a40;\n"));
    assert_eq!(dark.lines().filter(|l| l.starts_with("@define-color ")).count(), 15);
}

#[test]
fn forced_theme_wins_over_system() {
    assert!(is_dark(Some("dark"), false));
    assert!(!is_dark(Some("light"), true));
    assert!(is_dark(Some("auto"), true));
    assert!(!is_dark(None, false));
}

#[test]
fn preference_text_round_trip() {
    for p in [ThemePreference::Auto, ThemePreference::Light, ThemePreference::Dark] {
        assert_eq!(ThemePreference::from_setting(p.setting_text()), Some(p));
    }
    assert_eq!(ThemePreference::from_setting("Dark"), None);
    assert_eq!(ThemePreference::restore(Some("dark")), ThemePreference::Dark);
    assert_eq!(ThemePreference::restore(Some("??")), ThemePreference::Auto);
    assert_eq!(ThemePreference::restore(None), ThemePreference::Auto);
}
