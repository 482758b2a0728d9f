use lcn_core::presentation::image_cache_name;
use lcn_core::antenne::AntenneState;
use lcn_core::content::NewsEntry;
use lcn_core::player::{playback_text, StreamHealth};
use lcn_core::presentation::{
    chrome_view, current_slot_badge, date_label, history_secondary, initials, month_name,
    month_name_lower, news_in_period, news_months, news_years, slot_highlight, slot_label, teaser,
    track_metadata, upcoming_range, TrackNotifier, PAUSE_ICON, PLAY_ICON,
};
use lcn_core::services::current_show::CurrentShow;
use lcn_core::services::data_store::{DataStore, Update};
use lcn_core::services::now_playing::NowPlaying;
use lcn_core::services::schedule::Schedule;
use lcn_core::services::voices::Voices;

fn empty_store() -> DataStore {
    DataStore::new(
        Vec::new(),
        Schedule { days: Vec::new(), alias_map: Vec::new() },
        Voices { producers: Vec::new(), shows: Vec::new() },
    )
}

fn news(key: &str, title: &str) -> NewsEntry {
    NewsEntry { sort_key: key.into(), title: title.into(), ..Default::default() }
}

#[test]
fn chrome_before_any_metadata() {
    let st = empty_store();
    let v = chrome_view(StreamHealth::Active, false, playback_text::READY, &st, 0, 0);
    assert_eq!(v.state, AntenneState::HorsLigne);
    assert_eq!(v.conditional, "");
    assert_eq!(v.bar_title, "Chargement des métadonnées…");
    assert_eq!(v.bar_subtitle, "programmation en cours");
    assert_eq!(v.indicator_text, "hors ligne");
    assert!(!v.pulse);
    assert_eq!(v.play_icon, PLAY_ICON);
    assert_eq!(v.play_label, "Lancer le direct");
}

#[test]
fn chrome_connecting_live_and_failure() {
    let mut st = empty_store();
    let v = chrome_view(StreamHealth::Connecting, true, playback_text::CONNECTING, &st, 0, 0);
    assert_eq!(v.state, AntenneState::Connexion);
    assert_eq!(v.indicator_text, "Connexion au direct…");
    assert_eq!(v.play_icon, PAUSE_ICON);
    assert_eq!(v.play_label, "Mettre le direct en pause");

    let v = chrome_view(StreamHealth::Failed, true, playback_text::OFFLINE, &st, 0, 0);
    assert_eq!(v.conditional, "Problème de lecture du flux audio.");

    let np = NowPlaying { artist: "A".into(), title: "".into(), year: "2020".into(), ..Default::default() };
    st.apply(Update::NowPlaying(np), 10);
    let cs = CurrentShow { show: "X".into(), is_live: true, since: 1000, ..Default::default() };
    st.apply(Update::CurrentShow(cs), 10);
    let v = chrome_view(StreamHealth::Active, false, playback_text::READY, &st, 20, 1000 + 3700);
    assert_eq!(v.state, AntenneState::Direct);
    assert_eq!(v.conditional, "Direct en cours depuis 1 h 1");
    assert_eq!(v.bar_title, "Titre indisponible pour l'instant");
    assert_eq!(v.bar_subtitle, "A • 2020");
    assert_eq!(v.indicator_text, "direct — on air");

    // Fresh metadata without listening: « à l'antenne », pulsing.
    let np = NowPlaying { artist: "B".into(), title: "T".into(), ..Default::default() };
    let mut st2 = empty_store();
    st2.apply(Update::NowPlaying(np), 100);
    let v = chrome_view(StreamHealth::Active, false, playback_text::READY, &st2, 150, 0);
    assert_eq!(v.state, AntenneState::ALAntenne);
    assert!(v.pulse);
    assert_eq!(v.bar_title, "T");
}

#[test]
fn notifications_on_title_change_only() {
    let mut n = TrackNotifier::new();
    assert_eq!(n.observe("Un", "A", true), None);
    assert_eq!(n.observe("Un", "A", true), None);
    assert_eq!(n.observe("Deux", "B • 2020", true).as_deref(), Some("Deux — B • 2020"));
    assert_eq!(n.observe("Trois", "", true).as_deref(), Some("Trois"));
    // Not listening: remembered, not notified.
    assert_eq!(n.observe("Quatre", "", false), None);
    assert_eq!(n.observe("", "", true), None);
}

#[test]
fn news_archive_navigation() {
    let items = vec![
        news("2026-08-01-002", "Récent"),
        news("2026-01-01-001", "Ancien"),
        news("2025-08-10", "Vieux"),
        news("2026-08-15", "Août bis"),
        news("xx", "Sans date"),
    ];
    assert_eq!(news_years(&items), ["2026", "2025"]);
    assert_eq!(news_months(&items, "2026"), [1, 8]);
    assert_eq!(news_months(&items, "2024"), Vec::<u32>::new());
    let aug: Vec<String> = news_in_period(&items, "2026", 8).into_iter().map(|n| n.title).collect();
    assert_eq!(aug, ["Récent", "Août bis"]);
    assert!(news_years(&Vec::new()).is_empty());
}

#[test]
fn french_labels() {
    assert_eq!(month_name(2), "Février");
    assert_eq!(month_name(12), "Décembre");
    assert_eq!(month_name_lower(8), "août");
    assert_eq!(month_name_lower(13), "décembre");
    assert_eq!(date_label(13, 6, 2026), "13 juin 2026");
    assert_eq!(slot_label(3, 2, 2026, 9, 5), "3 février 2026 à 09:05");
    assert_eq!(slot_label(31, 12, 2025, 23, 59), "31 décembre 2025 à 23:59");
}

#[test]
fn small_display_rules() {
    let with_lead = NewsEntry { lead: "chapô".into(), body: "corps".into(), ..Default::default() };
    assert_eq!(teaser(&with_lead), "chapô");
    let no_lead = NewsEntry { body: "corps".into(), ..Default::default() };
    assert_eq!(teaser(&no_lead), "corps");
    assert_eq!(history_secondary(""), "Diffusion sans métadonnées complètes");
    assert_eq!(history_secondary("A • B"), "A • B");
    assert_eq!(upcoming_range(10, 2), (3, 6));
    assert_eq!(upcoming_range(5, 3), (4, 5));
    assert_eq!(upcoming_range(4, 3), (4, 4));
    assert_eq!(current_slot_badge(false, true), None);
    assert_eq!(current_slot_badge(true, true), Some("direct"));
    assert_eq!(current_slot_badge(true, false), Some("à l'antenne"));
    assert_eq!(slot_highlight(true, Some(2)), Some(2));
    assert_eq!(slot_highlight(false, Some(2)), None);
}

#[test]
fn placeholder_initials() {
    assert_eq!(initials("Dr. John"), "DJ");
    assert_eq!(initials("  l'autre   nuit blanche "), "LN");
    assert_eq!(initials("ßeta"), "SS");
    assert_eq!(initials(""), "");
    assert_eq!(initials("émission"), "É");
}

#[test]
fn media_control_metadata() {
    let np = NowPlaying { artist: "A".into(), title: "".into(), album: "".into(), ..Default::default() };
    let (title, artist, album) = track_metadata(&np);
    assert_eq!(title, "Titre indisponible pour l'instant");
    assert_eq!(artist.as_deref(), Some("A"));
    assert_eq!(album, None);
}

#[test]
fn image_cache_names() {
    assert_eq!(image_cache_name("https://x/y/z.png").as_deref(), Some("z.png"));
    assert_eq!(image_cache_name("https://x/y/"), None);
    assert_eq!(image_cache_name("plain.webp").as_deref(), Some("plain.webp"));
    assert_eq!(image_cache_name(""), None);
}
