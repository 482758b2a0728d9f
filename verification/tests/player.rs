use lcn_core::config::{FAST_RECONNECT_CAP_SECS, RECONNECT_GRACE_ATTEMPTS};
use lcn_core::player::{playback_text, reconnect_step, reconnecting_indicators, StreamHealth};

#[test]
fn fast_phase_backoff_matches_macos() {
    let expected = [2.0, 4.0, 6.0, 8.0, 10.0];
    for (i, &delay) in expected.iter().enumerate() {
        let step = reconnect_step(i as u32 + 1);
        assert_eq!(f64::from(step.delay_secs), delay, "tentative {}", i + 1);
        assert!(!step.is_offline, "tentative {} ne doit pas être offline", i + 1);
    }
}

#[test]
fn backoff_is_capped_then_slow_probe() {
    for attempt in [6, 7, 20, 1000] {
        let step = reconnect_step(attempt);
        assert_eq!(f64::from(step.delay_secs), 60.0, "tentative {attempt}");
        assert!(step.is_offline, "tentative {attempt} doit être offline");
    }
}

#[test]
fn grace_boundary_is_five() {
    assert!(!reconnect_step(RECONNECT_GRACE_ATTEMPTS).is_offline);
    assert!(reconnect_step(RECONNECT_GRACE_ATTEMPTS + 1).is_offline);
}

#[test]
fn reconnecting_indicators_switch_to_offline_after_grace() {
    assert_eq!(reconnecting_indicators(5), (StreamHealth::Connecting, playback_text::RECONNECTING));
    assert_eq!(reconnecting_indicators(6), (StreamHealth::Failed, playback_text::OFFLINE));
}

#[test]
fn fast_phase_never_exceeds_cap() {
    for attempt in 1..=RECONNECT_GRACE_ATTEMPTS {
        assert!(reconnect_step(attempt).delay_secs <= FAST_RECONNECT_CAP_SECS);
    }
}

#[test]
fn backoff_is_monotone_and_labels_verbatim() {
    let mut last = 0;
    for attempt in 0..=40u32 {
        let d = reconnect_step(attempt).delay_secs;
        assert!(d >= last);
        last = d;
    }
    assert_eq!(reconnect_step(0).delay_secs, 0);
    assert_eq!(reconnect_step(u32::MAX).delay_secs, 60);
    assert_eq!(playback_text::READY, "Prêt à écouter");
    assert_eq!(playback_text::CONNECTING, "Connexion au direct…");
    assert_eq!(playback_text::PAUSED, "En pause");
    assert_eq!(playback_text::PLAYING, "En écoute");
}
