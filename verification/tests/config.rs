use lcn_core::config::{
    content_url, news_url, schedule_url, voices_url, CONTENT_BASE_URL, CURRENT_SHOW_URL,
    HISTORY_CSV_URL, NEWS_PATH, NOWPLAYING_URL, PRODUCTION_BASE_URL, REALTIME_BASE_URL,
    STREAM_MP3_URL,
};

#[test]
fn content_urls_join_without_double_slash() {
    assert!(CONTENT_BASE_URL.ends_with('/'));
    assert!(!NEWS_PATH.starts_with('/'));
    assert_eq!(news_url(CONTENT_BASE_URL), "https://lechatnoirradio.fr/assets/data/news.json");
    assert_eq!(
        schedule_url(PRODUCTION_BASE_URL),
        "https://lechatnoirradio.fr/assets/data/schedule.json"
    );
}

#[test]
fn realtime_endpoints_are_frozen() {
    assert!(STREAM_MP3_URL.starts_with(REALTIME_BASE_URL));
    assert!(NOWPLAYING_URL.starts_with(REALTIME_BASE_URL));
    assert!(CURRENT_SHOW_URL.starts_with(REALTIME_BASE_URL));
    assert!(HISTORY_CSV_URL.starts_with(REALTIME_BASE_URL));
}

#[test]
fn content_is_on_production() {
    assert_eq!(CONTENT_BASE_URL, PRODUCTION_BASE_URL);
    assert_eq!(CONTENT_BASE_URL, "https://lechatnoirradio.fr/");
}

#[test]
fn voices_url_and_plain_concatenation() {
    assert_eq!(voices_url(CONTENT_BASE_URL), "https://lechatnoirradio.fr/assets/data/voices.json");
    assert_eq!(content_url("https://h/", "a/b"), "https://h/a/b");
    assert_eq!(content_url("", ""), "");
}
