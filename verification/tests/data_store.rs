use lcn_core::services::current_show::CurrentShow;
use lcn_core::services::data_store::{DataStore, LoadState, Update, UpdateKind};
use lcn_core::services::news;
use lcn_core::services::now_playing::NowPlaying;
use lcn_core::services::schedule;
use lcn_core::services::voices;

fn store() -> DataStore {
    let n = news::parse(r#"{"items":[{"id":"a","title":"T","sortKey":"1"}]}"#);
    let s = schedule::parse(r#"{"days":[{"id":"mon","name":"Lundi","slots":[]}]}"#);
    let v = voices::parse(r#"{"producers":[{"name":"P"}]}"#, "https://h/");
    DataStore::new(n, s, v)
}

#[test]
fn keeps_last_known_value() {
    let mut st = store();
    assert_eq!(st.apply(Update::News(Vec::new()), 0), UpdateKind::News);
    assert_eq!(st.news().len(), 1);
    assert_eq!(st.apply(Update::Schedule(schedule::parse("{}")), 0), UpdateKind::Schedule);
    assert_eq!(st.schedule().as_ref().unwrap().days.len(), 1);
    assert_eq!(st.apply(Update::Voices(voices::parse("{}", "")), 0), UpdateKind::Voices);
    assert_eq!(st.voices().as_ref().unwrap().producers.len(), 1);
    assert_eq!(st.apply(Update::History(Vec::new()), 0), UpdateKind::History);
    assert!(st.history().is_empty());
    assert_eq!(st.history_state(), LoadState::Ready);
}

#[test]
fn history_loading_states() {
    let mut st = store();
    assert_eq!(st.history_state(), LoadState::Loading);
    st.apply(Update::HistoryFailed, 0);
    assert_eq!(st.history_state(), LoadState::Offline);
    st.apply(Update::History(Vec::new()), 0);
    assert_eq!(st.history_state(), LoadState::Ready);
    st.apply(Update::HistoryFailed, 0);
    assert_eq!(st.history_state(), LoadState::Ready);
}

#[test]
fn live_and_freshness() {
    let mut st = store();
    assert!(!st.is_live());
    assert!(!st.metadata_fresh(100));
    assert_eq!(st.apply(Update::MetaFailed, 100), UpdateKind::Meta);
    assert!(!st.metadata_fresh(100));
    let np = NowPlaying { artist: "A".into(), title: "B".into(), is_live: false, ..Default::default() };
    st.apply(Update::NowPlaying(np), 100);
    assert!(st.metadata_fresh(189));
    assert!(!st.metadata_fresh(190));
    assert!(!st.is_live());
    let cs = CurrentShow { show: "DIRECT".into(), is_live: true, ..Default::default() };
    assert_eq!(st.apply(Update::CurrentShow(cs), 200), UpdateKind::Meta);
    assert!(st.is_live());
    assert!(st.metadata_fresh(250));
    assert_eq!(st.now_playing().as_ref().unwrap().title, "B");
    assert_eq!(st.current_show().as_ref().unwrap().show, "DIRECT");
}
