//! The aggregated station state (real time + editorial) and the policy that updates it:
//! **keep the last known value** when a fetch fails, never overwrite with emptiness.
//! Times are whole seconds on a monotonic clock supplied by the caller.
use vstd::prelude::*;

use crate::config::METADATA_STALE_AFTER_SECS;
use crate::content::NewsEntry;
use crate::services::current_show::CurrentShow;
use crate::services::history::HistoryEntry;
use crate::services::now_playing::NowPlaying;
use crate::services::schedule::Schedule;
use crate::services::voices::Voices;

verus! {

/// Loading state of the history (read by the history screen).
#[derive(Debug, Clone, Copy, PartialEq, Eq, Structural)]
pub enum LoadState {
    Loading,
    Ready,
    Offline,
}

/// Category of an update, so that only the screens concerned are refreshed.
#[derive(Debug, Clone, Copy, PartialEq, Eq, Structural)]
pub enum UpdateKind {
    /// nowplaying / current-show (on-air state, title).
    Meta,
    History,
    News,
    Schedule,
    Voices,
}

/// Message pushed by a polling loop towards the state.
#[derive(Debug)]
pub enum Update {
    NowPlaying(NowPlaying),
    CurrentShow(CurrentShow),
    History(Vec<HistoryEntry>),
    News(Vec<NewsEntry>),
    Schedule(Schedule),
    Voices(Voices),
    MetaFailed,
    HistoryFailed,
}

/// The category of an update.
pub open spec fn kind_of(update: Update) -> UpdateKind {
    match update {
        Update::NowPlaying(_) | Update::CurrentShow(_) | Update::MetaFailed => UpdateKind::Meta,
        Update::History(_) | Update::HistoryFailed => UpdateKind::History,
        Update::News(_) => UpdateKind::News,
        Update::Schedule(_) => UpdateKind::Schedule,
        Update::Voices(_) => UpdateKind::Voices,
    }
}

/// Whether a voices payload holds anything.
pub open spec fn voices_non_empty(v: Voices) -> bool {
    v.producers@.len() > 0 || v.shows@.len() > 0
}

/// The whole state.
pub struct DataStore {
    pub now_playing: Option<NowPlaying>,
    pub current_show: Option<CurrentShow>,
    pub history: Vec<HistoryEntry>,
    pub news: Vec<NewsEntry>,
    pub schedule: Option<Schedule>,
    pub voices: Option<Voices>,
    /// When the last metadata fetch succeeded.
    pub last_meta_success: Option<u64>,
    pub history_loaded: bool,
    pub history_offline: bool,
}

impl DataStore {
    /// State after `update` arrived at time `now`.
    pub open spec fn applied(self, update: Update, now: u64) -> Self {
        match update {
            Update::NowPlaying(np) => DataStore {
                now_playing: Some(np),
                last_meta_success: Some(now),
                ..self
            },
            Update::CurrentShow(cs) => DataStore {
                current_show: Some(cs),
                last_meta_success: Some(now),
                ..self
            },
            Update::History(entries) => DataStore {
                history: if entries@.len() > 0 { entries } else { self.history },
                history_loaded: true,
                history_offline: false,
                ..self
            },
            Update::News(items) => DataStore {
                news: if items@.len() > 0 { items } else { self.news },
                ..self
            },
            Update::Schedule(schedule) => DataStore {
                schedule: if schedule.days@.len() > 0 { Some(schedule) } else { self.schedule },
                ..self
            },
            Update::Voices(voices) => DataStore {
                voices: if voices_non_empty(voices) { Some(voices) } else { self.voices },
                ..self
            },
            Update::MetaFailed => self,
            Update::HistoryFailed => DataStore {
                history_offline: if !self.history_loaded { true } else { self.history_offline },
                ..self
            },
        }
    }

    /// The live flag of either source (logical or).
    pub open spec fn live(self) -> bool {
        (self.current_show is Some && self.current_show->0.is_live) || (self.now_playing is Some
            && self.now_playing->0.is_live)
    }

    /// A metadata fetch succeeded less than 90 s before `now`.
    pub open spec fn fresh_at(self, now: u64) -> bool {
        match self.last_meta_success {
            Some(t) => now <= t || now - t < METADATA_STALE_AFTER_SECS,
            None => false,
        }
    }

    /// The history loading state.
    pub open spec fn load_state(self) -> LoadState {
        if self.history_loaded {
            LoadState::Ready
        } else if self.history_offline {
            LoadState::Offline
        } else {
            LoadState::Loading
        }
    }

    /// Initial state, from the fallback editorial content (first render and offline
    /// fallback): no metadata yet, history loading.
    pub fn new(news: Vec<NewsEntry>, schedule: Schedule, voices: Voices) -> (r: Self)
        ensures
            r.now_playing.is_none(),
            r.current_show.is_none(),
            r.history@.len() == 0,
            r.news == news,
            r.schedule == Some(schedule),
            r.voices == Some(voices),
            r.last_meta_success.is_none(),
            !r.history_loaded,
            !r.history_offline,
    {
        DataStore {
            now_playing: None,
            current_show: None,
            history: Vec::new(),
            news,
            schedule: Some(schedule),
            voices: Some(voices),
            last_meta_success: None,
            history_loaded: false,
            history_offline: false,
        }
    }

    /// Applies an update received at time `now` and returns its category.
    pub fn apply(&mut self, update: Update, now: u64) -> (kind: UpdateKind)
        ensures
            *final(self) == old(self).applied(update, now),
            kind == kind_of(update),
    {
        match update {
            Update::NowPlaying(np) => {
                self.now_playing = Some(np);
                self.last_meta_success = Some(now);
                UpdateKind::Meta
            },
            Update::CurrentShow(cs) => {
                self.current_show = Some(cs);
                self.last_meta_success = Some(now);
                UpdateKind::Meta
            },
            Update::History(entries) => {
                if entries.len() > 0 {
                    self.history = entries;
                }
                self.history_loaded = true;
                self.history_offline = false;
                UpdateKind::History
            },
            Update::News(items) => {
                if items.len() > 0 {
                    self.news = items;
                }
                UpdateKind::News
            },
            Update::Schedule(schedule) => {
                if schedule.days.len() > 0 {
                    self.schedule = Some(schedule);
                }
                UpdateKind::Schedule
            },
            Update::Voices(voices) => {
                if voices.producers.len() > 0 || voices.shows.len() > 0 {
                    self.voices = Some(voices);
                }
                UpdateKind::Voices
            },
            Update::MetaFailed => UpdateKind::Meta,
            Update::HistoryFailed => {
                if !self.history_loaded {
                    self.history_offline = true;
                }
                UpdateKind::History
            },
        }
    }

    /// Latest now-playing metadata.
    pub fn now_playing(&self) -> (r: &Option<NowPlaying>)
        ensures
            *r == self.now_playing,
    {
        &self.now_playing
    }

    /// Latest current-show metadata.
    pub fn current_show(&self) -> (r: &Option<CurrentShow>)
        ensures
            *r == self.current_show,
    {
        &self.current_show
    }

    /// Latest non-empty history.
    pub fn history(&self) -> (r: &Vec<HistoryEntry>)
        ensures
            *r == self.history,
    {
        &self.history
    }

    /// Latest non-empty news.
    pub fn news(&self) -> (r: &Vec<NewsEntry>)
        ensures
            *r == self.news,
    {
        &self.news
    }

    /// Latest non-empty schedule.
    pub fn schedule(&self) -> (r: &Option<Schedule>)
        ensures
            *r == self.schedule,
    {
        &self.schedule
    }

    /// Latest non-empty voices.
    pub fn voices(&self) -> (r: &Option<Voices>)
        ensures
            *r == self.voices,
    {
        &self.voices
    }

    /// Live if either source says so.
    pub fn is_live(&self) -> (r: bool)
        ensures
            r == self.live(),
    {
        let show_live = match &self.current_show {
            Some(c) => c.is_live,
            None => false,
        };
        let np_live = match &self.now_playing {
            Some(n) => n.is_live,
            None => false,
        };
        show_live || np_live
    }

    /// Fresh metadata: a fetch succeeded less than 90 s before `now`.
    pub fn metadata_fresh(&self, now: u64) -> (r: bool)
        ensures
            r == self.fresh_at(now),
    {
        match self.last_meta_success {
            Some(t) => now <= t || now - t < METADATA_STALE_AFTER_SECS,
            None => false,
        }
    }

    /// History loading state: ready once a history arrived, offline when the first
    /// fetches failed, loading before.
    pub fn history_state(&self) -> (r: LoadState)
        ensures
            r == self.load_state(),
    {
        if self.history_loaded {
            LoadState::Ready
        } else if self.history_offline {
            LoadState::Offline
        } else {
            LoadState::Loading
        }
    }
}

/// Keep the last known value: whatever the update, content that was there stays there.
/// A non-empty history, news list, schedule or voices is only ever replaced by a
/// non-empty one, and metadata is never cleared.
pub proof fn never_overwrite_with_empty(s: DataStore, update: Update, now: u64)
    ensures
        s.history@.len() > 0 ==> s.applied(update, now).history@.len() > 0,
        s.news@.len() > 0 ==> s.applied(update, now).news@.len() > 0,
        s.schedule is Some ==> s.applied(update, now).schedule is Some,
        s.schedule is Some && s.schedule->0.days@.len() > 0 ==> s.applied(
            update,
            now,
        ).schedule->0.days@.len() > 0,
        s.voices is Some && voices_non_empty(s.voices->0) ==> voices_non_empty(
            s.applied(update, now).voices->0,
        ),
        s.now_playing is Some ==> s.applied(update, now).now_playing is Some,
        s.current_show is Some ==> s.applied(update, now).current_show is Some,
{
}

/// A failed fetch changes no content: only the history loading flags may move.
pub proof fn failures_keep_content(s: DataStore, now: u64)
    ensures
        s.applied(Update::MetaFailed, now) == s,
        s.applied(Update::HistoryFailed, now).history == s.history,
        s.applied(Update::HistoryFailed, now).now_playing == s.now_playing,
        s.applied(Update::HistoryFailed, now).last_meta_success == s.last_meta_success,
{
}

/// Once a history was received the history screen stays ready: a later failure does not
/// turn it offline. Before that, a failure shows it offline until a history arrives.
pub proof fn history_ready_is_stable(s: DataStore, update: Update, now: u64)
    ensures
        s.load_state() == LoadState::Ready ==> s.applied(update, now).load_state()
            == LoadState::Ready,
        s.load_state() == LoadState::Loading ==> s.applied(Update::HistoryFailed, now).load_state()
            == LoadState::Offline,
        update is History ==> s.applied(update, now).load_state() == LoadState::Ready,
{
}

/// A successful metadata fetch makes the metadata fresh for the next 90 s.
pub proof fn metadata_success_is_fresh(s: DataStore, update: Update, now: u64, later: u64)
    requires
        update is NowPlaying || update is CurrentShow,
        now <= later,
        later - now < 90,
    ensures
        s.applied(update, now).fresh_at(later),
{
}

} // verus!
