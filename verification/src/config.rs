//! Central configuration — the **only** place where endpoints and network constants live.
//!
//! Two families of endpoints, one switch:
//!  - **Real time** (`stream.lechatnoirradio.fr`): Icecast/Liquidsoap/Nginx, never moves.
//!  - **Editorial content** (`CONTENT_BASE_URL`): switched from pre-production to
//!    production by a single constant.
use vstd::prelude::*;

use crate::text::{chars_of, push_str, starts_with, string_from_chars};

verus! {

// ───────────────────────────── A. Real time (frozen) ─────────────────────────────

/// Base of the real-time endpoints. Never switches.
pub const REALTIME_BASE_URL: &'static str = "https://stream.lechatnoirradio.fr";

/// MP3 audio stream (192 kbps stereo 44.1 kHz) — the source played.
pub const STREAM_MP3_URL: &'static str = "https://stream.lechatnoirradio.fr/stream.mp3";

/// Opus audio stream (96 kbps) — alternative, not played.
pub const STREAM_OPUS_URL: &'static str = "https://stream.lechatnoirradio.fr/stream";

/// Current track (JSON), polled every `POLL_NOWPLAYING_SECS`.
pub const NOWPLAYING_URL: &'static str = "https://stream.lechatnoirradio.fr/nowplaying.json";

/// Show/block on air (JSON), polled every `POLL_CURRENT_SHOW_SECS`.
pub const CURRENT_SHOW_URL: &'static str = "https://stream.lechatnoirradio.fr/current-show.json";

/// Track history (RFC 4180 CSV, ~6.3 MB), polled every `POLL_HISTORY_SECS`.
/// The server answers `Accept-Ranges: bytes`: a Range request on the tail is preferred.
pub const HISTORY_CSV_URL: &'static str = "https://stream.lechatnoirradio.fr/history/nowplaying.csv";

// ──────────────────────── B. Editorial content (switch) ────────────────────────

/// Base of the shared editorial content (news / schedule / voices / media), in production.
pub const CONTENT_BASE_URL: &'static str = "https://lechatnoirradio.fr/";

/// Production content base; identical to `CONTENT_BASE_URL` since the switch.
pub const PRODUCTION_BASE_URL: &'static str = "https://lechatnoirradio.fr/";

/// Relative paths of the editorial JSON files (joined to the base, **without** a
/// leading slash).
pub const NEWS_PATH: &'static str = "assets/data/news.json";
pub const SCHEDULE_PATH: &'static str = "assets/data/schedule.json";
pub const VOICES_PATH: &'static str = "assets/data/voices.json";
/// Prefix of the editorial media (the JSON relative paths resolve under it).
pub const MEDIA_PATH_PREFIX: &'static str = "assets/media/";

/// Builds an absolute content URL from a relative path and the current base.
/// `base` must end with `/` (paths have no leading slash).
pub fn content_url(base: &str, relative_path: &str) -> (r: String)
    ensures
        r@ == base@ + relative_path@,
{
    let mut v = chars_of(base);
    push_str(&mut v, relative_path);
    string_from_chars(v.as_slice())
}

pub fn news_url(base: &str) -> (r: String)
    ensures
        r@ == base@ + NEWS_PATH@,
{
    content_url(base, NEWS_PATH)
}

pub fn schedule_url(base: &str) -> (r: String)
    ensures
        r@ == base@ + SCHEDULE_PATH@,
{
    content_url(base, SCHEDULE_PATH)
}

pub fn voices_url(base: &str) -> (r: String)
    ensures
        r@ == base@ + VOICES_PATH@,
{
    content_url(base, VOICES_PATH)
}

// ──────────────────────────── External links / brand ───────────────────────────

/// Showcase site (external « Site web » link).
pub const WEBSITE_URL: &'static str = "https://lechatnoirradio.fr/";
/// Contact e-mail (`mailto` cards of the About page).
pub const CONTACT_EMAIL: &'static str = "radio@lechatnoirradio.fr";
/// Instagram account.
pub const INSTAGRAM_URL: &'static str = "https://www.instagram.com/lechatnoirradio/";

/// Reverse-DNS application id — drives Flatpak, MPRIS, .desktop, icons, settings.
pub const APP_ID: &'static str = "fr.lechatnoirradio.Player";
/// Name of the installed executable.
pub const BINARY_NAME: &'static str = "lechatnoir-player";
/// User agent sent by the stream source and the HTTP client.
pub const USER_AGENT: &'static str = "LeChatNoir-Linux/1.0";
/// `mpris:trackid` — a stable placeholder path (live stream, no real track).
pub const MPRIS_TRACK_ID: &'static str = "/fr/lechatnoirradio/track/live";

// ───────────────────────────── Network ────────────────────────────

/// Timeout of one HTTP request, in seconds.
pub const HTTP_REQUEST_TIMEOUT_SECS: u64 = 8;
/// Timeout of a full resource load, in seconds.
pub const HTTP_RESOURCE_TIMEOUT_SECS: u64 = 15;
/// Beyond this many seconds without fresh `nowplaying`/`current-show` → « hors ligne »
/// even if playback goes on (metadata freshness).
pub const METADATA_STALE_AFTER_SECS: u64 = 90;

// ─────────────────────────── Polling periods (seconds) ───────────────────────

pub const POLL_NOWPLAYING_SECS: u64 = 12;
pub const POLL_CURRENT_SHOW_SECS: u64 = 12;
pub const POLL_HISTORY_SECS: u64 = 20;
pub const POLL_NEWS_SECS: u64 = 600;
pub const POLL_VOICES_SECS: u64 = 600;
pub const POLL_SCHEDULE_SECS: u64 = 600;

// ───────────────────────────────── History ───────────────────────────────────

/// Maximum number of history rows kept in list mode.
pub const HISTORY_MAX_ROWS: usize = 240;
/// Size of the Range request on the **tail** of the CSV (~512 KB).
pub const HISTORY_RANGE_TAIL_BYTES: u64 = 524288;
/// Number of « closest » broadcasts returned by a slot search.
pub const HISTORY_SEARCH_RESULTS: usize = 10;

// ──────────────────────────── Reconnection ────────────────────────

/// Number of fast attempts before switching to an honest « hors ligne ».
pub const RECONNECT_GRACE_ATTEMPTS: u32 = 5;
/// Slow probe period once the grace window is over, in seconds.
pub const SLOW_RECONNECT_DELAY_SECS: u32 = 60;
/// Cap of the fast-phase backoff, in seconds (2, 4, 6, 8, 10 → capped).
pub const FAST_RECONNECT_CAP_SECS: u32 = 15;
/// Multiplier of the fast backoff (`attempt × 2`), in seconds.
pub const FAST_RECONNECT_STEP_SECS: u32 = 2;

// ───────────────────────────────── Audio / player ──────────────────────────────

/// `playbin3` `buffer-duration` in nanoseconds (2 s).
pub const PLAYBIN_BUFFER_DURATION_NS: i64 = 2000000000;

// ──────────────────────────────────── Time zone ────────────────────────────────────

/// Business time zone for every date-time computation and display.
pub const TIMEZONE: &'static str = "Europe/Paris";
/// Display locale.
pub const LOCALE: &'static str = "fr_FR";

/// The real-time endpoints all live under the frozen real-time base.
pub proof fn realtime_endpoints_are_under_realtime_base()
    ensures
        starts_with(STREAM_MP3_URL@, REALTIME_BASE_URL@),
        starts_with(STREAM_OPUS_URL@, REALTIME_BASE_URL@),
        starts_with(NOWPLAYING_URL@, REALTIME_BASE_URL@),
        starts_with(CURRENT_SHOW_URL@, REALTIME_BASE_URL@),
        starts_with(HISTORY_CSV_URL@, REALTIME_BASE_URL@),
{
    reveal_strlit("https://stream.lechatnoirradio.fr");
    reveal_strlit("https://stream.lechatnoirradio.fr/stream.mp3");
    reveal_strlit("https://stream.lechatnoirradio.fr/stream");
    reveal_strlit("https://stream.lechatnoirradio.fr/nowplaying.json");
    reveal_strlit("https://stream.lechatnoirradio.fr/current-show.json");
    reveal_strlit("https://stream.lechatnoirradio.fr/history/nowplaying.csv");
    assert(STREAM_MP3_URL@.subrange(0, REALTIME_BASE_URL@.len() as int) =~= REALTIME_BASE_URL@);
    assert(STREAM_OPUS_URL@.subrange(0, REALTIME_BASE_URL@.len() as int) =~= REALTIME_BASE_URL@);
    assert(NOWPLAYING_URL@.subrange(0, REALTIME_BASE_URL@.len() as int) =~= REALTIME_BASE_URL@);
    assert(CURRENT_SHOW_URL@.subrange(0, REALTIME_BASE_URL@.len() as int) =~= REALTIME_BASE_URL@);
    assert(HISTORY_CSV_URL@.subrange(0, REALTIME_BASE_URL@.len() as int) =~= REALTIME_BASE_URL@);
}

/// Content URLs join the base and the relative path without a doubled slash: the base
/// ends with `/` and the relative paths do not start with one.
pub proof fn content_paths_join_cleanly()
    ensures
        CONTENT_BASE_URL@.last() == '/',
        NEWS_PATH@[0] != '/',
        SCHEDULE_PATH@[0] != '/',
        VOICES_PATH@[0] != '/',
        CONTENT_BASE_URL@ == PRODUCTION_BASE_URL@,
{
    reveal_strlit("https://lechatnoirradio.fr/");
    reveal_strlit("assets/data/news.json");
    reveal_strlit("assets/data/schedule.json");
    reveal_strlit("assets/data/voices.json");
}

} // verus!
