//! **Pure** player logic: stream health, capped reconnection decision, state labels.
//! No audio pipeline here, so it is testable on any platform.
use vstd::prelude::*;

pub mod controller;
pub mod playback_text;

use crate::config::{FAST_RECONNECT_CAP_SECS, FAST_RECONNECT_STEP_SECS, RECONNECT_GRACE_ATTEMPTS, SLOW_RECONNECT_DELAY_SECS};

verus! {

/// Health of the stream.
#[derive(Debug, Clone, Copy, PartialEq, Eq, Structural)]
pub enum StreamHealth {
    /// Playing or ready.
    Active,
    /// Connecting / buffering / reconnecting (grace window).
    Connecting,
    /// Grace over: honest « hors ligne » (probing goes on in the background).
    Failed,
}

/// Pure reconnection decision for one attempt: how long to wait (whole seconds), and
/// whether « hors ligne » must already be shown.
#[derive(Debug, Clone, Copy, PartialEq, Eq, Structural)]
pub struct ReconnectStep {
    pub delay_secs: u32,
    pub is_offline: bool,
}

/// Past the grace window (more than 5 attempts).
pub open spec fn is_offline_attempt(attempt: u32) -> bool {
    attempt > 5
}

/// Delay before attempt `attempt`: `min(attempt × 2, 15)` s in the fast phase, 60 s after.
pub open spec fn reconnect_delay(attempt: u32) -> u32 {
    if is_offline_attempt(attempt) {
        60
    } else if attempt * 2 < 15 {
        (attempt * 2) as u32
    } else {
        15
    }
}

/// Reconnection step for the `attempt`-th attempt (≥ 1).
///
/// Fast phase (1→5): backoff `min(attempt × 2, 15)` → 2, 4, 6, 8, 10 s, « Reconnexion… »
/// is shown. Past the grace window (> 5): fixed slow probe every 60 s and an honest
/// « hors ligne » — the stream is still watched.
pub fn reconnect_step(attempt: u32) -> (r: ReconnectStep)
    ensures
        r.is_offline == is_offline_attempt(attempt),
        r.delay_secs == reconnect_delay(attempt),
{
    let is_offline = attempt > RECONNECT_GRACE_ATTEMPTS;
    let delay_secs = if is_offline {
        SLOW_RECONNECT_DELAY_SECS
    } else {
        let fast = attempt * FAST_RECONNECT_STEP_SECS;
        if fast < FAST_RECONNECT_CAP_SECS {
            fast
        } else {
            FAST_RECONNECT_CAP_SECS
        }
    };
    ReconnectStep { delay_secs, is_offline }
}

/// Indicators (health, text) shown during a reconnection.
pub fn reconnecting_indicators(attempt: u32) -> (r: (StreamHealth, &'static str))
    ensures
        is_offline_attempt(attempt) ==> r.0 == StreamHealth::Failed && r.1 == playback_text::OFFLINE,
        !is_offline_attempt(attempt) ==> r.0 == StreamHealth::Connecting && r.1
            == playback_text::RECONNECTING,
{
    if reconnect_step(attempt).is_offline {
        (StreamHealth::Failed, playback_text::OFFLINE)
    } else {
        (StreamHealth::Connecting, playback_text::RECONNECTING)
    }
}

/// The fast phase never waits longer than the 15 s cap, and the delay never decreases
/// from one attempt to the next.
pub proof fn reconnect_backoff_is_capped_and_monotone(a: u32, b: u32)
    ensures
        !is_offline_attempt(a) ==> reconnect_delay(a) <= 15,
        a <= b ==> reconnect_delay(a) <= reconnect_delay(b),
        is_offline_attempt(a) <==> a >= 6,
{
}

} // verus!
