//! Exact state labels (verbatim). The ellipsis is the single character « … » (U+2026).
use vstd::prelude::*;

verus! {

/// Ready, not playing.
pub const READY: &'static str = "Prêt à écouter";
/// `play()` started / waiting for the buffer.
pub const CONNECTING: &'static str = "Connexion au direct…";
/// Paused.
pub const PAUSED: &'static str = "En pause";
/// Actually playing.
pub const PLAYING: &'static str = "En écoute";
/// Reconnecting within the grace window.
pub const RECONNECTING: &'static str = "Reconnexion au direct…";
/// Failure, grace over.
pub const OFFLINE: &'static str = "hors ligne";

} // verus!
