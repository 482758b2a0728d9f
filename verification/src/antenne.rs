//! On-air state machine (frozen vocabulary). Computed **once** and shared by the sidebar
//! AND the player bar. Every label is verbatim and must never vary.
use vstd::prelude::*;

use crate::player::StreamHealth;

verus! {

/// On-air state (≠ player state).
#[derive(Debug, Clone, Copy, PartialEq, Eq, Structural)]
pub enum AntenneState {
    /// Real live show — the only exception to the azure accent (ember « on air »).
    Direct,
    ALAntenne,
    Connexion,
    HorsLigne,
}

/// Semantic tint (mapped to colours by the UI). Ember = DIRECT only.
#[derive(Debug, Clone, Copy, PartialEq, Eq, Structural)]
pub enum Tint {
    Azur,
    Braise,
    Muted,
}

pub open spec fn label_spec(s: AntenneState) -> Seq<char> {
    match s {
        AntenneState::Direct => "direct — on air"@,
        AntenneState::ALAntenne => "à l'antenne"@,
        AntenneState::Connexion => "connexion…"@,
        AntenneState::HorsLigne => "hors ligne"@,
    }
}

pub open spec fn kicker_spec(s: AntenneState) -> Seq<char> {
    match s {
        AntenneState::Direct => "// direct"@,
        _ => "// en ce moment"@,
    }
}

pub open spec fn tint_spec(s: AntenneState) -> Tint {
    match s {
        AntenneState::Direct => Tint::Braise,
        AntenneState::HorsLigne => Tint::Muted,
        _ => Tint::Azur,
    }
}

pub open spec fn accessibility_label_spec(s: AntenneState) -> Seq<char> {
    match s {
        AntenneState::Direct => "En direct, à l'antenne"@,
        AntenneState::ALAntenne => "À l'antenne"@,
        AntenneState::Connexion => "Connexion au flux en cours"@,
        AntenneState::HorsLigne => "Hors ligne"@,
    }
}

impl AntenneState {
    /// Pill label (verbatim).
    pub fn label(self) -> (r: &'static str)
        ensures
            r@ == label_spec(self),
    {
        match self {
            AntenneState::Direct => "direct — on air",
            AntenneState::ALAntenne => "à l'antenne",
            AntenneState::Connexion => "connexion…",
            AntenneState::HorsLigne => "hors ligne",
        }
    }

    /// Mono kicker (« // direct » live, « // en ce moment » otherwise).
    pub fn kicker(self) -> (r: &'static str)
        ensures
            r@ == kicker_spec(self),
    {
        match self {
            AntenneState::Direct => "// direct",
            _ => "// en ce moment",
        }
    }

    /// Tint: ember for the live show, muted when offline, azure otherwise.
    pub fn tint(self) -> (r: Tint)
        ensures
            r == tint_spec(self),
    {
        match self {
            AntenneState::Direct => Tint::Braise,
            AntenneState::HorsLigne => Tint::Muted,
            _ => Tint::Azur,
        }
    }

    /// The pill is « filled » only for the live show.
    pub fn is_filled(self) -> (r: bool)
        ensures
            r == (self == AntenneState::Direct),
    {
        matches!(self, AntenneState::Direct)
    }

    /// Accessibility label (verbatim).
    pub fn accessibility_label(self) -> (r: &'static str)
        ensures
            r@ == accessibility_label_spec(self),
    {
        match self {
            AntenneState::Direct => "En direct, à l'antenne",
            AntenneState::ALAntenne => "À l'antenne",
            AntenneState::Connexion => "Connexion au flux en cours",
            AntenneState::HorsLigne => "Hors ligne",
        }
    }
}

/// Resolution in this EXACT order: live first (even without local listening), then a
/// failed stream, then connecting while playing, then playing or fresh metadata.
pub open spec fn resolve_spec(
    health: StreamHealth,
    is_live: bool,
    is_playing: bool,
    metadata_fresh: bool,
) -> AntenneState {
    if is_live {
        AntenneState::Direct
    } else if health == StreamHealth::Failed {
        AntenneState::HorsLigne
    } else if health == StreamHealth::Connecting && is_playing {
        AntenneState::Connexion
    } else if is_playing || metadata_fresh {
        AntenneState::ALAntenne
    } else {
        AntenneState::HorsLigne
    }
}

/// Resolution in the EXACT order. `is_live` wins over everything, even without local
/// listening.
pub fn resolve(
    health: StreamHealth,
    is_live: bool,
    is_playing: bool,
    metadata_fresh: bool,
) -> (r: AntenneState)
    ensures
        r == resolve_spec(health, is_live, is_playing, metadata_fresh),
{
    if is_live {
        AntenneState::Direct
    } else if health == StreamHealth::Failed {
        AntenneState::HorsLigne
    } else if health == StreamHealth::Connecting && is_playing {
        AntenneState::Connexion
    } else if is_playing || metadata_fresh {
        AntenneState::ALAntenne
    } else {
        AntenneState::HorsLigne
    }
}

/// A live show is always « direct — on air », whatever the stream and the listener do;
/// without a live show the state is never « direct ».
pub proof fn live_wins_over_everything(
    health: StreamHealth,
    is_live: bool,
    is_playing: bool,
    metadata_fresh: bool,
)
    ensures
        is_live ==> resolve_spec(health, is_live, is_playing, metadata_fresh)
            == AntenneState::Direct,
        !is_live ==> resolve_spec(health, is_live, is_playing, metadata_fresh)
            != AntenneState::Direct,
{
}

/// Outside a live show, a failed stream is always « hors ligne », and « connexion… » is
/// shown only while connecting and playing.
pub proof fn failure_and_connection_rules(
    health: StreamHealth,
    is_playing: bool,
    metadata_fresh: bool,
)
    ensures
        health == StreamHealth::Failed ==> resolve_spec(health, false, is_playing, metadata_fresh)
            == AntenneState::HorsLigne,
        resolve_spec(health, false, is_playing, metadata_fresh) == AntenneState::Connexion
            <==> (health == StreamHealth::Connecting && is_playing),
{
}

/// The ember tint and the filled pill belong to the live show only.
pub proof fn ember_and_filled_pill_mean_direct(s: AntenneState)
    ensures
        tint_spec(s) == Tint::Braise <==> s == AntenneState::Direct,
        tint_spec(s) == Tint::Muted <==> s == AntenneState::HorsLigne,
{
}

} // verus!
