//! Pure logic of the Le Chat Noir radio player: endpoints, content models, tolerant
//! parsers for the station's feeds (JSON and RFC 4180 CSV), the on-air state machine,
//! the capped reconnection policy and Paris-time helpers.
use vstd::prelude::*;

pub mod antenne;
pub mod clock;
pub mod config;
pub mod content;
pub mod json;
pub mod pattern;
pub mod player;
pub mod presentation;
pub mod section;
pub mod services;
pub mod settings;
pub mod sorting;
pub mod text;
pub mod theme;

verus! {

} // verus!
