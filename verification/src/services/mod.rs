//! Feed parsers: each receives text and returns models, without touching the network.
pub mod history;
pub mod now_playing;
pub mod current_show;
pub mod data_store;
pub mod news;
pub mod voices;
pub mod schedule;
