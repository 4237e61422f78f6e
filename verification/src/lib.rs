//! A personal live-chat automation bot's trigger resolution and action
//! execution engine: the keyed registry of triggerable actions, the
//! per-action cooldown gate, the recursive action-effect evaluator with its
//! message templates and named counters, the persisted form of an action,
//! and the two ingestion paths that feed the engine (chat commands and
//! channel-point redemptions). Network, disk and the speech engine live
//! outside; the library hands them plain values and requests.

pub mod actions;
pub mod chat;
pub mod codec;
pub mod config;
pub mod counter;
pub mod data;
pub mod error;
pub mod events;
pub mod logs;
pub mod piper;
pub mod registry;
pub mod rng;
pub mod template;
pub mod text;
pub mod tts;
pub mod users;
pub mod utils;
