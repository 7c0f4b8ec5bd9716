//! Window-stack ordering for a desktop of sticky-note windows.
//!
//! The crate keeps the most-recently-used order of the notes, the registry of
//! live note windows and a gate that silences focus tracking during a batch
//! raise, and it plans the two-pass raise that brings every visible note to the
//! front without disturbing which notes are pinned. The windowing system, the
//! durable store and the timers stay with the caller: every function here
//! takes plain observations and hands back plain decisions.

pub mod desktop;
pub mod gate;
pub mod label;
pub mod lifecycle;
pub mod menu;
pub mod notes;
pub mod order;
pub mod raise;
pub mod registry;
pub mod store;
