//! A reaction-driven cross-post synchronization engine ("starboard").
//!
//! The library watches reaction activity on messages in a chat community and
//! mirrors messages that cross a popularity threshold into a dedicated board
//! channel.  It owns the synchronized state — per-community starboard
//! configurations and the tracked mapping from (source message, emoji) to the
//! mirrored board post — and decides, for every reaction-change notification,
//! whether to create, refresh, or self-heal-delete a tracked entry.
//!
//! All I/O (the messaging gateway and the durable store) is left to the
//! caller: each decision is a plain function from the current state and the
//! gateway's answers to the next state and the side effect the caller must
//! perform.

pub mod content;
pub mod ids;
pub mod reconcile;
pub mod state;
