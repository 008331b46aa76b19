//! Client-side screen model for a multiplexed text-display protocol.
//!
//! A remote editor emits an ordered stream of redraw events; this library
//! reconstructs the authoritative state those events describe: a registry of
//! character grids made of styled text cells, a global highlight table, a
//! cursor position, and a queue of transient messages.  The event reducer
//! applies each event deterministically and never panics on malformed input.

pub mod assoc;
pub mod bus;
pub mod command;
pub mod cursor;
pub mod events;
pub mod grids;
pub mod highlights;
pub mod messages;
pub mod reducer;
pub mod textbuf;
pub mod title;
