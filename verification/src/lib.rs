//! Core logic of a client for a server-authoritative multiplayer game.
//!
//! The client keeps a local view of replicated actors in sync with the
//! server and locally predicts the one actor it controls (its pawn).
//! The networked transport, the renderer and the logger are external
//! collaborators: they deliver plain events into this crate and carry
//! out the plain actions and view operations it emits.

pub mod actor;
pub mod input;
pub mod pawn;
pub mod reconcile;
pub mod session;
