//! What a candidate's own model can read about their interview.
//!
//! A mentor is meant for practice. Nothing here stops one from being used in a scored
//! interview, which is why the route stays off until an operator turns it on with a token.

pub mod board;
pub mod laws;
pub mod message_laws;
pub mod rpc;
pub mod snapshot;
pub mod tool_laws;

pub use board::{BoardView, MentorBoard, Published};
pub use rpc::{handle_message, PROTOCOL_VERSION};
pub use snapshot::{Snapshot, SnapshotView};
