//! Block-structured string storage on Mifare-Classic-family tags, and the
//! edge-triggered watcher that turns tag presence into events.
//!
//! The library never touches the bus itself. A writer hands out the blocks
//! to commit and a reader is fed the blocks that were fetched; a session
//! says which command the host performs next (authenticate, fetch, commit,
//! halt, clear the cryptographic state) and takes its outcome.

pub mod codec;
pub mod error;
pub mod image;
pub mod laws;
pub mod layout;
pub mod reader;
pub mod session;
pub mod tag;
pub mod user_requests;
pub mod writer;
