//! The connection engine of a remote-shell session manager: session
//! descriptors, the per-connection protocol state machine, the connection
//! registry, the ordering rules of the remote file browser, and the settings
//! that the front end starts from.
//!
//! Nothing here performs I/O. A driver feeds the state machines with what the
//! network reported and carries out the actions they answer with.

pub mod config;
pub mod ssh;
pub mod storage;
pub mod text;
pub mod ui;
