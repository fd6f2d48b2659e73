//! Remotely controllable pseudo-terminal sessions: the verified core.
//!
//! The crate holds the decisions of a terminal session manager (which
//! sessions exist, what a poll returns, which error a request earns) and of
//! the two probes that accompany it, the process-ancestry walk and the window
//! tracker. Operating-system work (opening a PTY, reading `/proc`, sleeping)
//! is left to the caller, who hands in plain values and carries out what the
//! functions here decide.

pub mod error;
pub mod laws;
pub mod manager;
pub mod model;
pub mod output_buffer;
pub mod process_tracker;
pub mod registry;
pub mod session;
pub mod text;
pub mod window_tracker;
