//! A session registry for OS pseudo-terminals.
//!
//! The registry owns zero or more live shell sessions, each backed by one OS
//! pty pair and an attached shell process, and drives them through five
//! operations: create, write, read, resize, close. Every operation's effect
//! on the registry is stated against its mathematical view, a map from tab
//! id to session image, and proved. The OS pty facility itself is consumed
//! through the trusted boundary in `pty`.

pub mod laws;
pub mod pty;
pub mod registry;
