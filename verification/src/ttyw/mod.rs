//! The browser terminal bridge: its message protocol, the decisions of a
//! terminal session and the files it serves.
pub mod frontend;
pub mod message;
pub mod session;
