//! A pattern-driven reader for interacting with programs behind a
//! pseudo-terminal: a buffered expect engine that matches a byte stream
//! against needles (literal bytes, regular expressions, byte counts,
//! end-of-file, or alternatives), together with the session state it runs in.

pub mod captures;
pub mod cmd;
pub mod control;
pub mod error;
pub mod interact;
pub mod log;
pub mod needle;
pub mod session;
pub mod stream;
