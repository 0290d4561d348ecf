//! A verified PTY session manager: a registry of live pseudo-terminal
//! sessions together with the decision logic of the operations on them
//! (spawn, write, resize, kill, kill-all) and of the two per-session
//! I/O pumps that bridge a pseudo-terminal to an event sink.
//!
//! The blocking OS work itself (opening a pty, spawning the shell,
//! reading and writing the master handle, running the pump threads)
//! is left to the host application; this crate owns the registry,
//! every decision taken on it, and the byte-level transforms of the
//! pump loops.

pub mod messages;
pub mod meta;
pub mod pump;
pub mod registry;
pub mod shell;
pub mod text;
