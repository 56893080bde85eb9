//! The command resolution and execution engine of a small interactive shell.
//!
//! Everything here is a pure decision over plain values: reading lines,
//! probing the filesystem, reading `PATH` and spawning processes are left to
//! the caller, which feeds their results back in.
pub mod parse;
pub mod resolve;
pub mod builtins;
pub mod session;
