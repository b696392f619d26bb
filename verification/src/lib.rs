//! Command parsing and session state for a small remote shell.
pub mod text;
pub mod commands;
pub mod io;
pub mod session;
