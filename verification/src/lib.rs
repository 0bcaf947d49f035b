//! A small interactive shell: commands with names and aliases, a registry that finds the
//! command that a line of input names and runs it on the words that follow, a built-in
//! help, and a policy for lines that lead nowhere.
//!
//! The library decides and computes; it neither reads nor prints. What is to be shown
//! comes back as text, and what was done to the commands is kept in a record that the
//! contracts speak of.

pub mod command;
pub mod console;
pub mod error_handler;
pub mod laws;
pub mod log;
pub mod model;
pub mod register;
pub mod text;

pub use crate::console::Console;
pub use crate::log::{log, LogTypes};
pub use crate::register::{CommandsRegister, Dispatch};
