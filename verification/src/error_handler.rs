//! What to tell the user of a line that no command answers.

use crate::log::{is_log_line, log, LogTypes};
use vstd::prelude::*;
use vstd::string::StringExecFns;

verus! {

/// The text that `reply` holds, if it holds any.
pub open spec fn shown(reply: Option<String>) -> Option<Seq<char>> {
    match reply {
        Some(text) => Some(text@),
        None => None,
    }
}

/// The policy for lines that lead to no command. Each answer is a line to show to the
/// user, or nothing.
pub trait ErrorHandler {
    /// Whether `reply` is an answer of this policy to a line without a word. A policy
    /// that says nothing of its answers allows every one.
    open spec fn on_empty(&self, reply: Option<Seq<char>>) -> bool {
        true
    }

    /// Whether `reply` is an answer of this policy to a line whose first word,
    /// `command`, nothing answers to. A policy that says nothing of its answers allows
    /// every one.
    open spec fn on_unknown(&self, command: Seq<char>, reply: Option<Seq<char>>) -> bool {
        true
    }

    /// Answers a line that holds no word.
    fn input_void(&self) -> (reply: Option<String>)
        ensures
            self.on_empty(shown(reply)),
    ;

    /// Answers a line whose first word, `command`, nothing answers to.
    fn wrong_command(&self, command: &str) -> (reply: Option<String>)
        ensures
            self.on_unknown(command@, shown(reply)),
    ;
}

/// What follows the unknown word in the line that reports it.
pub open spec fn not_valid() -> Seq<char> {
    ": not a valid command"@
}

/// The policy of a registry that was given none: silence for an empty line, one error
/// line for an unknown word.
pub struct NErrorHandler;

impl NErrorHandler {
    /// The policy, which holds nothing.
    pub fn new() -> (handler: Self)
        ensures
            handler == NErrorHandler,
    {
        Self
    }
}

impl Default for NErrorHandler {
    fn default() -> (handler: Self)
        ensures
            handler == NErrorHandler,
    {
        Self
    }
}

impl ErrorHandler for NErrorHandler {
    open spec fn on_empty(&self, reply: Option<Seq<char>>) -> bool {
        reply is None
    }

    open spec fn on_unknown(&self, command: Seq<char>, reply: Option<Seq<char>>) -> bool {
        match reply {
            Some(line) => is_log_line(LogTypes::ERR, command + not_valid(), line),
            None => false,
        }
    }

    fn input_void(&self) -> (reply: Option<String>) {
        None
    }

    fn wrong_command(&self, command: &str) -> (reply: Option<String>) {
        let mut message = String::from_str(command);
        message.append(": not a valid command");
        Some(log(LogTypes::ERR, message))
    }
}

} // verus!
