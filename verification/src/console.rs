//! The shell: a prompt, a registry, and what one line of input leads to.

use crate::error_handler::{shown, ErrorHandler};
use crate::model::{events_of, questions_of, runs, Question, Resolution};
use crate::register::{CommandsRegister, Dispatch};
use vstd::prelude::*;

verus! {

/// A registry behind a prompt.
pub struct Console<E: ErrorHandler> {
    prompt: String,
    commands_register: CommandsRegister<E>,
    asked: Ghost<Seq<Question>>,
}

impl<E: ErrorHandler> Console<E> {
    /// The text that asks the user for a line.
    pub closed spec fn prompt_text(&self) -> Seq<char> {
        self.prompt@
    }

    /// The registry that the lines go to.
    pub closed spec fn register(&self) -> CommandsRegister<E> {
        self.commands_register
    }

    /// What the shell has asked of its policy so far, oldest first.
    pub closed spec fn asked(&self) -> Seq<Question> {
        self.asked@
    }

    /// Whether `reply` is what is owed to the user where a line leads to `resolution`:
    /// the answer of the policy for a line that leads to no command, the text of the
    /// built-in help, and nothing where a command was run, which speaks for itself.
    pub open spec fn answers(handler: E, resolution: Resolution, reply: Option<Seq<char>>) -> bool {
        match resolution {
            Resolution::Blank => handler.on_empty(reply),
            Resolution::Run { index, args } => reply is None,
            Resolution::Help { text } => reply == text,
            Resolution::Unknown { word } => handler.on_unknown(word, reply),
        }
    }

    /// A shell that asks with `prompt` and sends what it reads to `commands_register`.
    pub fn new(prompt: String, commands_register: CommandsRegister<E>) -> (console: Self)
        ensures
            console.prompt_text() == prompt@,
            console.register() == commands_register,
            console.asked() == Seq::<Question>::empty(),
    {
        Self { prompt, commands_register, asked: Ghost(Seq::empty()) }
    }

    /// The text that asks the user for a line.
    pub fn prompt(&self) -> (prompt: &str)
        ensures
            prompt@ == self.prompt_text(),
    {
        self.prompt.as_str()
    }

    /// The registry that the lines go to.
    pub fn commands_register(&self) -> (register: &CommandsRegister<E>)
        ensures
            *register == self.register(),
    {
        &self.commands_register
    }

    /// Takes `input` as the line that the user typed at the prompt, and hands back what
    /// to show in answer. A line without a word goes to the policy's `input_void`. Any
    /// other goes to the registry, and where nothing there answers to its first word,
    /// that word goes to the policy's `wrong_command`, as it was typed. A command that
    /// is run leaves every other command as it is.
    pub fn update(&mut self, input: String) -> (reply: Option<String>)
        requires
            old(self).register().wf(),
        ensures
            final(self).prompt_text() == old(self).prompt_text(),
            final(self).register().wf(),
            final(self).register().commands() == old(self).register().commands(),
            final(self).register().items().len() == old(self).register().items().len(),
            forall|j: int|
                0 <= j < old(self).register().items().len() && !runs(
                    old(self).register().resolution(input@),
                    j,
                ) ==> (#[trigger] final(self).register().items()[j]) == old(
                    self,
                ).register().items()[j],
            final(self).register().help_enabled() == old(self).register().help_enabled(),
            final(self).register().handler() == old(self).register().handler(),
            Self::answers(
                old(self).register().handler(),
                old(self).register().resolution(input@),
                shown(reply),
            ),
            final(self).register().journal() == old(self).register().journal() + events_of(
                old(self).register().resolution(input@),
            ),
            final(self).asked() == old(self).asked() + questions_of(
                old(self).register().resolution(input@),
            ),
            (old(self).register().resolution(input@) matches Resolution::Run { index, args }
                ==> old(self).register().handled_at(index, args)),
    {
        match self.commands_register.check_input(input) {
            Dispatch::Blank => {
                proof {
                    self.asked@ = self.asked@.push(Question::Empty);
                }
                self.commands_register.get_error_handler().input_void()
            },
            Dispatch::Command(_) => None,
            Dispatch::Help(text) => text,
            Dispatch::Unknown(command) => {
                proof {
                    self.asked@ = self.asked@.push(Question::Unknown(command@));
                }
                self.commands_register.get_error_handler().wrong_command(command.as_str())
            },
        }
    }
}

} // verus!
