//! The registry: the commands in the order of their registration, and what a line of
//! input does to them.

use crate::command::{is_folded, Command, CommandView, GenericCommand};
use crate::error_handler::{shown, ErrorHandler, NErrorHandler};
use crate::model::{
    entry, events_of, help_text, is_help_word, last_aliased, last_named, listing, lookup, resolve,
    runs, Event, Resolution,
};
use crate::text::{contains_text, same_text, split_whitespace, to_lowercase, tokens, views};
use vstd::prelude::*;
use vstd::string::StringExecFns;

verus! {

/// What became of a line of input.
#[derive(Debug)]
pub enum Dispatch {
    /// The line held no word.
    Blank,
    /// The handler of the command at this place in the registry was called.
    Command(usize),
    /// The built-in help answered: the text to show, if there is any.
    Help(Option<String>),
    /// Nothing answers to the first word of the line, which is handed back as typed.
    Unknown(String),
}

impl Dispatch {
    /// Whether this is what `resolution` asks for.
    pub open spec fn reports(self, resolution: Resolution) -> bool {
        match resolution {
            Resolution::Blank => self is Blank,
            Resolution::Run { index, args } => self == Dispatch::Command(index as usize),
            Resolution::Help { text } => self is Help && shown(self->Help_0) == text,
            Resolution::Unknown { word } => self is Unknown && self->Unknown_0@ == word,
        }
    }

    /// Whether a command or the built-in help took the line.
    pub open spec fn is_handled(self) -> bool {
        self is Command || self is Help
    }

    /// Whether a command or the built-in help took the line.
    pub fn handled(&self) -> (handled: bool)
        ensures
            handled == self.is_handled(),
    {
        match self {
            Dispatch::Command(_) => true,
            Dispatch::Help(_) => true,
            _ => false,
        }
    }
}

/// The commands of a shell, with the policy for lines that none of them answers.
pub struct CommandsRegister<E> {
    commands: Vec<GenericCommand>,
    error_handler: E,
    help_command: bool,
    journal: Ghost<Seq<Event>>,
}

impl<E> CommandsRegister<E> {
    /// The registered commands themselves, in the order of their registration.
    pub closed spec fn items(&self) -> Seq<GenericCommand> {
        self.commands@
    }

    /// What the registered commands are known by, in the order of their registration.
    pub open spec fn commands(&self) -> Seq<CommandView> {
        views(self.items())
    }

    /// Whether every registered command is in order.
    pub open spec fn wf(&self) -> bool {
        forall|i: int| 0 <= i < self.items().len() ==> (#[trigger] self.items()[i]).wf()
    }

    /// Whether the built-in help answers.
    pub closed spec fn help_enabled(&self) -> bool {
        self.help_command
    }

    /// The policy for lines that no command answers.
    pub closed spec fn handler(&self) -> E {
        self.error_handler
    }

    /// What the registry has done to its commands so far, oldest first.
    pub closed spec fn journal(&self) -> Seq<Event> {
        self.journal@
    }

    /// What `line` leads to with the commands that are registered now.
    pub open spec fn resolution(&self, line: Seq<char>) -> Resolution {
        resolve(self.commands(), self.help_enabled(), line)
    }

    /// Whether the handler of the command at `i` was called on arguments that read
    /// `args`, and has come back as it promises.
    pub open spec fn handled_at(&self, i: int, args: Seq<Seq<char>>) -> bool {
        exists|given: Vec<&str>| views(given@) == args && #[trigger] self.items()[i].handled(given)
    }

    /// The commands of a registry that is in order have their names and their aliases in
    /// lower case.
    pub proof fn law_commands_are_in_lower_case(&self)
        requires
            self.wf(),
        ensures
            forall|i: int|
                0 <= i < self.commands().len() ==> is_folded(#[trigger] self.commands()[i]),
    {
        assert forall|i: int| 0 <= i < self.commands().len() implies is_folded(
            #[trigger] self.commands()[i],
        ) by {
            self.items()[i].lemma_wf_is_folded();
        }
    }
}

/// The start hooks of `n` commands, in the order of their registration.
pub open spec fn all_started(n: nat) -> Seq<Event> {
    Seq::new(n, |i: int| Event::Started(i))
}

/// The end hooks of `n` commands, in the order of their registration.
pub open spec fn all_ended(n: nat) -> Seq<Event> {
    Seq::new(n, |i: int| Event::Ended(i))
}

impl<E: ErrorHandler> CommandsRegister<E> {
    /// A registry without commands.
    pub fn new(error_handle: E, help_command: bool) -> (register: Self)
        ensures
            register.wf(),
            register.items() == Seq::<GenericCommand>::empty(),
            register.handler() == error_handle,
            register.help_enabled() == help_command,
            register.journal() == Seq::<Event>::empty(),
    {
        Self {
            commands: Vec::new(),
            error_handler: error_handle,
            help_command,
            journal: Ghost(Seq::empty()),
        }
    }

    /// The policy for lines that no command answers.
    pub fn get_error_handler(&self) -> (handler: &E)
        ensures
            *handler == self.handler(),
    {
        &self.error_handler
    }

    /// The place of the command that answers to `command_str`, if one does.
    pub fn find_command(&self, command_str: &str) -> (found: Option<usize>)
        ensures
            (match found {
                Some(i) => i < self.items().len() && lookup(self.commands(), command_str@) == Some(
                    i as int,
                ),
                None => lookup(self.commands(), command_str@) is None,
            }),
    {
        let ghost commands = self.commands();
        let mut i = self.commands.len();
        assert(commands.take(i as int) == commands);
        while i > 0
            invariant
                i <= self.commands.len(),
                commands == self.commands(),
                last_named(commands, command_str@) == last_named(
                    commands.take(i as int),
                    command_str@,
                ),
            decreases i,
        {
            i -= 1;
            assert(commands.take(i + 1).drop_last() == commands.take(i as int));
            if same_text(self.commands[i].get_command_name(), command_str) {
                return Some(i);
            }
        }
        let mut i = self.commands.len();
        assert(commands.take(i as int) == commands);
        while i > 0
            invariant
                i <= self.commands.len(),
                commands == self.commands(),
                last_named(commands, command_str@) is None,
                last_aliased(commands, command_str@) == last_aliased(
                    commands.take(i as int),
                    command_str@,
                ),
            decreases i,
        {
            i -= 1;
            assert(commands.take(i + 1).drop_last() == commands.take(i as int));
            if contains_text(self.commands[i].get_command_alias(), command_str) {
                return Some(i);
            }
        }
        None
    }

    /// The command that answers to `command_str`, if one does, to be used in place.
    pub fn get_command(&mut self, command_str: &str) -> (found: Option<&mut GenericCommand>)
        ensures
            (match found {
                Some(command) => {
                    let i = lookup(old(self).commands(), command_str@)->0;
                    &&& lookup(old(self).commands(), command_str@) is Some
                    &&& 0 <= i < old(self).items().len()
                    &&& *command == old(self).items()[i]
                    &&& final(self).items() == old(self).items().update(i, *final(command))
                },
                None => {
                    &&& lookup(old(self).commands(), command_str@) is None
                    &&& final(self).items() == old(self).items()
                },
            }),
            final(self).help_enabled() == old(self).help_enabled(),
            final(self).handler() == old(self).handler(),
            final(self).journal() == old(self).journal(),
    {
        match self.find_command(command_str) {
            Some(i) => Some(&mut self.commands[i]),
            None => None,
        }
    }

    /// Calls the start hook of every command, in the order of their registration.
    pub fn start(&mut self)
        requires
            old(self).wf(),
        ensures
            final(self).wf(),
            final(self).commands() == old(self).commands(),
            final(self).help_enabled() == old(self).help_enabled(),
            final(self).handler() == old(self).handler(),
            final(self).journal() == old(self).journal() + all_started(old(self).items().len()),
    {
        let n = self.commands.len();
        let ghost before = self.journal@;
        let ghost known = self.commands();
        for i in 0..n
            invariant
                n == self.commands.len(),
                self.wf(),
                self.commands() == known,
                self.help_command == old(self).help_command,
                self.error_handler == old(self).error_handler,
                self.journal@ == before + all_started(i as nat),
        {
            let ghost was = self.commands@;
            self.commands[i].start();
            proof {
                assert(self.commands@ == was.update(i as int, self.commands@[i as int]));
                assert(self.commands() == known);
                assert(all_started((i + 1) as nat) == all_started(i as nat).push(
                    Event::Started(i as int),
                ));
                self.journal@ = self.journal@.push(Event::Started(i as int));
            }
        }
    }

    /// Calls the end hook of every command, in the order of their registration.
    pub fn end(&mut self)
        requires
            old(self).wf(),
        ensures
            final(self).wf(),
            final(self).commands() == old(self).commands(),
            final(self).help_enabled() == old(self).help_enabled(),
            final(self).handler() == old(self).handler(),
            final(self).journal() == old(self).journal() + all_ended(old(self).items().len()),
    {
        let n = self.commands.len();
        let ghost before = self.journal@;
        let ghost known = self.commands();
        for i in 0..n
            invariant
                n == self.commands.len(),
                self.wf(),
                self.commands() == known,
                self.help_command == old(self).help_command,
                self.error_handler == old(self).error_handler,
                self.journal@ == before + all_ended(i as nat),
        {
            let ghost was = self.commands@;
            self.commands[i].end();
            proof {
                assert(self.commands@ == was.update(i as int, self.commands@[i as int]));
                assert(self.commands() == known);
                assert(all_ended((i + 1) as nat) == all_ended(i as nat).push(
                    Event::Ended(i as int),
                ));
                self.journal@ = self.journal@.push(Event::Ended(i as int));
            }
        }
    }

    /// Takes `input` as a line typed by the user. The first word is looked up with its
    /// letters `A` to `Z` in lower case; no other letter is folded. The words after it
    /// are the arguments, as they were typed, and none of them is folded, neither for a
    /// command nor for the built-in help. Where a command answers, its handler is
    /// called with them, and every other command stays as it is. Where none does and
    /// the built-in help is enabled and called for, the help text is handed back.
    pub fn check_input(&mut self, input: String) -> (outcome: Dispatch)
        requires
            old(self).wf(),
        ensures
            final(self).wf(),
            final(self).commands() == old(self).commands(),
            final(self).items().len() == old(self).items().len(),
            forall|j: int|
                0 <= j < old(self).items().len() && !runs(old(self).resolution(input@), j) ==> (
                #[trigger] final(self).items()[j]) == old(self).items()[j],
            final(self).help_enabled() == old(self).help_enabled(),
            final(self).handler() == old(self).handler(),
            outcome.reports(old(self).resolution(input@)),
            final(self).journal() == old(self).journal() + events_of(old(self).resolution(input@)),
            (old(self).resolution(input@) matches Resolution::Run { index, args }
                ==> old(self).handled_at(index, args)),
    {
        let words = split_whitespace(input.as_str());
        if words.len() == 0 {
            return Dispatch::Blank;
        }
        let command_or_alias = to_lowercase(words[0]);
        let mut args: Vec<&str> = Vec::new();
        for i in 1..words.len()
            invariant
                views(args@) == tokens(input@).subrange(1, i as int),
                views(words@) == tokens(input@),
        {
            assert(views(args@.push(words@[i as int])) == views(args@).push(words@[i as int]@));
            assert(views(words@)[i as int] == words@[i as int]@);
            args.push(words[i]);
        }
        assert(tokens(input@).subrange(1, words.len() as int) == tokens(input@).skip(1));
        assert(views(words@)[0] == words@[0]@);
        match self.find_command(command_or_alias.as_str()) {
            Some(i) => {
                let ghost given = views(args@);
                let ghost was = self.commands@;
                let ghost known = self.commands();
                let ghost handed = args;
                self.commands[i].on_command(args);
                proof {
                    assert(old(self).items()[i as int].handled(handed));
                    assert(self.commands@ == was.update(i as int, self.commands@[i as int]));
                    assert(self.commands() == known);
                    self.journal@ = self.journal@.push(Event::Invoked(i as int, given));
                }
                Dispatch::Command(i)
            },
            None => {
                if self.help_command && Self::is_help_command(command_or_alias.as_str()) {
                    Dispatch::Help(self.help(args.as_slice()))
                } else {
                    Dispatch::Unknown(String::from_str(words[0]))
                }
            },
        }
    }

    /// What the built-in help shows for `args`: every command for none of them, the one
    /// that answers to a single one, and nothing where none answers or more are given.
    /// The single argument is looked up as it is given, capitals and all: names and
    /// aliases are kept in lower case, so one with a capital `A` to `Z` finds nothing.
    pub fn help(&mut self, args: &[&str]) -> (text: Option<String>)
        ensures
            *final(self) == *old(self),
            shown(text) == help_text(old(self).commands(), views(args@)),
    {
        if args.len() == 0 {
            let mut content = String::new();
            let ghost commands = self.commands();
            for i in 0..self.commands.len()
                invariant
                    commands == self.commands(),
                    content@ == listing(commands.take(i as int)),
            {
                assert(commands.take(i + 1).drop_last() == commands.take(i as int));
                let one = entry_of(&self.commands[i]);
                content.append(one.as_str());
            }
            assert(commands.take(self.commands.len() as int) == commands);
            Some(content)
        } else if args.len() == 1 {
            match self.find_command(args[0]) {
                Some(i) => Some(entry_of(&self.commands[i])),
                None => None,
            }
        } else {
            None
        }
    }

    /// Whether `command_str` calls for the built-in help.
    pub fn is_help_command(command_str: &str) -> (is_help: bool)
        ensures
            is_help == is_help_word(command_str@),
    {
        proof {
            reveal_strlit("help");
            reveal_strlit("h");
            reveal_strlit("?");
        }
        assert("help"@ == seq!['h', 'e', 'l', 'p']);
        assert("h"@ == seq!['h']);
        assert("?"@ == seq!['?']);
        same_text(command_str, "help") || same_text(command_str, "h") || same_text(command_str, "?")
    }

    /// Adds `command` after the commands that are registered already.
    pub fn register_command(&mut self, command: GenericCommand)
        requires
            old(self).wf(),
            command.wf(),
        ensures
            final(self).wf(),
            final(self).items() == old(self).items().push(command),
            final(self).help_enabled() == old(self).help_enabled(),
            final(self).handler() == old(self).handler(),
            final(self).journal() == old(self).journal(),
    {
        let ghost before = self.commands@;
        self.commands.push(command);
        assert forall|i: int| 0 <= i < self.items().len() implies (#[trigger] self.items()[
            i
        ]).wf() by {
            if i < before.len() {
                assert(self.items()[i] == old(self).items()[i]);
            } else {
                assert(self.items()[i] == command);
            }
        }
    }
}

impl Default for CommandsRegister<NErrorHandler> {
    /// A registry without commands, with the built-in help and the policy of
    /// `NErrorHandler`.
    fn default() -> (register: Self)
        ensures
            register.wf(),
            register.items() == Seq::<GenericCommand>::empty(),
            register.handler() == NErrorHandler,
            register.help_enabled(),
            register.journal() == Seq::<Event>::empty(),
    {
        Self::new(NErrorHandler::new(), true)
    }
}

/// What help shows of `command`.
pub fn entry_of(command: &GenericCommand) -> (text: String)
    ensures
        text@ == entry(command@),
{
    let mut text = String::from_str(command.get_command_name());
    text.push('\n');
    text.append(command.get_help());
    text.push('\n');
    text.push('\n');
    text
}

} // verus!
