//! The registry as mathematics: which command a word names, what help shows, and what a
//! line of input leads to.

use crate::command::CommandView;
use crate::text::{lowercase, tokens};
use vstd::prelude::*;

verus! {

/// The place of the last command of `commands` that is called `word`.
pub open spec fn last_named(commands: Seq<CommandView>, word: Seq<char>) -> Option<int>
    decreases commands.len(),
{
    if commands.len() == 0 {
        None
    } else if commands.last().name == word {
        Some(commands.len() - 1)
    } else {
        last_named(commands.drop_last(), word)
    }
}

/// The place of the last command of `commands` that has `word` among its aliases.
pub open spec fn last_aliased(commands: Seq<CommandView>, word: Seq<char>) -> Option<int>
    decreases commands.len(),
{
    if commands.len() == 0 {
        None
    } else if commands.last().aliases.contains(word) {
        Some(commands.len() - 1)
    } else {
        last_aliased(commands.drop_last(), word)
    }
}

/// The command that answers to `word`: the last one called so, else the last one that
/// has it as an alias. Names go before aliases, and later commands before earlier ones.
pub open spec fn lookup(commands: Seq<CommandView>, word: Seq<char>) -> Option<int> {
    match last_named(commands, word) {
        Some(i) => Some(i),
        None => last_aliased(commands, word),
    }
}

/// The words that call for the built-in help: `help`, `h` and `?`.
pub open spec fn is_help_word(word: Seq<char>) -> bool {
    ||| word == seq!['h', 'e', 'l', 'p']
    ||| word == seq!['h']
    ||| word == seq!['?']
}

/// What help shows of one command: its name on a line, its help text, and an empty line.
pub open spec fn entry(command: CommandView) -> Seq<char> {
    command.name + seq!['\n'] + command.help + seq!['\n', '\n']
}

/// The entries of all of `commands`, in the order in which they were registered.
pub open spec fn listing(commands: Seq<CommandView>) -> Seq<char>
    decreases commands.len(),
{
    if commands.len() == 0 {
        Seq::empty()
    } else {
        listing(commands.drop_last()) + entry(commands.last())
    }
}

/// What help shows for `args`: the whole listing for none, the entry of the command
/// that answers to a single one, looked up as it is given, and nothing where none
/// answers or more are given.
pub open spec fn help_text(commands: Seq<CommandView>, args: Seq<Seq<char>>) -> Option<Seq<char>> {
    if args.len() == 0 {
        Some(listing(commands))
    } else if args.len() == 1 {
        match lookup(commands, args[0]) {
            Some(i) => Some(entry(commands[i])),
            None => None,
        }
    } else {
        None
    }
}

/// What a line of input leads to.
#[verifier::ext_equal]
pub enum Resolution {
    /// The line holds no word.
    Blank,
    /// The command at `index` is run on `args`.
    Run { index: int, args: Seq<Seq<char>> },
    /// The built-in help answers with `text`, or with nothing.
    Help { text: Option<Seq<char>> },
    /// Nothing answers to `word`, the first word of the line as it was typed.
    Unknown { word: Seq<char> },
}

/// Resolves `line` against `commands`. The first word is looked up with its letters `A`
/// to `Z` in lower case; the words after it are the arguments, as they were typed, for
/// a command and for the built-in help alike. A registered command goes before the
/// built-in help, which answers only where `help_enabled`.
pub open spec fn resolve(
    commands: Seq<CommandView>,
    help_enabled: bool,
    line: Seq<char>,
) -> Resolution {
    let words = tokens(line);
    if words.len() == 0 {
        Resolution::Blank
    } else {
        let word = lowercase(words[0]);
        let args = words.skip(1);
        match lookup(commands, word) {
            Some(index) => Resolution::Run { index, args },
            None => if help_enabled && is_help_word(word) {
                Resolution::Help { text: help_text(commands, args) }
            } else {
                Resolution::Unknown { word: words[0] }
            },
        }
    }
}

/// Something that a registry did to one of its commands.
#[verifier::ext_equal]
pub enum Event {
    /// The start hook of the command at this place was called.
    Started(int),
    /// The end hook of the command at this place was called.
    Ended(int),
    /// The handler of the command at this place was called with these arguments.
    Invoked(int, Seq<Seq<char>>),
}

/// Whether `resolution` runs the command at `place`.
pub open spec fn runs(resolution: Resolution, place: int) -> bool {
    resolution matches Resolution::Run { index, args } && index == place
}

/// What resolving a line adds to the record of a registry: the one call of a handler,
/// where a command is run, and else nothing.
pub open spec fn events_of(resolution: Resolution) -> Seq<Event> {
    match resolution {
        Resolution::Run { index, args } => seq![Event::Invoked(index, args)],
        _ => Seq::empty(),
    }
}

/// Something that a shell asked of its policy for lines that lead to no command.
#[verifier::ext_equal]
pub enum Question {
    /// What to say of a line without a word.
    Empty,
    /// What to say of a line whose first word is this one, which nothing answers to.
    Unknown(Seq<char>),
}

/// What resolving a line makes a shell ask of its policy: one question where the line
/// is blank or its first word unknown, and else none.
pub open spec fn questions_of(resolution: Resolution) -> Seq<Question> {
    match resolution {
        Resolution::Blank => seq![Question::Empty],
        Resolution::Unknown { word } => seq![Question::Unknown(word)],
        _ => Seq::empty(),
    }
}

/// `last_named` finds a command called `word` after which no other is called so, and
/// finds none only where no command is called so.
pub proof fn lemma_last_named(commands: Seq<CommandView>, word: Seq<char>)
    ensures
        (match last_named(commands, word) {
            Some(i) => {
                &&& 0 <= i < commands.len()
                &&& commands[i].name == word
                &&& forall|j: int| i < j < commands.len() ==> (#[trigger] commands[j]).name != word
            },
            None => forall|j: int|
                0 <= j < commands.len() ==> (#[trigger] commands[j]).name != word,
        }),
    decreases commands.len(),
{
    if commands.len() > 0 && commands.last().name != word {
        let front = commands.drop_last();
        lemma_last_named(front, word);
        assert forall|j: int| 0 <= j < front.len() implies front[j] == commands[j] by {}
    }
}

/// `last_aliased` finds a command with the alias `word` after which no other has it, and
/// finds none only where no command has it.
pub proof fn lemma_last_aliased(commands: Seq<CommandView>, word: Seq<char>)
    ensures
        (match last_aliased(commands, word) {
            Some(i) => {
                &&& 0 <= i < commands.len()
                &&& commands[i].aliases.contains(word)
                &&& forall|j: int|
                    i < j < commands.len() ==> !(#[trigger] commands[j]).aliases.contains(word)
            },
            None => forall|j: int|
                0 <= j < commands.len() ==> !(#[trigger] commands[j]).aliases.contains(word),
        }),
    decreases commands.len(),
{
    if commands.len() > 0 && !commands.last().aliases.contains(word) {
        let front = commands.drop_last();
        lemma_last_aliased(front, word);
        assert forall|j: int| 0 <= j < front.len() implies front[j] == commands[j] by {}
    }
}

} // verus!
