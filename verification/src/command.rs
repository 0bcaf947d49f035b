//! Commands: a name, aliases, a help text and a handler.

use crate::text::{lowercase, to_lowercase, views};
use vstd::prelude::*;

verus! {

/// What a command is known by and what it says of itself.
#[verifier::ext_equal]
pub struct CommandView {
    pub name: Seq<char>,
    pub aliases: Seq<Seq<char>>,
    pub help: Seq<char>,
}

/// Each of `words` with its letters `A` to `Z` in lower case.
pub open spec fn lowercase_all(words: Seq<Seq<char>>) -> Seq<Seq<char>> {
    Seq::new(words.len(), |i: int| lowercase(words[i]))
}

/// Whether the name and the aliases of `c` are in lower case, which here means that
/// they hold no capital `A` to `Z`, as the words do that they are matched against.
pub open spec fn is_folded(c: CommandView) -> bool {
    &&& lowercase(c.name) == c.name
    &&& lowercase_all(c.aliases) == c.aliases
}

/// A unit that a registry can look up by name or alias and run on a list of arguments.
pub trait Command {
    /// The name, aliases and help text: they stay as they are for the command's life.
    spec fn profile(&self) -> CommandView;

    /// Whether the command is in order, so that its hooks and its handler may be called.
    spec fn wf(&self) -> bool;

    /// The name that the command is registered under.
    fn get_command_name(&self) -> (name: &str)
        ensures
            name@ == self.profile().name,
    ;

    /// The other words that the command answers to.
    fn get_command_alias(&self) -> (aliases: &[String])
        ensures
            views(aliases@) == self.profile().aliases,
    ;

    /// What the command does and how it is used.
    fn get_help(&self) -> (help: &str)
        ensures
            help@ == self.profile().help,
    ;

    /// Called once before the command is first used. Does nothing unless overridden.
    fn start(&mut self)
        requires
            old(self).wf(),
        ensures
            final(self).wf(),
            final(self).profile() == old(self).profile(),
    {
    }

    /// Called once when the command is no longer needed. Does nothing unless overridden.
    fn end(&mut self)
        requires
            old(self).wf(),
        ensures
            final(self).wf(),
            final(self).profile() == old(self).profile(),
    {
    }

    /// Runs the command on the words that followed it on the line.
    fn on_command(&mut self, args: Vec<&str>)
        requires
            old(self).wf(),
        ensures
            final(self).wf(),
            final(self).profile() == old(self).profile(),
    ;
}

/// What a command keeps of its handler, whatever closure it is.
trait Handler {
    /// Whether the handler accepts every list of arguments.
    spec fn ready(&self) -> bool;

    /// Whether a call on `args` has come back as the handler promises.
    spec fn done(&self, args: Vec<&str>) -> bool;

    /// Calls the handler on `args`.
    fn call(&mut self, args: Vec<&str>)
        requires
            old(self).ready(),
        ensures
            final(self).ready(),
            old(self).done(args),
    ;
}

/// A closure as a handler.
struct FnHandler<F: FnMut(Vec<&str>)> {
    f: F,
}

impl<F: FnMut(Vec<&str>)> Handler for FnHandler<F> {
    spec fn ready(&self) -> bool {
        forall|args: Vec<&str>| call_requires(self.f, (args,))
    }

    spec fn done(&self, args: Vec<&str>) -> bool {
        call_ensures(self.f, (args,), ())
    }

    fn call(&mut self, args: Vec<&str>) {
        (self.f)(args);
    }
}

/// A command whose handler is a closure.
pub struct GenericCommand {
    name: String,
    aliases: Vec<String>,
    help: String,
    on_command_callback: Box<dyn Handler>,
}

impl View for GenericCommand {
    type V = CommandView;

    closed spec fn view(&self) -> CommandView {
        CommandView { name: self.name@, aliases: views(self.aliases@), help: self.help@ }
    }
}

impl GenericCommand {
    /// Whether a call of the handler on `args` has come back as the handler promises:
    /// what the `ensures` clause of the closure says of such a call.
    pub closed spec fn handled(&self, args: Vec<&str>) -> bool {
        self.on_command_callback.done(args)
    }

    /// A command called `name` and `aliases`, that shows `help` and hands its arguments
    /// to `on_command`, which must accept every list of them. The name and the aliases
    /// are kept with their letters `A` to `Z` in lower case; no other letter is folded,
    /// so `Ärger` stays `Ärger` and is not found under `ärger`.
    pub fn new<F: FnMut(Vec<&str>) + 'static>(
        name: String,
        aliases: Vec<String>,
        help: String,
        on_command: F,
    ) -> (command: Self)
        requires
            forall|args: Vec<&str>| call_requires(on_command, (args,)),
        ensures
            command.wf(),
            command@.name == lowercase(name@),
            command@.aliases == lowercase_all(views(aliases@)),
            command@.help == help@,
            forall|args: Vec<&str>| #[trigger]
                command.handled(args) == call_ensures(on_command, (args,), ()),
    {
        let folded_name = to_lowercase(name.as_str());
        let mut folded: Vec<String> = Vec::new();
        for i in 0..aliases.len()
            invariant
                views(folded@) == lowercase_all(views(aliases@).take(i as int)),
        {
            let alias = to_lowercase(aliases[i].as_str());
            assert(views(folded@.push(alias)) == views(folded@).push(alias@));
            assert(lowercase_all(views(aliases@).take(i + 1)) == lowercase_all(
                views(aliases@).take(i as int),
            ).push(lowercase(aliases@[i as int]@)));
            folded.push(alias);
        }
        assert(views(aliases@).take(aliases.len() as int) == views(aliases@));
        proof {
            lemma_lowercase_all_idempotent(views(aliases@));
            crate::text::lemma_lowercase_idempotent(name@);
        }
        Self {
            name: folded_name,
            aliases: folded,
            help,
            on_command_callback: Box::new(FnHandler { f: on_command }),
        }
    }

    /// A command that is in order has its name and its aliases in lower case.
    pub proof fn lemma_wf_is_folded(&self)
        requires
            self.wf(),
        ensures
            is_folded(self@),
    {
    }
}

impl Command for GenericCommand {
    open spec fn profile(&self) -> CommandView {
        self@
    }

    closed spec fn wf(&self) -> bool {
        &&& self.on_command_callback.ready()
        &&& is_folded(self@)
    }

    fn get_command_name(&self) -> (name: &str) {
        self.name.as_str()
    }

    fn get_command_alias(&self) -> (aliases: &[String]) {
        self.aliases.as_slice()
    }

    fn get_help(&self) -> (help: &str) {
        self.help.as_str()
    }

    /// Hands `args` to the handler.
    fn on_command(&mut self, args: Vec<&str>)
        ensures
            old(self).handled(args),
    {
        self.on_command_callback.call(args);
    }
}

/// An alias of a command whose words are in lower case is in lower case.
pub proof fn lemma_folded_alias(c: CommandView, alias: Seq<char>)
    requires
        is_folded(c),
        c.aliases.contains(alias),
    ensures
        lowercase(alias) == alias,
{
    let k = choose|k: int| 0 <= k < c.aliases.len() && c.aliases[k] == alias;
    assert(lowercase_all(c.aliases)[k] == lowercase(c.aliases[k]));
}

/// Folding words that are in lower case already changes nothing.
pub proof fn lemma_lowercase_all_idempotent(words: Seq<Seq<char>>)
    ensures
        lowercase_all(lowercase_all(words)) == lowercase_all(words),
{
    assert forall|i: int| 0 <= i < words.len() implies lowercase(lowercase(words[i])) == lowercase(
        words[i],
    ) by {
        crate::text::lemma_lowercase_idempotent(words[i]);
    }
    assert(lowercase_all(lowercase_all(words)) =~= lowercase_all(words));
}

} // verus!
