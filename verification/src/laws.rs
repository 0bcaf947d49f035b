//! What holds of every registry, whatever is registered and whatever is typed.

use crate::command::{is_folded, lemma_folded_alias, CommandView};
use crate::model::{
    entry, events_of, help_text, is_help_word, last_named, lemma_last_aliased, lemma_last_named,
    listing, lookup, questions_of, resolve, Event, Question, Resolution,
};
use crate::text::{
    is_space, is_word, join, lemma_lowercase_idempotent, lemma_lowercase_word,
    lemma_tokens_after_word, lemma_tokens_are_words, lemma_tokens_blank, lemma_tokens_join,
    lemma_unspaced_run, lemma_word_len_bounds, lemma_word_len_free, lemma_word_len_stops,
    lowercase, tokens, unspaced, word_len,
};
use vstd::prelude::*;

verus! {

/// Whether every one of `words` is a word.
pub open spec fn all_words(words: Seq<Seq<char>>) -> bool {
    forall|k: int| 0 <= k < words.len() ==> is_word(#[trigger] words[k])
}

/// A line of a word and arguments, a single blank between each two, splits into that
/// word and those arguments.
pub proof fn lemma_line_of(word: Seq<char>, args: Seq<Seq<char>>)
    requires
        is_word(word),
        all_words(args),
    ensures
        tokens(join(seq![word] + args)) == seq![word] + args,
        tokens(join(seq![word] + args))[0] == word,
        tokens(join(seq![word] + args)).skip(1) == args,
{
    let words = seq![word] + args;
    assert forall|k: int| 0 <= k < words.len() implies is_word(#[trigger] words[k]) by {
        if k > 0 {
            assert(words[k] == args[k - 1]);
        }
    }
    lemma_tokens_join(words);
    assert(words.skip(1) == args);
}

/// Where two texts meet at white space, or one of them is empty, the words of both
/// together are the words of the first, then those of the second.
pub proof fn law_words_of_texts_that_meet_at_space(a: Seq<char>, b: Seq<char>)
    requires
        a.len() == 0 || b.len() == 0 || is_space(a.last()) || is_space(b[0]),
    ensures
        tokens(a + b) == tokens(a) + tokens(b),
    decreases a.len(),
{
    if a.len() == 0 {
        assert(a + b == b);
        assert(tokens(a) + tokens(b) == tokens(b));
    } else if is_space(a[0]) {
        let rest = a.drop_first();
        assert((a + b).drop_first() == rest + b);
        if rest.len() > 0 {
            assert(rest.last() == a.last());
        }
        law_words_of_texts_that_meet_at_space(rest, b);
    } else {
        lemma_word_len_bounds(a);
        lemma_word_len_free(a);
        let n = word_len(a) as int;
        let word = a.take(n);
        let rest = a.skip(n);
        assert forall|j: int| 0 <= j < word.len() implies !is_space(#[trigger] word[j]) by {
            assert(word[j] == a[j]);
        }
        assert(a == word + rest);
        assert(a + b == word + (rest + b));
        if n < a.len() {
            lemma_word_len_stops(a);
            assert(rest[0] == a[n]);
            assert((rest + b)[0] == rest[0]);
            assert(rest.last() == a.last());
            law_words_of_texts_that_meet_at_space(rest, b);
            lemma_tokens_after_word(word, rest + b);
            assert(tokens(a) + tokens(b) == seq![word] + (tokens(rest) + tokens(b)));
        } else {
            assert(rest + b == b);
            assert(a.last() == word[n - 1]);
            lemma_tokens_after_word(word, b);
            assert(tokens(rest) == Seq::<Seq<char>>::empty());
            assert(tokens(a) + tokens(b) == seq![word] + tokens(b));
        }
    }
}

/// The words of a line, one after the other, are the line without its white space:
/// splitting drops white space and nothing else, and keeps the order.
pub proof fn law_words_keep_characters(s: Seq<char>)
    ensures
        tokens(s).flatten() == unspaced(s),
    decreases s.len(),
{
    let keep = |c: char| !is_space(c);
    if s.len() == 0 {
        reveal(Seq::filter);
    } else if is_space(s[0]) {
        let rest = s.drop_first();
        law_words_keep_characters(rest);
        assert(s == seq![s[0]] + rest);
        Seq::filter_distributes_over_add(seq![s[0]], rest, keep);
        assert(seq![s[0]].filter(keep) == Seq::<char>::empty()) by {
            reveal_with_fuel(Seq::filter, 2);
            assert(seq![s[0]].drop_last() == Seq::<char>::empty());
        }
        assert(tokens(s) == tokens(rest));
    } else {
        lemma_word_len_bounds(s);
        lemma_word_len_free(s);
        let n = word_len(s) as int;
        let word = s.take(n);
        let rest = s.skip(n);
        law_words_keep_characters(rest);
        assert(s == word + rest);
        Seq::filter_distributes_over_add(word, rest, keep);
        assert forall|i: int| 0 <= i < word.len() implies !is_space(#[trigger] word[i]) by {
            assert(word[i] == s[i]);
        }
        lemma_unspaced_run(word);
        assert(tokens(s) == seq![word] + tokens(rest));
        assert((seq![word] + tokens(rest)).first() == word);
        assert((seq![word] + tokens(rest)).drop_first() == tokens(rest));
    }
}

/// The name of a command, followed by arguments, runs it on exactly those arguments, in
/// their order and as they were typed. This holds of the command that is the last of
/// its name: an earlier one of the same name is never found.
pub proof fn law_name_runs_command(
    commands: Seq<CommandView>,
    help_enabled: bool,
    i: int,
    args: Seq<Seq<char>>,
)
    requires
        0 <= i < commands.len(),
        is_folded(commands[i]),
        is_word(commands[i].name),
        forall|j: int| i < j < commands.len() ==> (#[trigger] commands[j]).name != commands[i].name,
        all_words(args),
    ensures
        resolve(commands, help_enabled, join(seq![commands[i].name] + args)) == (Resolution::Run {
            index: i,
            args,
        }),
{
    lemma_line_of(commands[i].name, args);
    lemma_last_named(commands, commands[i].name);
}

/// The case of the first word of a line matters only to how an unknown word is
/// reported: in every other way the line does what it does with that word in lower
/// case.
pub proof fn law_case_of_first_word_is_ignored(
    commands: Seq<CommandView>,
    help_enabled: bool,
    typed: Seq<char>,
    args: Seq<Seq<char>>,
)
    requires
        is_word(typed),
        all_words(args),
    ensures
        (match resolve(commands, help_enabled, join(seq![lowercase(typed)] + args)) {
            Resolution::Unknown { word } => resolve(
                commands,
                help_enabled,
                join(seq![typed] + args),
            ) == (Resolution::Unknown { word: typed }),
            folded => resolve(commands, help_enabled, join(seq![typed] + args)) == folded,
        }),
{
    lemma_lowercase_word(typed);
    lemma_line_of(typed, args);
    lemma_line_of(lowercase(typed), args);
    lemma_lowercase_idempotent(typed);
}

/// The arguments that a command is run on are words: none is empty, none holds white
/// space.
pub proof fn law_arguments_are_words(
    commands: Seq<CommandView>,
    help_enabled: bool,
    line: Seq<char>,
)
    ensures
        (resolve(commands, help_enabled, line) matches Resolution::Run { index, args } ==> {
            &&& lookup(commands, lowercase(tokens(line)[0])) == Some(index)
            &&& 0 <= index < commands.len()
            &&& all_words(args)
        }),
{
    lemma_tokens_are_words(line);
    let words = tokens(line);
    if words.len() > 0 {
        lemma_last_named(commands, lowercase(words[0]));
        lemma_last_aliased(commands, lowercase(words[0]));
        assert forall|k: int| 0 <= k < words.skip(1).len() implies is_word(
            #[trigger] words.skip(1)[k],
        ) by {
            assert(words.skip(1)[k] == words[k + 1]);
        }
    }
}

/// An alias, followed by arguments, does what the name of its command does when it is
/// followed by them. This holds where the alias and the name both lead to that
/// command: a word that is the name of any command, or an alias of a later one, leads
/// there instead, as the name of a later command does.
pub proof fn law_alias_runs_like_name(
    commands: Seq<CommandView>,
    help_enabled: bool,
    i: int,
    alias: Seq<char>,
    args: Seq<Seq<char>>,
)
    requires
        0 <= i < commands.len(),
        is_folded(commands[i]),
        commands[i].aliases.contains(alias),
        is_word(alias),
        is_word(commands[i].name),
        lookup(commands, alias) == Some(i),
        lookup(commands, commands[i].name) == Some(i),
        all_words(args),
    ensures
        resolve(commands, help_enabled, join(seq![alias] + args)) == resolve(
            commands,
            help_enabled,
            join(seq![commands[i].name] + args),
        ),
        resolve(commands, help_enabled, join(seq![alias] + args)) == (Resolution::Run {
            index: i,
            args,
        }),
{
    lemma_folded_alias(commands[i], alias);
    lemma_line_of(alias, args);
    lemma_line_of(commands[i].name, args);
}

/// Of two commands registered one after the other with the same alias, the later one
/// answers to it. This holds where no command is called like the alias: a name goes
/// before every alias.
pub proof fn law_later_alias_wins(
    commands: Seq<CommandView>,
    first: CommandView,
    second: CommandView,
    alias: Seq<char>,
)
    requires
        first.aliases.contains(alias),
        second.aliases.contains(alias),
        first.name != alias,
        second.name != alias,
        forall|j: int| 0 <= j < commands.len() ==> (#[trigger] commands[j]).name != alias,
    ensures
        lookup(commands.push(first).push(second), alias) == Some(commands.len() as int + 1),
{
    let all = commands.push(first).push(second);
    lemma_last_named(all, alias);
    match last_named(all, alias) {
        Some(k) => {
            if k < commands.len() {
                assert(all[k] == commands[k]);
            }
        },
        None => {},
    }
    assert(all.last() == second);
}

/// The command that answers to a word is the last to claim it: no later command has it
/// as its name, and where it is found by an alias, no command at all is called so and
/// no later one has the alias.
pub proof fn law_lookup_finds_last_claim(commands: Seq<CommandView>, word: Seq<char>)
    ensures
        (match lookup(commands, word) {
            Some(i) => {
                &&& 0 <= i < commands.len()
                &&& commands[i].name == word || commands[i].aliases.contains(word)
                &&& forall|j: int| i < j < commands.len() ==> (#[trigger] commands[j]).name != word
                &&& commands[i].name != word ==> forall|j: int|
                    0 <= j < commands.len() ==> (#[trigger] commands[j]).name != word
                &&& commands[i].name != word ==> forall|j: int|
                    i < j < commands.len() ==> !(#[trigger] commands[j]).aliases.contains(word)
            },
            None => forall|j: int|
                0 <= j < commands.len() ==> (#[trigger] commands[j]).name != word
                    && !commands[j].aliases.contains(word),
        }),
{
    lemma_last_named(commands, word);
    lemma_last_aliased(commands, word);
}

/// A line that is empty or all white space leads to no command and to no help: no
/// handler is called for it, and the policy is asked once what to say of an empty line.
pub proof fn law_blank_line_runs_nothing(
    commands: Seq<CommandView>,
    help_enabled: bool,
    line: Seq<char>,
)
    requires
        forall|i: int| 0 <= i < line.len() ==> is_space(#[trigger] line[i]),
    ensures
        resolve(commands, help_enabled, line) == Resolution::Blank,
        events_of(resolve(commands, help_enabled, line)) == Seq::<Event>::empty(),
        questions_of(resolve(commands, help_enabled, line)) == seq![Question::Empty],
{
    lemma_tokens_blank(line);
}

/// A line with a word on it never counts as blank.
pub proof fn law_line_with_word_is_not_blank(
    commands: Seq<CommandView>,
    help_enabled: bool,
    line: Seq<char>,
)
    requires
        exists|i: int| 0 <= i < line.len() && !is_space(#[trigger] line[i]),
    ensures
        !(resolve(commands, help_enabled, line) is Blank),
{
    lemma_tokens_blank(line);
}

/// A first word that no command answers to, and that does not call for the built-in
/// help or finds it switched off, is reported as unknown: no handler is called, and the
/// policy is asked once what to say of the word, as it was typed.
pub proof fn law_unknown_word_is_reported(
    commands: Seq<CommandView>,
    help_enabled: bool,
    word: Seq<char>,
    args: Seq<Seq<char>>,
)
    requires
        is_word(word),
        all_words(args),
        lookup(commands, lowercase(word)) is None,
        !(help_enabled && is_help_word(lowercase(word))),
    ensures
        resolve(commands, help_enabled, join(seq![word] + args)) == (Resolution::Unknown { word }),
        events_of(resolve(commands, help_enabled, join(seq![word] + args)))
            == Seq::<Event>::empty(),
        questions_of(resolve(commands, help_enabled, join(seq![word] + args))) == seq![
            Question::Unknown(word),
        ],
{
    lemma_line_of(word, args);
}

/// The listing of two runs of commands is the listing of the first, then that of the
/// second.
pub proof fn lemma_listing_add(a: Seq<CommandView>, b: Seq<CommandView>)
    ensures
        listing(a + b) == listing(a) + listing(b),
    decreases b.len(),
{
    if b.len() == 0 {
        assert(a + b == a);
    } else {
        lemma_listing_add(a, b.drop_last());
        assert((a + b).drop_last() == a + b.drop_last());
        assert((a + b).last() == b.last());
    }
}

/// The help for no argument holds the entry of every command, with its name and its
/// help text, between the entries of the commands registered before it and those of
/// the commands registered after it.
pub proof fn law_listing_holds_every_entry(commands: Seq<CommandView>, i: int)
    requires
        0 <= i < commands.len(),
    ensures
        help_text(commands, Seq::empty()) == Some(listing(commands)),
        listing(commands) == listing(commands.take(i)) + entry(commands[i]) + listing(
            commands.skip(i + 1),
        ),
        entry(commands[i]) == commands[i].name + seq!['\n'] + commands[i].help + seq!['\n', '\n'],
{
    let one = seq![commands[i]];
    assert(commands == commands.take(i) + one + commands.skip(i + 1));
    lemma_listing_add(commands.take(i) + one, commands.skip(i + 1));
    lemma_listing_add(commands.take(i), one);
    assert(one.drop_last() == Seq::<CommandView>::empty());
    assert(listing(one) == entry(commands[i])) by {
        assert(listing(one.drop_last()) == Seq::<char>::empty());
        assert(one.last() == commands[i]);
    }
}

/// A command registered after others stands at the end of the help for no argument,
/// which shows the commands that are registered when it is asked.
pub proof fn law_listing_follows_registration(commands: Seq<CommandView>, added: CommandView)
    ensures
        help_text(commands.push(added), Seq::empty()) == Some(listing(commands) + entry(added)),
{
    assert(commands.push(added).drop_last() == commands);
}

/// The help for an alias is the help for the name of its command. This holds where the
/// alias and the name both lead to that command, as in `law_alias_runs_like_name`.
pub proof fn law_help_for_alias_is_help_for_name(
    commands: Seq<CommandView>,
    i: int,
    alias: Seq<char>,
)
    requires
        0 <= i < commands.len(),
        commands[i].aliases.contains(alias),
        lookup(commands, alias) == Some(i),
        lookup(commands, commands[i].name) == Some(i),
    ensures
        help_text(commands, seq![alias]) == help_text(commands, seq![commands[i].name]),
        help_text(commands, seq![alias]) == Some(entry(commands[i])),
{
}

/// Help for a word that no command answers to shows nothing, and where it is asked by
/// a line, the line still counts as taken: it runs no command and is not reported as
/// unknown.
pub proof fn law_help_for_unknown_is_silent(
    commands: Seq<CommandView>,
    trigger: Seq<char>,
    asked: Seq<char>,
)
    requires
        is_word(trigger),
        is_word(asked),
        is_help_word(lowercase(trigger)),
        lookup(commands, lowercase(trigger)) is None,
        lookup(commands, asked) is None,
    ensures
        help_text(commands, seq![asked]) is None,
        resolve(commands, true, join(seq![trigger, asked])) == (Resolution::Help { text: None }),
{
    assert(all_words(seq![asked]));
    lemma_line_of(trigger, seq![asked]);
    assert(seq![trigger] + seq![asked] == seq![trigger, asked]);
}

/// Help looks its argument up as it is given: where the names and aliases are kept in
/// lower case, an argument with a capital `A` to `Z` finds no command and shows nothing.
pub proof fn law_help_takes_its_argument_as_given(commands: Seq<CommandView>, asked: Seq<char>)
    requires
        forall|i: int| 0 <= i < commands.len() ==> is_folded(#[trigger] commands[i]),
        lowercase(asked) != asked,
    ensures
        lookup(commands, asked) is None,
        help_text(commands, seq![asked]) is None,
{
    lemma_last_named(commands, asked);
    lemma_last_aliased(commands, asked);
    match lookup(commands, asked) {
        Some(i) => {
            assert(is_folded(commands[i]));
            if commands[i].name != asked {
                lemma_folded_alias(commands[i], asked);
            }
        },
        None => {},
    }
}

/// A command registered under the name of the built-in help answers in its place.
pub proof fn law_command_goes_before_help(
    commands: Seq<CommandView>,
    help_enabled: bool,
    word: Seq<char>,
    args: Seq<Seq<char>>,
)
    requires
        is_word(word),
        all_words(args),
        is_help_word(lowercase(word)),
        lookup(commands, lowercase(word)) is Some,
    ensures
        resolve(commands, help_enabled, join(seq![word] + args)) == (Resolution::Run {
            index: lookup(commands, lowercase(word))->0,
            args,
        }),
{
    lemma_line_of(word, args);
}

} // verus!
