//! Log lines: a label in the colour of its severity, then the message.

use colored::Colorize;
use vstd::prelude::*;
use vstd::string::StringExecFns;

verus! {

/// How grave a message is.
pub enum LogTypes {
    INFO,
    WARN,
    ERR,
}

/// The label that a line of this severity starts with.
pub open spec fn label(log_type: LogTypes) -> Seq<char> {
    match log_type {
        LogTypes::INFO => seq!['[', 'I', 'N', 'F', 'O', ']'],
        LogTypes::WARN => seq!['[', 'W', 'A', 'R', 'N', 'I', 'N', 'G', ']'],
        LogTypes::ERR => seq!['[', 'E', 'R', 'R', 'O', 'R', ']'],
    }
}

/// The number by which a terminal knows the colour of this severity: green for `INFO`,
/// yellow for `WARN`, red for `ERR`.
pub open spec fn colour_code(log_type: LogTypes) -> Seq<char> {
    match log_type {
        LogTypes::INFO => seq!['3', '2'],
        LogTypes::WARN => seq!['3', '3'],
        LogTypes::ERR => seq!['3', '1'],
    }
}

/// The sequence that tells a terminal to write in the colour `code` from here on.
pub open spec fn colour_on(code: Seq<char>) -> Seq<char> {
    seq!['\u{1b}', '['] + code + seq!['m']
}

/// The sequence that tells a terminal to go back to its own colour.
pub open spec fn colour_off() -> Seq<char> {
    seq!['\u{1b}', '[', '0', 'm']
}

/// Whether `out` is a way to write `text` in the colour `code`: with the colour switched
/// on before it and off after it, or bare where colours are switched off. The switch
/// is read once for each part, so where it turns in between, `text` may come with the
/// end alone.
pub open spec fn is_painted(text: Seq<char>, code: Seq<char>, out: Seq<char>) -> bool {
    ||| out == text
    ||| out == colour_on(code) + text + colour_off()
    ||| out == text + colour_off()
}

/// A log line: the label as it was painted, a space, and the message.
pub open spec fn log_line(painted: Seq<char>, message: Seq<char>) -> Seq<char> {
    painted + seq![' '] + message
}

/// Whether `line` is a log line of this severity for `message`, the label painted in
/// one of the ways that `is_painted` allows.
pub open spec fn is_log_line(log_type: LogTypes, message: Seq<char>, line: Seq<char>) -> bool {
    exists|painted: Seq<char>| #[trigger]
        is_painted(label(log_type), colour_code(log_type), painted) && line == log_line(
            painted,
            message,
        )
}

/// `Colorize::green` of `colored` on a `&str`, written out through the `Display` of the
/// `ColoredString` that it gives. Where `text` holds no escape character, the result
/// is `text` in green, in one of the ways that `is_painted` allows. Which of them it
/// is depends on whether the output is a terminal, on the variables `NO_COLOR`,
/// `CLICOLOR` and `CLICOLOR_FORCE`, and on the overrides of `colored::control`.
#[verifier::external_body]
fn green(text: &str) -> (out: String)
    ensures
        !text@.contains('\u{1b}') ==> is_painted(text@, seq!['3', '2'], out@),
{
    text.green().to_string()
}

/// `Colorize::yellow` of `colored` on a `&str`, written out through the `Display` of the
/// `ColoredString` that it gives. Where `text` holds no escape character, the result
/// is `text` in yellow, in one of the ways that `is_painted` allows. Which of them it
/// is depends on whether the output is a terminal, on the variables `NO_COLOR`,
/// `CLICOLOR` and `CLICOLOR_FORCE`, and on the overrides of `colored::control`.
#[verifier::external_body]
fn yellow(text: &str) -> (out: String)
    ensures
        !text@.contains('\u{1b}') ==> is_painted(text@, seq!['3', '3'], out@),
{
    text.yellow().to_string()
}

/// `Colorize::red` of `colored` on a `&str`, written out through the `Display` of the
/// `ColoredString` that it gives. Where `text` holds no escape character, the result
/// is `text` in red, in one of the ways that `is_painted` allows. Which of them it
/// is depends on whether the output is a terminal, on the variables `NO_COLOR`,
/// `CLICOLOR` and `CLICOLOR_FORCE`, and on the overrides of `colored::control`.
#[verifier::external_body]
fn red(text: &str) -> (out: String)
    ensures
        !text@.contains('\u{1b}') ==> is_painted(text@, seq!['3', '1'], out@),
{
    text.red().to_string()
}

/// The log line that starts with `painted`, a label as it came back from painting.
pub fn compose(painted: &str, message: &str) -> (line: String)
    ensures
        line@ == log_line(painted@, message@),
{
    let mut line = String::from_str(painted);
    line.push(' ');
    line.append(message);
    line
}

/// The line that reports `message` with the severity `log_type`.
pub fn log(log_type: LogTypes, message: String) -> (line: String)
    ensures
        is_log_line(log_type, message@, line@),
{
    let painted = match log_type {
        LogTypes::INFO => {
            proof {
                reveal_strlit("[INFO]");
            }
            assert("[INFO]"@ == label(log_type));
            green("[INFO]")
        },
        LogTypes::WARN => {
            proof {
                reveal_strlit("[WARNING]");
            }
            assert("[WARNING]"@ == label(log_type));
            yellow("[WARNING]")
        },
        LogTypes::ERR => {
            proof {
                reveal_strlit("[ERROR]");
            }
            assert("[ERROR]"@ == label(log_type));
            red("[ERROR]")
        },
    };
    assert(is_painted(label(log_type), colour_code(log_type), painted@));
    compose(painted.as_str(), message.as_str())
}

} // verus!
