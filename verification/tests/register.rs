use command_shell::command::{Command, GenericCommand};
use command_shell::error_handler::NErrorHandler;
use command_shell::register::entry_of;
use command_shell::text::contains_text;
use command_shell::{CommandsRegister, Dispatch};
use std::cell::RefCell;
use std::rc::Rc;

type Calls = Rc<RefCell<Vec<(String, Vec<String>)>>>;

fn command(calls: &Calls, tag: &str, name: &str, aliases: &[&str], help: &str) -> GenericCommand {
    let sink = calls.clone();
    let tag = tag.to_string();
    GenericCommand::new(
        name.to_string(),
        aliases.iter().map(|a| a.to_string()).collect(),
        help.to_string(),
        move |args: Vec<&str>| {
            sink.borrow_mut().push((tag.clone(), args.iter().map(|a| a.to_string()).collect()));
        },
    )
}

fn calls() -> Calls {
    Rc::new(RefCell::new(Vec::new()))
}

fn call(tag: &str, args: &[&str]) -> (String, Vec<String>) {
    (tag.to_string(), args.iter().map(|a| a.to_string()).collect())
}

fn register_with(commands: Vec<GenericCommand>, help: bool) -> CommandsRegister<NErrorHandler> {
    let mut register = CommandsRegister::new(NErrorHandler::new(), help);
    for c in commands {
        register.register_command(c);
    }
    register
}

#[test]
fn empty_register_finds_nothing() {
    let mut register = CommandsRegister::new(NErrorHandler::new(), true);
    assert_eq!(register.find_command("greet"), None);
    assert!(register.get_command("greet").is_none());
}

#[test]
fn find_by_name_and_by_alias() {
    let log = calls();
    let register = register_with(
        vec![
            command(&log, "a", "alpha", &["a", "al"], "first"),
            command(&log, "b", "beta", &["b"], "second"),
        ],
        true,
    );
    assert_eq!(register.find_command("alpha"), Some(0));
    assert_eq!(register.find_command("al"), Some(0));
    assert_eq!(register.find_command("a"), Some(0));
    assert_eq!(register.find_command("beta"), Some(1));
    assert_eq!(register.find_command("b"), Some(1));
    assert_eq!(register.find_command("gamma"), None);
    assert_eq!(register.find_command(""), None);
}

#[test]
fn find_is_exact_about_case() {
    let log = calls();
    let register = register_with(vec![command(&log, "a", "alpha", &["a"], "first")], true);
    assert_eq!(register.find_command("Alpha"), None);
    assert_eq!(register.find_command("A"), None);
}

#[test]
fn later_alias_wins() {
    let log = calls();
    let mut register = register_with(
        vec![
            command(&log, "one", "first", &["x"], "one"),
            command(&log, "two", "second", &["x"], "two"),
        ],
        true,
    );
    assert_eq!(register.find_command("x"), Some(1));
    assert_eq!(register.get_command("x").unwrap().get_command_name(), "second");
}

#[test]
fn later_name_wins() {
    let log = calls();
    let mut register = register_with(
        vec![
            command(&log, "one", "same", &[], "one"),
            command(&log, "two", "same", &[], "two"),
        ],
        true,
    );
    assert_eq!(register.find_command("same"), Some(1));
    assert_eq!(register.get_command("same").unwrap().get_help(), "two");
}

#[test]
fn name_goes_before_alias_of_later_command() {
    let log = calls();
    let register = register_with(
        vec![
            command(&log, "one", "x", &[], "named x"),
            command(&log, "two", "other", &["x"], "aliased x"),
            command(&log, "three", "third", &["x"], "aliased x too"),
        ],
        true,
    );
    assert_eq!(register.find_command("x"), Some(0));
}

#[test]
fn name_goes_before_alias_of_earlier_command() {
    let log = calls();
    let register = register_with(
        vec![
            command(&log, "one", "other", &["x"], "aliased x"),
            command(&log, "two", "x", &[], "named x"),
        ],
        true,
    );
    assert_eq!(register.find_command("x"), Some(1));
}

#[test]
fn get_command_hands_out_the_command_itself() {
    let log = calls();
    let mut register = register_with(vec![command(&log, "a", "alpha", &["a"], "first")], true);
    register.get_command("a").unwrap().on_command(vec!["direct"]);
    assert_eq!(*log.borrow(), vec![call("a", &["direct"])]);
    assert_eq!(register.find_command("alpha"), Some(0));
}

#[test]
fn contains_text_finds_equal_words_only() {
    let words = vec!["g".to_string(), "hi".to_string()];
    assert!(contains_text(&words, "g"));
    assert!(contains_text(&words, "hi"));
    assert!(!contains_text(&words, "h"));
    assert!(!contains_text(&words, "G"));
    assert!(!contains_text(&[], "g"));
}

#[test]
fn name_with_arguments_runs_the_command() {
    let log = calls();
    let mut register = register_with(vec![command(&log, "n", "n", &[], "help")], true);
    let outcome = register.check_input("n arg1 arg2".to_string());
    assert!(matches!(outcome, Dispatch::Command(0)));
    assert!(outcome.handled());
    assert_eq!(*log.borrow(), vec![call("n", &["arg1", "arg2"])]);
}

#[test]
fn arguments_arrive_as_typed() {
    let log = calls();
    let mut register = register_with(vec![command(&log, "n", "show", &[], "help")], true);
    assert!(register.check_input("SHOW Arg1 ARG2 arg3".to_string()).handled());
    assert_eq!(*log.borrow(), vec![call("n", &["Arg1", "ARG2", "arg3"])]);
}

#[test]
fn runs_of_whitespace_separate_arguments() {
    let log = calls();
    let mut register = register_with(vec![command(&log, "n", "show", &[], "help")], true);
    assert!(register.check_input("  show \t a   b\n".to_string()).handled());
    assert_eq!(*log.borrow(), vec![call("n", &["a", "b"])]);
}

#[test]
fn alias_runs_like_name() {
    let log = calls();
    let mut register =
        register_with(vec![command(&log, "g", "greet", &["g", "hello"], "Say hello")], true);
    assert!(matches!(register.check_input("greet a b".to_string()), Dispatch::Command(0)));
    assert!(matches!(register.check_input("g a b".to_string()), Dispatch::Command(0)));
    assert!(matches!(register.check_input("hello a b".to_string()), Dispatch::Command(0)));
    assert!(matches!(register.check_input("g".to_string()), Dispatch::Command(0)));
    assert_eq!(
        *log.borrow(),
        vec![call("g", &["a", "b"]), call("g", &["a", "b"]), call("g", &["a", "b"]), call("g", &[])]
    );
}

#[test]
fn command_word_is_matched_in_any_case() {
    let log = calls();
    let mut register = register_with(vec![command(&log, "g", "Greet", &["G"], "Say hello")], true);
    assert!(register.check_input("GREET".to_string()).handled());
    assert!(register.check_input("greet".to_string()).handled());
    assert!(register.check_input("gReEt".to_string()).handled());
    assert!(register.check_input("G".to_string()).handled());
    assert!(register.check_input("g".to_string()).handled());
    assert_eq!(log.borrow().len(), 5);
}

#[test]
fn only_the_found_command_runs() {
    let log = calls();
    let mut register = register_with(
        vec![
            command(&log, "a", "alpha", &[], "first"),
            command(&log, "b", "beta", &[], "second"),
            command(&log, "c", "gamma", &[], "third"),
        ],
        true,
    );
    assert!(matches!(register.check_input("beta x".to_string()), Dispatch::Command(1)));
    assert_eq!(*log.borrow(), vec![call("b", &["x"])]);
}

#[test]
fn later_registration_runs_for_shared_alias() {
    let log = calls();
    let mut register = register_with(
        vec![
            command(&log, "one", "first", &["x"], "one"),
            command(&log, "two", "second", &["x"], "two"),
        ],
        true,
    );
    assert!(matches!(register.check_input("x".to_string()), Dispatch::Command(1)));
    assert_eq!(*log.borrow(), vec![call("two", &[])]);
}

#[test]
fn blank_line_runs_nothing() {
    let log = calls();
    let mut register = register_with(vec![command(&log, "a", "alpha", &[], "first")], true);
    for line in ["", " ", "\t\n", "   \r\n", "\u{3000}"] {
        let outcome = register.check_input(line.to_string());
        assert!(matches!(outcome, Dispatch::Blank), "for {:?}", line);
        assert!(!outcome.handled());
    }
    assert!(log.borrow().is_empty());
}

#[test]
fn unknown_word_is_handed_back() {
    let log = calls();
    let mut register = register_with(vec![command(&log, "a", "alpha", &["a"], "first")], true);
    let outcome = register.check_input("zzq".to_string());
    assert!(!outcome.handled());
    match outcome {
        Dispatch::Unknown(word) => assert_eq!(word, "zzq"),
        other => panic!("{:?}", other),
    }
    assert!(log.borrow().is_empty());
}

#[test]
fn unknown_word_is_handed_back_as_typed() {
    let mut register = CommandsRegister::new(NErrorHandler::new(), true);
    match register.check_input("  ZzQ rest of line".to_string()) {
        Dispatch::Unknown(word) => assert_eq!(word, "ZzQ"),
        other => panic!("{:?}", other),
    }
}

#[test]
fn help_triggers_answer_when_enabled() {
    let log = calls();
    let mut register = register_with(vec![command(&log, "a", "alpha", &[], "first")], true);
    for line in ["help", "h", "?", "HELP", "H", " help "] {
        match register.check_input(line.to_string()) {
            Dispatch::Help(Some(text)) => assert_eq!(text, "alpha\nfirst\n\n", "for {:?}", line),
            other => panic!("{:?} for {:?}", other, line),
        }
    }
    assert!(log.borrow().is_empty());
}

#[test]
fn help_triggers_are_unknown_when_disabled() {
    let log = calls();
    let mut register = register_with(vec![command(&log, "a", "alpha", &[], "first")], false);
    for line in ["help", "h", "?"] {
        match register.check_input(line.to_string()) {
            Dispatch::Unknown(word) => assert_eq!(word, line),
            other => panic!("{:?}", other),
        }
    }
}

#[test]
fn registered_help_goes_before_built_in_help() {
    let log = calls();
    let mut register = register_with(
        vec![
            command(&log, "mine", "help", &["?"], "my own help"),
            command(&log, "other", "other", &[], "other"),
        ],
        true,
    );
    assert!(matches!(register.check_input("help me".to_string()), Dispatch::Command(0)));
    assert!(matches!(register.check_input("?".to_string()), Dispatch::Command(0)));
    assert!(matches!(register.check_input("h".to_string()), Dispatch::Help(Some(_))));
    assert_eq!(*log.borrow(), vec![call("mine", &["me"]), call("mine", &[])]);
}

#[test]
fn is_help_command_knows_the_three_words() {
    assert!(CommandsRegister::<NErrorHandler>::is_help_command("help"));
    assert!(CommandsRegister::<NErrorHandler>::is_help_command("h"));
    assert!(CommandsRegister::<NErrorHandler>::is_help_command("?"));
    assert!(!CommandsRegister::<NErrorHandler>::is_help_command("Help"));
    assert!(!CommandsRegister::<NErrorHandler>::is_help_command("helpp"));
    assert!(!CommandsRegister::<NErrorHandler>::is_help_command("hel"));
    assert!(!CommandsRegister::<NErrorHandler>::is_help_command(""));
    assert!(!CommandsRegister::<NErrorHandler>::is_help_command("??"));
}

#[test]
fn help_without_argument_lists_in_registration_order() {
    let log = calls();
    let mut register = register_with(
        vec![
            command(&log, "b", "beta", &["b"], "The second letter\nof the alphabet"),
            command(&log, "a", "alpha", &[], "The first letter"),
            command(&log, "c", "gamma", &[], ""),
        ],
        true,
    );
    assert_eq!(
        register.help(&[]),
        Some(
            "beta\nThe second letter\nof the alphabet\n\nalpha\nThe first letter\n\ngamma\n\n\n"
                .to_string()
        )
    );
}

#[test]
fn help_of_empty_register_is_empty_text() {
    let mut register = CommandsRegister::new(NErrorHandler::new(), true);
    assert_eq!(register.help(&[]), Some(String::new()));
}

#[test]
fn help_shows_commands_registered_later() {
    let log = calls();
    let mut register = register_with(vec![command(&log, "a", "alpha", &[], "first")], true);
    assert_eq!(register.help(&[]), Some("alpha\nfirst\n\n".to_string()));
    register.register_command(command(&log, "b", "beta", &[], "second"));
    assert_eq!(register.help(&[]), Some("alpha\nfirst\n\nbeta\nsecond\n\n".to_string()));
    match register.check_input("help".to_string()) {
        Dispatch::Help(Some(text)) => assert_eq!(text, "alpha\nfirst\n\nbeta\nsecond\n\n"),
        other => panic!("{:?}", other),
    }
}

#[test]
fn help_for_one_command() {
    let log = calls();
    let mut register = register_with(
        vec![
            command(&log, "a", "alpha", &["a"], "first"),
            command(&log, "b", "beta", &["b"], "second"),
        ],
        true,
    );
    assert_eq!(register.help(&["beta"]), Some("beta\nsecond\n\n".to_string()));
    assert_eq!(register.help(&["alpha"]), Some("alpha\nfirst\n\n".to_string()));
}

#[test]
fn help_for_alias_equals_help_for_name() {
    let log = calls();
    let mut register =
        register_with(vec![command(&log, "g", "greet", &["g"], "Say hello")], true);
    assert_eq!(register.help(&["g"]), register.help(&["greet"]));
    assert_eq!(register.help(&["g"]), Some("greet\nSay hello\n\n".to_string()));
    let by_alias = register.check_input("help g".to_string());
    let by_name = register.check_input("help greet".to_string());
    match (by_alias, by_name) {
        (Dispatch::Help(a), Dispatch::Help(b)) => {
            assert_eq!(a, b);
            assert_eq!(a, Some("greet\nSay hello\n\n".to_string()));
        },
        other => panic!("{:?}", other),
    }
}

#[test]
fn help_looks_its_argument_up_as_given() {
    let log = calls();
    let mut register = register_with(vec![command(&log, "g", "greet", &["g"], "Say hello")], true);
    assert_eq!(register.help(&["GREET"]), None);
    assert_eq!(register.help(&["G"]), None);
    assert_eq!(register.help(&["Greet"]), None);
    assert_eq!(register.help(&["greet"]), Some("greet\nSay hello\n\n".to_string()));
    assert!(log.borrow().is_empty());
}

#[test]
fn help_on_a_line_looks_its_argument_up_as_typed() {
    let log = calls();
    let mut register = register_with(vec![command(&log, "g", "greet", &["g"], "Say hello")], true);
    assert!(matches!(register.check_input("help GREET".to_string()), Dispatch::Help(None)));
    assert!(matches!(register.check_input("HELP G".to_string()), Dispatch::Help(None)));
    match register.check_input("HELP g".to_string()) {
        Dispatch::Help(Some(text)) => assert_eq!(text, "greet\nSay hello\n\n"),
        other => panic!("{:?}", other),
    }
    assert!(log.borrow().is_empty());
}

#[test]
fn running_one_command_leaves_the_others_as_they_are() {
    let log = calls();
    let mut register = register_with(
        vec![
            command(&log, "a", "alpha", &["a"], "first"),
            command(&log, "b", "beta", &["b"], "second"),
        ],
        true,
    );
    assert!(matches!(register.check_input("alpha 1".to_string()), Dispatch::Command(0)));
    assert!(matches!(register.check_input("b 2".to_string()), Dispatch::Command(1)));
    assert!(matches!(register.check_input("a 3".to_string()), Dispatch::Command(0)));
    assert_eq!(*log.borrow(), vec![call("a", &["1"]), call("b", &["2"]), call("a", &["3"])]);
    assert_eq!(register.get_command("beta").unwrap().get_help(), "second");
    assert_eq!(register.get_command("alpha").unwrap().get_help(), "first");
}

#[test]
fn letters_beyond_a_to_z_are_not_folded() {
    let log = calls();
    let mut register = register_with(vec![command(&log, "n", "Ärger", &["ÉCHO"], "help")], true);
    assert_eq!(register.find_command("Ärger"), Some(0));
    assert_eq!(register.find_command("ärger"), None);
    assert_eq!(register.find_command("Écho"), Some(0));
    assert!(register.check_input("ÄRGER".to_string()).handled());
    assert!(!register.check_input("ärger".to_string()).handled());
}

#[test]
fn help_without_match_is_silent_but_handled() {
    let log = calls();
    let mut register =
        register_with(vec![command(&log, "g", "greet", &["g"], "Say hello")], true);
    assert_eq!(register.help(&["zzq"]), None);
    let outcome = register.check_input("help zzq".to_string());
    assert!(matches!(outcome, Dispatch::Help(None)));
    assert!(outcome.handled());
    assert!(log.borrow().is_empty());
}

#[test]
fn help_with_more_arguments_is_silent() {
    let log = calls();
    let mut register =
        register_with(vec![command(&log, "g", "greet", &["g"], "Say hello")], true);
    assert_eq!(register.help(&["greet", "g"]), None);
    assert_eq!(register.help(&["greet", "greet", "greet"]), None);
    let outcome = register.check_input("? greet g".to_string());
    assert!(matches!(outcome, Dispatch::Help(None)));
    assert!(outcome.handled());
}

#[test]
fn entry_of_is_name_then_help_then_empty_line() {
    let log = calls();
    assert_eq!(entry_of(&command(&log, "g", "greet", &["g"], "Say hello")), "greet\nSay hello\n\n");
    assert_eq!(entry_of(&command(&log, "g", "x", &[], "")), "x\n\n\n");
}

#[test]
fn start_and_end_leave_the_commands_as_they_are() {
    let log = calls();
    let mut register = register_with(
        vec![
            command(&log, "a", "alpha", &["a"], "first"),
            command(&log, "b", "beta", &["b"], "second"),
        ],
        true,
    );
    register.start();
    assert!(log.borrow().is_empty());
    assert_eq!(register.find_command("alpha"), Some(0));
    assert_eq!(register.find_command("b"), Some(1));
    assert!(register.check_input("alpha 1".to_string()).handled());
    register.end();
    assert_eq!(*log.borrow(), vec![call("a", &["1"])]);
    assert_eq!(register.help(&[]), Some("alpha\nfirst\n\nbeta\nsecond\n\n".to_string()));
}

#[test]
fn start_and_end_of_empty_register() {
    let mut register = CommandsRegister::new(NErrorHandler::new(), false);
    register.start();
    register.end();
    assert_eq!(register.find_command("x"), None);
}

#[test]
fn default_register_has_help_and_no_commands() {
    let mut register = CommandsRegister::<NErrorHandler>::default();
    assert_eq!(register.find_command("help"), None);
    assert!(matches!(register.check_input("help".to_string()), Dispatch::Help(Some(_))));
    assert_eq!(register.help(&[]), Some(String::new()));
}

#[test]
fn handled_tells_commands_and_help_from_the_rest() {
    assert!(Dispatch::Command(3).handled());
    assert!(Dispatch::Help(None).handled());
    assert!(Dispatch::Help(Some("x".to_string())).handled());
    assert!(!Dispatch::Blank.handled());
    assert!(!Dispatch::Unknown("x".to_string()).handled());
}
