use typed_commands::args::{argument_number_of, Args, PromptEvent, Shellwords, Word};
use typed_commands::command::{
    command, find_command, typable_command_list, CommandSignature, Completer, Fun, COMMANDS,
};
use typed_commands::plan::Next;
use typed_commands::prompt::{
    complete, completion_input, completion_names, completion_start, name_to_look_up, next_move,
    play_macro, respond, Completion, Custom, Move,
};
use typed_commands::variable::contains_arg_variable;

fn args(raw: &str) -> Args {
    let mut words = Vec::new();
    let mut rest = raw.trim_start();
    while !rest.is_empty() {
        let end = rest.find(' ').unwrap_or(rest.len());
        let text = &rest[..end];
        rest = rest[end..].trim_start();
        words.push(Word {
            text: text.to_string(),
            tail: rest.to_string(),
            path: text.split('/').map(|part| part.to_string()).collect(),
        });
    }
    Args { raw: raw.trim_start().to_string(), words, taken: 0 }
}

fn line(input: &str) -> Shellwords {
    let (command, raw) = match input.find(' ') {
        Some(at) => (&input[..at], &input[at + 1..]),
        None => (input, ""),
    };
    Shellwords {
        input: input.to_string(),
        command: command.to_string(),
        args: args(raw),
        ends_with_whitespace: input.ends_with(' '),
    }
}

const REFUSED: &str =
    "Input arguments cannot contain a positional argument variable: `%{arg[:INT]}`";

fn custom(lines: &[&str]) -> Custom {
    Custom { lines: lines.iter().map(|l| line(l)).collect(), completer: None }
}

fn run(fun: Fun, raw: &str) -> Move<String, Args> {
    Move::Run { fun, args: args(raw) }
}

fn error(text: &str) -> Move<String, Args> {
    Move::SetError(text.to_string())
}

#[test]
fn test_argument_number_of() {
    let cases = vec![
        ("set-option", 0),
        ("set-option ", 0),
        ("set-option a", 0),
        ("set-option asdf", 0),
        ("set-option asdf ", 1),
        ("set-option asdf xyz", 1),
        ("set-option asdf xyz abc", 2),
        ("set-option asdf xyz abc ", 3),
    ];

    for case in cases {
        assert_eq!(case.1, argument_number_of(&line(case.0)));
    }
}

#[test]
fn should_indicate_if_command_contained_arg_variable() {
    assert!(!contains_arg_variable("write --force"));

    // Must provide digit
    assert!(!contains_arg_variable("write --force %{arg:}"));

    // Muts have `:` before digits can be added
    assert!(!contains_arg_variable("write --force %{arg122444}"));

    // Must have closing bracket
    assert!(!contains_arg_variable("write --force %{arg"));
    assert!(!contains_arg_variable("write --force %{arg:1"));

    // Has valid variable
    assert!(contains_arg_variable("write --force %{arg}"));
    assert!(contains_arg_variable("write --force %{arg:1083472348978}"));
}

#[test]
fn variables_are_found_behind_other_text() {
    assert!(contains_arg_variable("%{arg}"));
    assert!(contains_arg_variable("% { %{arg:0}"));
    assert!(!contains_arg_variable(""));
    assert!(!contains_arg_variable("%"));
    assert!(!contains_arg_variable("%{"));
    assert!(!contains_arg_variable("%{other}"));
    assert!(contains_arg_variable("\u{e4} %{arg}"));
    assert!(contains_arg_variable("%{x}%{arg}"));
    assert!(contains_arg_variable("%{a} %{arg}"));
    assert!(contains_arg_variable("%{arg:%{arg:7}"));
    assert!(contains_arg_variable("%%{arg}"));
    assert!(!contains_arg_variable("%{arg:1a}"));
    assert!(!contains_arg_variable("%{ arg}"));
}

#[test]
fn arguments_are_taken_in_turn() {
    let mut given = args("one two  three");
    assert_eq!(given.arg_count(), 3);
    assert_eq!(given.rest(), "one two  three");
    assert_eq!(given.next(), Some("one".to_string()));
    assert_eq!(given.rest(), "two  three");
    assert_eq!(given.remaining(), vec!["two".to_string(), "three".to_string()]);
    assert_eq!(given.copy(), given);
    assert_eq!(given.next(), Some("two".to_string()));
    assert_eq!(given.next(), Some("three".to_string()));
    assert_eq!(given.next(), None);
    assert_eq!(given.arg_count(), 3);
    assert!(!given.is_empty());
    assert!(Args::empty().is_empty());
    assert_eq!(Args::single("7").raw(), "7");
}

#[test]
fn every_name_finds_its_command() {
    let list = typable_command_list(false);
    assert_eq!(list.len(), COMMANDS);
    for known in list {
        assert_eq!(find_command(known.name), Some(known.fun));
        for alias in &known.aliases {
            assert_eq!(find_command(alias), Some(known.fun));
        }
    }
    assert_eq!(find_command("wq!"), Some(Fun::ForceWriteQuit));
    assert_eq!(find_command("ts-subtree"), Some(Fun::TreeSitterSubtree));
    assert_eq!(find_command(""), None);
    assert_eq!(find_command("Quit"), None);
    assert_eq!(find_command("quitt"), None);
}

#[test]
fn commands_are_described() {
    let quit = command(Fun::Quit, false);
    assert_eq!(quit.name, "quit");
    assert_eq!(quit.aliases, vec!["q"]);
    assert_eq!(quit.doc, "Close the current view.");
    assert_eq!(quit.signature, CommandSignature::none());
    assert_eq!(
        command(Fun::SetLineEnding, false).doc,
        "Set the document's default line ending. Options: crlf, lf."
    );
    assert_eq!(
        command(Fun::SetLineEnding, true).doc,
        "Set the document's default line ending. Options: crlf, lf, cr, ff, nel."
    );
}

#[test]
fn arguments_have_completers() {
    let set = command(Fun::SetOption, false);
    assert_eq!(*set.completer_for_argument_number(0), Completer::Setting);
    assert_eq!(*set.completer_for_argument_number(1), Completer::Nothing);
    let open = command(Fun::Open, false);
    assert_eq!(*open.completer_for_argument_number(0), Completer::Filename);
    assert_eq!(*open.completer_for_argument_number(5), Completer::Filename);
    let quit = command(Fun::Quit, false);
    assert_eq!(*quit.completer_for_argument_number(0), Completer::Nothing);
    assert_eq!(open.signature, CommandSignature::all(Completer::Filename));
    assert_eq!(set.signature, CommandSignature::positional(vec![Completer::Setting]));
}

#[test]
fn an_empty_line_does_nothing() {
    assert_eq!(respond(&line(""), PromptEvent::Validate, None, &vec![]), vec![]);
}

#[test]
fn a_number_goes_to_a_line() {
    for event in [PromptEvent::Update, PromptEvent::Validate, PromptEvent::Abort] {
        assert_eq!(
            respond(&line("12 ignored"), event, Some(&custom(&["quit"])), &vec![]),
            vec![Move::Run { fun: Fun::GotoLineNumber, args: Args::single("12") }]
        );
    }
}

#[test]
fn a_name_runs_its_command() {
    for event in [PromptEvent::Update, PromptEvent::Validate, PromptEvent::Abort] {
        assert_eq!(
            respond(&line("w some/path.txt"), event, None, &vec![]),
            vec![run(Fun::Write, "some/path.txt")]
        );
        assert_eq!(
            respond(&line("^^w some/path.txt"), event, None, &vec![]),
            vec![run(Fun::Write, "some/path.txt")]
        );
    }
}

#[test]
fn unknown_commands_are_named_when_escaped() {
    assert_eq!(respond(&line("nothing"), PromptEvent::Validate, None, &vec![]), vec![]);
    assert_eq!(respond(&line("^nothing"), PromptEvent::Update, None, &vec![]), vec![]);
    assert_eq!(
        respond(&line("^nothing"), PromptEvent::Validate, None, &vec![]),
        vec![error("no such command: 'nothing'")]
    );
}

#[test]
fn configured_commands_come_first() {
    let ww = custom(&["write --force"]);
    assert_eq!(
        respond(&line("quit a b"), PromptEvent::Validate, Some(&ww), &vec![]),
        vec![run(Fun::Write, "--force")]
    );
    assert_eq!(
        respond(&line("^quit a b"), PromptEvent::Validate, Some(&ww), &vec![]),
        vec![run(Fun::Quit, "a b")]
    );
}

#[test]
fn configured_commands_take_typed_arguments_where_they_ask_for_them() {
    let ww = custom(&["write %{arg}", "reload"]);
    assert_eq!(
        respond(&line("ww a b"), PromptEvent::Validate, Some(&ww), &vec![]),
        vec![run(Fun::Write, "a b"), run(Fun::Reload, "")]
    );
}

#[test]
fn configured_commands_run_other_commands_and_keys() {
    let all = custom(&["goto_last_line", "@ihello<esc>", "missing x", "quit"]);
    let statics = vec!["move_char_left".to_string(), "goto_last_line".to_string()];
    let first = Move::RunStatic("goto_last_line".to_string());
    let second =
        Move::PlayMacro { line: "@ihello<esc>".to_string(), keys: "ihello<esc>".to_string() };
    assert_eq!(
        respond(&line("all"), PromptEvent::Validate, Some(&all), &statics),
        vec![first, second, error("no such command: 'missing x'")]
    );
    let moves = respond(&line("all"), PromptEvent::Update, Some(&all), &statics);
    assert_eq!(moves.len(), 3);
    assert_eq!(moves[2], run(Fun::Quit, ""));
}

#[test]
fn typed_variables_are_refused() {
    let ww = custom(&["write %{arg}"]);
    for event in [PromptEvent::Update, PromptEvent::Validate, PromptEvent::Abort] {
        let moves = respond(&line("open %{arg}"), event, None, &vec![]);
        assert_eq!(moves, vec![error(REFUSED)]);
        let moves = respond(&line("ww a %{arg:2}"), event, Some(&ww), &vec![]);
        assert_eq!(moves, vec![error(REFUSED)]);
        let moves = respond(&line("^open %{x}%{arg}"), event, Some(&ww), &vec![]);
        assert_eq!(moves, vec![error(REFUSED)]);
    }
}

#[test]
fn macros_are_played_unless_they_are_playing() {
    assert_eq!(play_macro("@x", None, false), None);
    assert_eq!(
        play_macro("@x", None, true),
        Some(
            "Cannot execute macro because the [@] register is already playing a macro".to_string()
        )
    );
    assert_eq!(
        play_macro("@<", Some("Unbalanced <".to_string()), true),
        Some("failed to parse macro `@<`: Unbalanced <".to_string())
    );
}

#[test]
fn escapes_are_dropped_for_lookup_and_completion() {
    assert_eq!(name_to_look_up("^^quit^"), "quit^");
    assert_eq!(name_to_look_up("quit"), "quit");
    assert_eq!(completion_input("^write x"), "write x");
}

#[test]
fn command_names_are_completed() {
    let names = completion_names(&vec!["ww".to_string()]);
    assert_eq!(names.len(), COMMANDS + 1);
    assert_eq!(names[0], "quit");
    assert_eq!(names[COMMANDS - 1], "read");
    assert_eq!(names[COMMANDS], "ww");
    assert_eq!(
        complete("wr", &line("wr"), None),
        Completion::CommandNames { pattern: "wr".to_string() }
    );
    assert_eq!(
        complete("", &line(""), None),
        Completion::CommandNames { pattern: String::new() }
    );
}

#[test]
fn arguments_are_completed() {
    assert_eq!(
        complete("^open a src/m\u{e4}", &line("open a src/m\u{e4}"), None),
        Completion::Argument {
            completer: Completer::Filename,
            word: "src/m\u{e4}".to_string(),
            offset: 8,
        }
    );
    assert_eq!(
        complete("set-option x ", &line("set-option x "), None),
        Completion::Argument { completer: Completer::Nothing, word: "x".to_string(), offset: 12 }
    );
    assert_eq!(
        complete("theme ", &line("theme "), None),
        Completion::Argument { completer: Completer::Theme, word: String::new(), offset: 6 }
    );
    assert_eq!(complete("missing x", &line("missing x"), None), Completion::Nothing);
    assert_eq!(completion_start(8, 4), 12);
}

#[test]
fn configured_commands_choose_their_completer() {
    let mut ww = custom(&["write %{arg}"]);
    assert_eq!(complete("ww x", &line("ww x"), Some(&ww)), Completion::Nothing);
    ww.completer = Some(":write".to_string());
    assert_eq!(
        complete("ww x", &line("ww x"), Some(&ww)),
        Completion::Argument { completer: Completer::Filename, word: "x".to_string(), offset: 3 }
    );
}

#[test]
fn commands_are_documented() {
    let said = |input: &str| typed_commands::prompt::document(&line(input), None, false);
    assert_eq!(
        said("open x"),
        Some("Open a file from disk into the current view.\nAliases: o, edit, e".to_string())
    );
    assert_eq!(said("sort"), Some("Sort ranges in selection.".to_string()));
    assert_eq!(said("missing"), None);
    assert_eq!(
        typed_commands::prompt::document(&line("open"), Some("Mine.".to_string()), false),
        Some("Mine.".to_string())
    );
}

#[test]
fn a_failing_line_is_the_last() {
    let all = custom(&["write", "reload %{arg}", "quit"]);
    let moves = respond(&line("all x"), PromptEvent::Validate, Some(&all), &vec![]);
    assert_eq!(next_move(&moves, 0, None), Next::Do(&run(Fun::Write, "")));
    assert_eq!(next_move(&moves, 1, None), Next::Do(&run(Fun::Reload, "x")));
    assert_eq!(
        next_move(&moves, 2, Some("gone".to_string())),
        Next::Failed("gone".to_string())
    );
    assert_eq!(next_move(&moves, 2, None), Next::Do(&run(Fun::Quit, "")));
    assert_eq!(next_move(&moves, 3, None), Next::Done);
}
