//! The prompt at which commands are typed.
use vstd::prelude::*;

use crate::args;
use crate::args::{Args, ArgsView, PromptEvent, Shellwords};
use crate::command;
use crate::command::{Completer, Fun};
use crate::number;
use crate::plan;
use crate::plan::{Course, Next};
use crate::text;
use crate::variable;

verus! {

/// A command that the user has configured.
#[derive(Debug, PartialEq, Eq)]
pub struct Custom {
    /// What it runs, line by line.
    pub lines: Vec<Shellwords>,
    /// The command as whose arguments its arguments are completed.
    pub completer: Option<String>,
}

/// A line, as a mathematical value.
#[verifier::ext_equal]
pub struct LineView {
    /// The line as it was typed.
    pub input: Seq<char>,
    /// The word that names the command.
    pub command: Seq<char>,
    /// The arguments.
    pub args: ArgsView,
}

/// A line, as a mathematical value.
pub open spec fn line_view(line: Shellwords) -> LineView {
    LineView { input: line.input@, command: line.command@, args: line.args@ }
}

/// The views of lines.
pub open spec fn line_views(lines: Seq<Shellwords>) -> Seq<LineView> {
    lines.map_values(|line: Shellwords| line_view(line))
}

/// Something that the prompt asks of the editor, after which `next_move` says what comes next.
/// `S` stands for a text, `A` for arguments.
#[derive(Debug, PartialEq, Eq)]
pub enum Move<S, A> {
    /// Show an error message.
    SetError(S),
    /// Run a typed command, which may fail.
    Run { fun: Fun, args: A },
    /// Run a command that takes no arguments, by its name.
    RunStatic(S),
    /// Read keys; go on with `play_macro`, whose error is a failure.
    PlayMacro { line: S, keys: S },
}

/// Something that the prompt asks of the editor, as a mathematical value.
pub type MoveView = Move<Seq<char>, ArgsView>;

impl View for Move<String, Args> {
    type V = MoveView;

    open spec fn view(&self) -> MoveView {
        match *self {
            Move::SetError(s) => Move::SetError(s@),
            Move::Run { fun, args } => Move::Run { fun, args: args@ },
            Move::RunStatic(s) => Move::RunStatic(s@),
            Move::PlayMacro { line, keys } => Move::PlayMacro { line: line@, keys: keys@ },
        }
    }
}

/// The views of moves.
pub open spec fn move_views(moves: Seq<Move<String, Args>>) -> Seq<MoveView> {
    moves.map_values(|m: Move<String, Args>| m@)
}

/// Whether a text contains a positional argument variable.
pub open spec fn mentions_variable(text: Seq<char>) -> bool {
    variable::holds_variable(vstd::utf8::encode_utf8(text))
}

/// The error for a command that there is not.
pub open spec fn no_such_command(name: Seq<char>) -> Seq<char> {
    "no such command: '"@ + name + "'"@
}

fn no_such_command_error(name: &str) -> (r: Move<String, Args>)
    ensures
        r@ == (MoveView::SetError(no_such_command(name@))),
{
    let mut message = "no such command: '".to_owned();
    message.append(name);
    message.append("'");
    Move::SetError(message)
}

/// What one line of a configured command does, if anything: a typed command, a command without
/// arguments, or keys behind an at sign. A typed command takes the arguments that were typed,
/// where the line contains a positional argument variable, and else its own.
pub open spec fn line_move(
    line: LineView,
    typed: ArgsView,
    statics: Seq<Seq<char>>,
) -> Option<MoveView> {
    match command::command_called(line.command) {
        Some(fun) => Some(
            Move::Run {
                fun,
                args: if mentions_variable(line.input) {
                    typed
                } else {
                    line.args
                },
            },
        ),
        None => if statics.contains(line.command) {
            Some(Move::RunStatic(line.command))
        } else if line.input.len() > 0 && line.input[0] == '@' {
            Some(Move::PlayMacro { line: line.input, keys: line.input.skip(1) })
        } else {
            None
        },
    }
}

/// What the lines of a configured command do. When the input is confirmed, a line that does
/// nothing is an error and the last.
pub open spec fn custom_moves(
    lines: Seq<LineView>,
    typed: ArgsView,
    event: PromptEvent,
    statics: Seq<Seq<char>>,
) -> Seq<MoveView>
    decreases lines.len(),
{
    if lines.len() == 0 {
        Seq::empty()
    } else {
        let rest = custom_moves(lines.skip(1), typed, event, statics);
        match line_move(lines[0], typed, statics) {
            Some(first) => seq![first] + rest,
            None => if event is Validate {
                seq![Move::SetError(no_such_command(lines[0].input))]
            } else {
                rest
            },
        }
    }
}

/// The error for typed arguments that contain a positional argument variable.
pub open spec fn variable_error() -> MoveView {
    Move::SetError(
        "Input arguments cannot contain a positional argument variable: `%{arg[:INT]}`"@,
    )
}

/// Whether a command is escaped, so that no configured command is meant.
pub open spec fn is_escaped(command: Seq<char>) -> bool {
    command.len() > 0 && command[0] == '^'
}

/// The name that a command is looked up by.
pub open spec fn lookup_name(command: Seq<char>) -> Seq<char> {
    text::trimmed_start(command, '^')
}

/// What a typed line does. A number goes to a line. Arguments with a positional argument variable,
/// which is only meant for the configuration, are refused. A configured command comes before a
/// built-in one of the same name, unless it is escaped.
pub open spec fn reply(
    line: LineView,
    event: PromptEvent,
    custom: Option<Seq<LineView>>,
    statics: Seq<Seq<char>>,
) -> Seq<MoveView> {
    let name = lookup_name(line.command);
    if line.command.len() == 0 {
        Seq::empty()
    } else if number::unsigned(line.command, usize::MAX as nat) is Ok {
        seq![Move::Run { fun: Fun::GotoLineNumber, args: ArgsView::one(line.command) }]
    } else if mentions_variable(line.args.raw) {
        seq![variable_error()]
    } else if !is_escaped(line.command) && custom is Some {
        custom_moves(custom->0, line.args, event, statics)
    } else {
        match command::command_called(name) {
            Some(fun) => seq![Move::Run { fun, args: line.args }],
            None => if is_escaped(line.command) && event is Validate {
                seq![Move::SetError(no_such_command(name))]
            } else {
                Seq::empty()
            },
        }
    }
}

fn is_one_of(name: &str, names: &Vec<String>) -> (r: bool)
    ensures
        r == text::views(names@).contains(name@),
{
    let ghost all = text::views(names@);
    let mut i: usize = 0;
    while i < names.len()
        invariant
            all == text::views(names@),
            i <= names.len(),
            forall|j: int| 0 <= j < i ==> all[j] != name@,
        decreases names.len() - i,
    {
        assert(all[i as int] == names@[i as int]@);
        if text::same(names[i].as_str(), name) {
            return true;
        }
        i = i + 1;
    }
    false
}

fn move_of(line: &Shellwords, typed: &Args, statics: &Vec<String>) -> (r: Option<
    Move<String, Args>,
>)
    ensures
        match r {
            Some(m) => line_move(line_view(*line), typed@, text::views(statics@)) == Some(m@),
            None => line_move(line_view(*line), typed@, text::views(statics@)) is None,
        },
{
    if let Some(fun) = command::find_command(line.command.as_str()) {
        let args = if variable::contains_arg_variable(line.input.as_str()) {
            typed.copy()
        } else {
            line.args.copy()
        };
        return Some(Move::Run { fun, args });
    }
    if is_one_of(line.command.as_str(), statics) {
        return Some(Move::RunStatic(line.command.clone()));
    }
    let chars = text::chars_of(line.input.as_str());
    if chars.len() > 0 && chars[0] == '@' {
        let keys = text::range_text(&chars, 1, chars.len());
        assert(keys@ =~= line.input@.skip(1));
        return Some(Move::PlayMacro { line: line.input.clone(), keys });
    }
    None
}

fn moves_of(
    lines: &Vec<Shellwords>,
    typed: &Args,
    event: PromptEvent,
    statics: &Vec<String>,
) -> (r: Vec<Move<String, Args>>)
    ensures
        move_views(r@) == custom_moves(line_views(lines@), typed@, event, text::views(statics@)),
{
    let ghost all = line_views(lines@);
    let ghost names = text::views(statics@);
    let ghost whole = custom_moves(all, typed@, event, names);
    let mut moves: Vec<Move<String, Args>> = Vec::new();
    let mut i: usize = 0;
    assert(all.skip(0) =~= all);
    assert(move_views(moves@) + whole =~= whole);
    while i < lines.len()
        invariant
            all == line_views(lines@),
            names == text::views(statics@),
            whole == custom_moves(all, typed@, event, names),
            i <= lines.len(),
            move_views(moves@) + custom_moves(all.skip(i as int), typed@, event, names) == whole,
        decreases lines.len() - i,
    {
        let ghost before = move_views(moves@);
        let ghost rest = custom_moves(all.skip(i + 1), typed@, event, names);
        assert(all.skip(i as int).skip(1) =~= all.skip(i + 1));
        assert(all.skip(i as int)[0] == line_view(lines@[i as int]));
        match move_of(&lines[i], typed, statics) {
            Some(m) => {
                moves.push(m);
                assert(move_views(moves@) =~= before.push(m@));
                assert(before + (seq![m@] + rest) =~= before.push(m@) + rest);
            },
            None => {
                if event == PromptEvent::Validate {
                    let error = no_such_command_error(lines[i].input.as_str());
                    moves.push(error);
                    assert(move_views(moves@) =~= before + seq![error@]);
                    return moves;
                }
            },
        }
        i = i + 1;
    }
    assert(move_views(moves@) + Seq::<MoveView>::empty() =~= move_views(moves@));
    moves
}

/// The name by which a configured command is to be looked up, given the word that names the
/// command.
pub fn name_to_look_up(command: &str) -> (r: String)
    ensures
        r@ == lookup_name(command@),
{
    text::trim_start(command, '^')
}

/// The lines of a configured command, if there is one.
pub open spec fn custom_lines(custom: Option<&Custom>) -> Option<Seq<LineView>> {
    match custom {
        Some(custom) => Some(line_views(custom.lines@)),
        None => None,
    }
}

/// Says what a typed line does, given the configured command that was found for it, if one was,
/// and the names of the commands without arguments.
pub fn respond(
    words: &Shellwords,
    event: PromptEvent,
    custom: Option<&Custom>,
    statics: &Vec<String>,
) -> (r: Vec<Move<String, Args>>)
    ensures
        move_views(r@) == reply(
            line_view(*words),
            event,
            custom_lines(custom),
            text::views(statics@),
        ),
{
    let ghost expected = reply(
        line_view(*words),
        event,
        custom_lines(custom),
        text::views(statics@),
    );
    let command = words.command.as_str();
    let mut moves: Vec<Move<String, Args>> = Vec::new();
    if command.is_empty() {
        assert(move_views(moves@) =~= expected);
        return moves;
    }
    // A number goes to the line of that number.
    if number::parse_usize(command).is_ok() {
        moves.push(Move::Run { fun: Fun::GotoLineNumber, args: Args::single(command) });
        assert(move_views(moves@) =~= expected);
        return moves;
    }
    // Protects against arguments that are expanded again and again: positional arguments are only
    // meant for the configuration.
    if variable::contains_arg_variable(words.args.raw()) {
        moves.push(
            Move::SetError(
                "Input arguments cannot contain a positional argument variable: `%{arg[:INT]}`".to_owned(),
            ),
        );
        assert(move_views(moves@) =~= expected);
        return moves;
    }
    let escaped = text::starts_with(command, "^");
    proof {
        reveal_strlit("^");
        assert(escaped == is_escaped(command@)) by {
            if is_escaped(command@) {
                assert("^"@ =~= command@.subrange(0, 1));
            } else if escaped {
                assert(command@.subrange(0, 1)[0] == '^');
            }
        }
    }
    if !escaped {
        if let Some(custom) = custom {
            return moves_of(&custom.lines, &words.args, event, statics);
        }
    }
    let name = name_to_look_up(command);
    match command::find_command(name.as_str()) {
        Some(fun) => {
            moves.push(Move::Run { fun, args: words.args.copy() });
        },
        None => {
            if escaped && event == PromptEvent::Validate {
                moves.push(no_such_command_error(name.as_str()));
            }
        },
    }
    assert(move_views(moves@) =~= expected);
    moves
}

impl<'a> View for Next<&'a Move<String, Args>, String> {
    type V = Next<MoveView, Seq<char>>;

    open spec fn view(&self) -> Next<MoveView, Seq<char>> {
        match *self {
            Next::Do(m) => Next::Do(m@),
            Next::Failed(message) => Next::Failed(message@),
            Next::Done => Next::Done,
        }
    }
}

/// Says what comes next of the answer to a typed line when `done` moves have been made, given the
/// error with which the last of them failed, if it did. An error is to be shown, and ends it all.
pub fn next_move<'a>(
    moves: &'a Vec<Move<String, Args>>,
    done: usize,
    failure: Option<String>,
) -> (r: Next<&'a Move<String, Args>, String>)
    requires
        done <= moves.len(),
    ensures
        r@ == plan::next_of(move_views(moves@), None, done as nat, plan::maybe(failure)),
{
    match failure {
        Some(message) => Next::Failed(message),
        None => if done < moves.len() {
            Next::Do(&moves[done])
        } else {
            Next::Done
        },
    }
}

/// The course of the answer to a typed line, given the error with which each move would fail, if
/// it would.
pub open spec fn moves_course(
    moves: Seq<MoveView>,
    failures: spec_fn(nat) -> Option<Seq<char>>,
) -> Course {
    plan::course_from(moves, None, failures, 0)
}

/// The error that keeps keys from being played, if there is one.
pub open spec fn macro_error(
    line: Seq<char>,
    parse_error: Option<Seq<char>>,
    replaying: bool,
) -> Option<Seq<char>> {
    match parse_error {
        Some(error) => Some("failed to parse macro `"@ + line + "`: "@ + error),
        None => if replaying {
            Some("Cannot execute macro because the [@] register is already playing a macro"@)
        } else {
            None
        },
    }
}

/// Says whether keys can be played, given the error with which they were read, if there was one,
/// and whether the macro register is being played already.
pub fn play_macro(line: &str, parse_error: Option<String>, replaying: bool) -> (r: Option<String>)
    ensures
        plan::maybe(r) == macro_error(line@, plan::maybe(parse_error), replaying),
{
    match parse_error {
        Some(error) => {
            let mut message = "failed to parse macro `".to_owned();
            message.append(line);
            message.append("`: ");
            message.append(error.as_str());
            Some(message)
        },
        // Protects against macros that play themselves.
        None => if replaying {
            Some(
                "Cannot execute macro because the [@] register is already playing a macro".to_owned(),
            )
        } else {
            None
        },
    }
}

/// The input without the escapes before it, which is what is completed.
pub fn completion_input(input: &str) -> (r: String)
    ensures
        r@ == text::trimmed_start(input@, '^'),
{
    text::trim_start(input, '^')
}

/// The names among which that of a command is completed: those of the built-in commands, and
/// those of the configured ones.
pub open spec fn completion_names_spec(custom: Seq<Seq<char>>) -> Seq<Seq<char>> {
    Seq::new(
        command::COMMANDS as nat,
        |i: int| command::command_name(command::listed(i)),
    ) + custom
}

/// The names among which that of a command is completed, given those of the configured commands.
pub fn completion_names(custom: &Vec<String>) -> (r: Vec<String>)
    ensures
        text::views(r@) == completion_names_spec(text::views(custom@)),
{
    let list = command::typable_command_list(false);
    let mut names: Vec<String> = Vec::new();
    let mut i: usize = 0;
    while i < list.len()
        invariant
            i <= list.len(),
            list@.len() == command::COMMANDS,
            forall|j: int|
                0 <= j < command::COMMANDS ==> (#[trigger] list@[j])@ == command::command_spec(
                    command::listed(j),
                    false,
                ),
            names.len() == i,
            forall|j: int|
                0 <= j < i ==> (#[trigger] names@[j])@ == command::command_name(
                    command::listed(j),
                ),
        decreases list.len() - i,
    {
        assert(list@[i as int]@.name == command::command_name(command::listed(i as int)));
        names.push(list[i].name.to_owned());
        i = i + 1;
    }
    let mut more = args::copy_texts(custom);
    let ghost builtin = text::views(names@);
    let ghost configured = text::views(more@);
    names.append(&mut more);
    assert(text::views(names@) =~= builtin + configured);
    assert(text::views(names@) =~= completion_names_spec(text::views(custom@)));
    names
}

/// How the input is completed. `S` stands for a text.
#[derive(Debug, PartialEq, Eq)]
pub enum Completion<S> {
    /// By the names of commands that match a pattern, from the start of the input on.
    CommandNames { pattern: S },
    /// By what a completer finds for a word, from `offset` bytes into the input on.
    Argument { completer: Completer, word: S, offset: usize },
    /// Not at all.
    Nothing,
}

impl View for Completion<String> {
    type V = Completion<Seq<char>>;

    open spec fn view(&self) -> Completion<Seq<char>> {
        match *self {
            Completion::CommandNames { pattern } => Completion::CommandNames { pattern: pattern@ },
            Completion::Argument { completer, word, offset } => Completion::Argument {
                completer,
                word: word@,
                offset,
            },
            Completion::Nothing => Completion::Nothing,
        }
    }
}

/// The word that is being typed: the last argument.
pub open spec fn last_word(args: ArgsView) -> Seq<char> {
    if args.words.len() > 0 {
        args.words.last().text
    } else {
        Seq::empty()
    }
}

/// The command as whose arguments the arguments are completed: the one that a configured command
/// names, or else the one that is typed.
pub open spec fn completed_command(
    command: Seq<char>,
    custom: Option<Option<Seq<char>>>,
) -> Seq<char> {
    match custom {
        Some(Some(name)) => text::trimmed_start(name, ':'),
        _ => command,
    }
}

/// The bytes by which a text is encoded.
pub open spec fn byte_len(text: Seq<char>) -> nat {
    vstd::utf8::encode_utf8(text).len()
}

/// Whether the name of a command is being typed, rather than an argument.
pub open spec fn is_typing_command(line: LineView, ends_with_whitespace: bool) -> bool {
    line.command.len() == 0 || (line.args.words.len() == 0 && !ends_with_whitespace)
}

/// How an input is completed, given the line that it makes without escapes.
pub open spec fn completion(
    input: Seq<char>,
    line: LineView,
    ends_with_whitespace: bool,
    custom: Option<Option<Seq<char>>>,
) -> Completion<Seq<char>> {
    let word = last_word(line.args);
    if is_typing_command(line, ends_with_whitespace) {
        Completion::CommandNames { pattern: line.command }
    } else {
        match command::command_called(completed_command(line.command, custom)) {
            Some(fun) => Completion::Argument {
                completer: command::command_signature(fun).completer(
                    args::argument_number(line.args.words.len(), ends_with_whitespace),
                ),
                word,
                offset: (byte_len(input) - byte_len(word)) as usize,
            },
            None => Completion::Nothing,
        }
    }
}

/// The command as whose arguments those of a configured command are completed, if there is one.
pub open spec fn custom_completer(custom: Option<&Custom>) -> Option<Option<Seq<char>>> {
    match custom {
        Some(custom) => Some(plan::maybe(custom.completer)),
        None => None,
    }
}

/// Says how an input is completed, given the words of what [`completion_input`] leaves of it and
/// the configured command of that name, if there is one.
pub fn complete(input: &str, words: &Shellwords, custom: Option<&Custom>) -> (r: Completion<String>)
    requires
        byte_len(last_word(words.args@)) <= byte_len(input@) <= usize::MAX,
    ensures
        r@ == completion(
            input@,
            line_view(*words),
            words.ends_with_whitespace,
            custom_completer(custom),
        ),
{
    let command = words.command.as_str();
    let count = words.args.arg_count();
    if command.is_empty() || (count == 0 && !words.ends_with_whitespace) {
        return Completion::CommandNames { pattern: command.to_owned() };
    }
    // The last word is completed by the completer of the command.
    let word = if count > 0 {
        words.args.words[count - 1].text.clone()
    } else {
        String::new()
    };
    assert(word@ =~= last_word(words.args@));
    let name = match custom {
        Some(custom) => match &custom.completer {
            Some(name) => text::trim_start(name.as_str(), ':'),
            None => command.to_owned(),
        },
        None => command.to_owned(),
    };
    match command::find_command(name.as_str()) {
        Some(fun) => {
            let known = command::command(fun, false);
            let completer = *known.completer_for_argument_number(args::argument_number_of(words));
            // The place of the word in the input.
            let offset = input.len() - word.as_str().len();
            Completion::Argument { completer, word, offset }
        },
        None => Completion::Nothing,
    }
}

/// Where a completion begins in the input, given where it begins in the word.
pub fn completion_start(offset: usize, start: usize) -> (r: usize)
    requires
        offset + start <= usize::MAX,
    ensures
        r == offset + start,
{
    start + offset
}

/// What is said about the command that is being typed: what the user has configured, or what is
/// known about the built-in command and its further names.
pub open spec fn documentation(
    command: Seq<char>,
    custom: Option<Seq<char>>,
    unicode_lines: bool,
) -> Option<Seq<char>> {
    match custom {
        Some(said) => Some(said),
        None => match command::command_called(command) {
            Some(fun) => {
                let doc = command::command_doc(fun, unicode_lines);
                let aliases = command::command_aliases(fun);
                if aliases.len() == 0 {
                    Some(doc)
                } else {
                    Some(doc + "\nAliases: "@ + text::joined(aliases, ", "@))
                }
            },
            None => None,
        },
    }
}

/// Says what is known about the command that is being typed, given what the user has configured
/// for the whole input.
pub fn document(words: &Shellwords, custom: Option<String>, unicode_lines: bool) -> (r: Option<
    String,
>)
    ensures
        plan::maybe(r) == documentation(words.command@, plan::maybe(custom), unicode_lines),
{
    if let Some(said) = custom {
        return Some(said);
    }
    match command::find_command(words.command.as_str()) {
        Some(fun) => {
            let known = command::command(fun, unicode_lines);
            let mut aliases: Vec<String> = Vec::new();
            let mut i: usize = 0;
            while i < known.aliases.len()
                invariant
                    i <= known.aliases.len(),
                    aliases.len() == i,
                    forall|j: int| 0 <= j < i ==> (#[trigger] aliases@[j])@ == known.aliases@[j]@,
                decreases known.aliases.len() - i,
            {
                aliases.push(known.aliases[i].to_owned());
                i = i + 1;
            }
            assert(text::views(aliases@) =~= command::command_aliases(fun));
            let mut said = known.doc.to_owned();
            if aliases.len() > 0 {
                said.append("\nAliases: ");
                said.append(text::join(&aliases, ", ").as_str());
            }
            Some(said)
        },
        None => None,
    }
}

/// An escaped command does the same whether or not the user has configured one of that name.
pub proof fn lemma_escape_ignores_custom(
    line: LineView,
    event: PromptEvent,
    custom: Option<Seq<LineView>>,
    statics: Seq<Seq<char>>,
)
    requires
        is_escaped(line.command),
    ensures
        reply(line, event, custom, statics) == reply(line, event, None, statics),
{
}

/// A configured command that contains no positional argument variable runs with the arguments it
/// was configured with, whatever arguments are typed.
pub proof fn lemma_own_arguments(
    lines: Seq<LineView>,
    a: ArgsView,
    b: ArgsView,
    event: PromptEvent,
    statics: Seq<Seq<char>>,
)
    requires
        forall|i: int| 0 <= i < lines.len() ==> !mentions_variable(#[trigger] lines[i].input),
    ensures
        custom_moves(lines, a, event, statics) == custom_moves(lines, b, event, statics),
    decreases lines.len(),
{
    if lines.len() > 0 {
        assert(!mentions_variable(lines[0].input));
        assert forall|i: int| 0 <= i < lines.skip(1).len() implies !mentions_variable(
            #[trigger] lines.skip(1)[i].input,
        ) by {
            assert(lines.skip(1)[i] == lines[i + 1]);
        }
        lemma_own_arguments(lines.skip(1), a, b, event, statics);
    }
}

/// A configured command stops at its first error: an error message is the last thing it does.
pub proof fn lemma_error_is_last(
    lines: Seq<LineView>,
    typed: ArgsView,
    event: PromptEvent,
    statics: Seq<Seq<char>>,
    i: int,
)
    requires
        0 <= i < custom_moves(lines, typed, event, statics).len(),
        custom_moves(lines, typed, event, statics)[i] is SetError,
    ensures
        i == custom_moves(lines, typed, event, statics).len() - 1,
        event is Validate,
    decreases lines.len(),
{
    let rest = custom_moves(lines.skip(1), typed, event, statics);
    match line_move(lines[0], typed, statics) {
        Some(first) => {
            assert((seq![first] + rest)[i] == if i == 0 {
                first
            } else {
                rest[i - 1]
            });
            lemma_error_is_last(lines.skip(1), typed, event, statics, i - 1);
        },
        None => {
            if !(event is Validate) {
                lemma_error_is_last(lines.skip(1), typed, event, statics, i);
            }
        },
    }
}

/// The typed command of each line of a configured command is run in turn: with the arguments that
/// were typed, where the line contains a positional argument variable, and else with its own.
pub proof fn lemma_typed_lines_in_turn(
    lines: Seq<LineView>,
    typed: ArgsView,
    event: PromptEvent,
    statics: Seq<Seq<char>>,
)
    requires
        forall|i: int|
            0 <= i < lines.len() ==> command::command_called((#[trigger] lines[i]).command) is Some,
    ensures
        custom_moves(lines, typed, event, statics).len() == lines.len(),
        forall|i: int|
            0 <= i < lines.len() ==> #[trigger] custom_moves(lines, typed, event, statics)[i] == (
            MoveView::Run {
                fun: command::command_called(lines[i].command)->0,
                args: if mentions_variable(lines[i].input) {
                    typed
                } else {
                    lines[i].args
                },
            }),
    decreases lines.len(),
{
    if lines.len() > 0 {
        let rest = lines.skip(1);
        assert forall|i: int| 0 <= i < rest.len() implies command::command_called(
            (#[trigger] rest[i]).command,
        ) is Some by {
            assert(rest[i] == lines[i + 1]);
        }
        assert(command::command_called(lines[0].command) is Some);
        lemma_typed_lines_in_turn(rest, typed, event, statics);
        assert forall|i: int| 0 <= i < lines.len() implies #[trigger] custom_moves(
            lines,
            typed,
            event,
            statics,
        )[i] == (MoveView::Run {
            fun: command::command_called(lines[i].command)->0,
            args: if mentions_variable(lines[i].input) {
                typed
            } else {
                lines[i].args
            },
        }) by {
            if i > 0 {
                assert(custom_moves(lines, typed, event, statics)[i] == custom_moves(
                    rest,
                    typed,
                    event,
                    statics,
                )[i - 1]);
                assert(rest[i - 1] == lines[i]);
            }
        }
    }
}

/// When a command that a line runs fails, its error is what is shown, and no later line is run.
pub proof fn lemma_failed_line_ends(
    lines: Seq<LineView>,
    typed: ArgsView,
    event: PromptEvent,
    statics: Seq<Seq<char>>,
    failures: spec_fn(nat) -> Option<Seq<char>>,
    failing: nat,
)
    requires
        failing < custom_moves(lines, typed, event, statics).len(),
        forall|i: nat| i < failing ==> #[trigger] failures(i) is None,
        failures(failing) is Some,
    ensures
        moves_course(custom_moves(lines, typed, event, statics), failures) == (Course {
            done: failing + 1,
            error: failures(failing),
        }),
{
    plan::lemma_first_failure_ends(
        custom_moves(lines, typed, event, statics),
        None,
        failures,
        0,
        failing,
    );
}

/// Every name of a built-in command runs that command with the arguments that were typed, unless
/// the user has configured a command of that name. With the escape before it, it does so in any
/// case.
pub proof fn lemma_name_runs_command(
    fun: Fun,
    line: LineView,
    event: PromptEvent,
    custom: Option<Seq<LineView>>,
    statics: Seq<Seq<char>>,
)
    requires
        command::is_called(fun, lookup_name(line.command)),
        line.command.len() > 0,
        !(number::unsigned(line.command, usize::MAX as nat) is Ok),
        custom is None || is_escaped(line.command),
        !mentions_variable(line.args.raw),
    ensures
        reply(line, event, custom, statics) == seq![
            MoveView::Run { fun, args: line.args },
        ],
{
    command::lemma_command_called(fun, lookup_name(line.command));
}

/// No command is run with arguments in which a positional argument variable was typed.
pub proof fn lemma_typed_variables_refused(
    line: LineView,
    event: PromptEvent,
    custom: Option<Seq<LineView>>,
    statics: Seq<Seq<char>>,
)
    requires
        line.command.len() > 0,
        !(number::unsigned(line.command, usize::MAX as nat) is Ok),
        mentions_variable(line.args.raw),
    ensures
        reply(line, event, custom, statics) == seq![variable_error()],
{
}

/// The view of a move tells all there is to it.
pub proof fn lemma_move_views_tell(a: Move<String, Args>, b: Move<String, Args>)
    requires
        a@ == b@,
    ensures
        a is SetError ==> b is SetError && a->SetError_0@ == b->SetError_0@,
        a is Run ==> b is Run && a->Run_fun == b->Run_fun && a->Run_args@ == b->Run_args@,
        a is RunStatic ==> b is RunStatic && a->RunStatic_0@ == b->RunStatic_0@,
        a is PlayMacro ==> b is PlayMacro && a->PlayMacro_line@ == b->PlayMacro_line@
            && a->PlayMacro_keys@ == b->PlayMacro_keys@,
{
}

proof fn lemma_encode_add(a: Seq<char>, b: Seq<char>)
    ensures
        vstd::utf8::encode_utf8(a + b) == vstd::utf8::encode_utf8(a) + vstd::utf8::encode_utf8(b),
    decreases a.len(),
{
    if a.len() == 0 {
        assert(a + b =~= b);
        assert(vstd::utf8::encode_utf8(a) + vstd::utf8::encode_utf8(b) =~= vstd::utf8::encode_utf8(
            b,
        ));
    } else {
        lemma_encode_add(a.drop_first(), b);
        assert((a + b).drop_first() =~= a.drop_first() + b);
        assert(vstd::utf8::encode_utf8(a + b) =~= vstd::utf8::encode_utf8(a)
            + vstd::utf8::encode_utf8(b));
    }
}

/// Wherever a variable stands in a text, the text mentions one: without an index, and with one of
/// any number of digits.
pub proof fn lemma_mentioned(before: Seq<char>, index: Seq<char>, behind: Seq<char>)
    ensures
        mentions_variable(before + seq!['%', '{', 'a', 'r', 'g', '}'] + behind),
        index.len() > 0 && (forall|i: int|
            0 <= i < index.len() ==> '0' <= #[trigger] index[i] && index[i] <= '9')
            ==> mentions_variable(
            before + (seq!['%', '{', 'a', 'r', 'g', ':'] + index + seq!['}']) + behind,
        ),
{
    let plain = seq!['%', '{', 'a', 'r', 'g', '}'];
    let front = vstd::utf8::encode_utf8(before);
    let back = vstd::utf8::encode_utf8(behind);
    assert(vstd::utf8::is_ascii_chars(plain));
    vstd::utf8::is_ascii_chars_encode_utf8(plain);
    assert(vstd::utf8::encode_utf8(plain) =~= seq![37u8, 123, 97, 114, 103, 125]);
    lemma_encode_add(before + plain, behind);
    lemma_encode_add(before, plain);
    variable::lemma_written_variable(front, Seq::empty(), back);
    if index.len() > 0 && (forall|i: int|
        0 <= i < index.len() ==> '0' <= #[trigger] index[i] && index[i] <= '9') {
        let opening = seq!['%', '{', 'a', 'r', 'g', ':'];
        let indexed = opening + index + seq!['}'];
        assert(vstd::utf8::is_ascii_chars(opening));
        assert(vstd::utf8::is_ascii_chars(index));
        assert(vstd::utf8::is_ascii_chars(seq!['}']));
        vstd::utf8::is_ascii_chars_encode_utf8(opening);
        vstd::utf8::is_ascii_chars_encode_utf8(index);
        vstd::utf8::is_ascii_chars_encode_utf8(seq!['}']);
        let digits = vstd::utf8::encode_utf8(index);
        assert(vstd::utf8::encode_utf8(opening) =~= seq![37u8, 123, 97, 114, 103, 58]);
        assert(vstd::utf8::encode_utf8(seq!['}']) =~= seq![125u8]);
        assert forall|i: int| 0 <= i < digits.len() implies 48 <= #[trigger] digits[i] <= 57 by {
            assert(index[i] as u8 == digits[i]);
        }
        lemma_encode_add(before + indexed, behind);
        lemma_encode_add(before, indexed);
        lemma_encode_add(opening + index, seq!['}']);
        lemma_encode_add(opening, index);
        variable::lemma_written_variable(front, digits, back);
    }
}

proof fn lemma_encode_without(text: Seq<char>)
    requires
        forall|i: int| 0 <= i < text.len() ==> #[trigger] text[i] as u32 != 37,
    ensures
        forall|i: int|
            0 <= i < vstd::utf8::encode_utf8(text).len() ==> #[trigger] vstd::utf8::encode_utf8(
                text,
            )[i] != 37,
    decreases text.len(),
{
    if text.len() > 0 {
        let rest = text.drop_first();
        assert forall|i: int| 0 <= i < rest.len() implies #[trigger] rest[i] as u32 != 37 by {
            assert(text[i + 1] as u32 != 37);
        }
        lemma_encode_without(rest);
        let c = text[0] as u32;
        assert(c != 37);
        if vstd::utf8::has_width_1_encoding(c) {
            assert((c & 0x7F) as u8 != 37) by (bit_vector)
                requires
                    c <= 0x7f,
                    c != 37,
            ;
        }
        assert forall|b: u8| #[trigger] (0xC0u8 | b) != 37 by {
            assert(0xC0u8 | b != 37) by (bit_vector);
        }
        assert forall|b: u8| #[trigger] (0xE0u8 | b) != 37 by {
            assert(0xE0u8 | b != 37) by (bit_vector);
        }
        assert forall|b: u8| #[trigger] (0xF0u8 | b) != 37 by {
            assert(0xF0u8 | b != 37) by (bit_vector);
        }
        assert forall|b: u8| #[trigger] (0x80u8 | b) != 37 by {
            assert(0x80u8 | b != 37) by (bit_vector);
        }
        let first = vstd::utf8::encode_scalar(c);
        assert forall|i: int| 0 <= i < first.len() implies #[trigger] first[i] != 37 by {}
        let bytes = vstd::utf8::encode_utf8(text);
        let behind = vstd::utf8::encode_utf8(rest);
        assert(bytes == first + behind);
        assert forall|i: int| 0 <= i < bytes.len() implies #[trigger] bytes[i] != 37 by {
            if i < first.len() {
                assert(bytes[i] == first[i]);
            } else {
                assert(bytes[i] == behind[i - first.len()]);
            }
        }
    }
}

/// A text without a percent sign mentions no variable.
pub proof fn lemma_nothing_mentioned(text: Seq<char>)
    requires
        forall|i: int| 0 <= i < text.len() ==> #[trigger] text[i] as u32 != 37,
    ensures
        !mentions_variable(text),
{
    lemma_encode_without(text);
    let bytes = vstd::utf8::encode_utf8(text);
    if variable::holds_variable(bytes) {
        variable::lemma_found_variable(bytes);
        let (i, n) = choose|i: int, n: int| variable::stands_at(bytes, i, n);
        assert(bytes[i] == 37);
    }
}

} // verus!
