//! What holds of lines as they are typed: what they run and how they are completed.
use vstd::prelude::*;

use crate::args::{ArgsView, PromptEvent, WordView};
use crate::command;
use crate::command::{Completer, Fun};
use crate::law::force;
use crate::number;
use crate::prompt;
use crate::prompt::{Completion, LineView, MoveView};
use crate::text;

verus! {

/// Nothing typed does nothing, and a number goes to the line of that number: it is the one
/// argument of `goto`.
pub proof fn lemma_number_typed(
    line: LineView,
    event: PromptEvent,
    custom: Option<Seq<LineView>>,
    statics: Seq<Seq<char>>,
    n: nat,
)
    ensures
        line.command.len() == 0 ==> prompt::reply(line, event, custom, statics).len() == 0,
        line.command == text::decimal(n) && n <= usize::MAX ==> prompt::reply(
            line,
            event,
            custom,
            statics,
        ) == seq![
            MoveView::Run {
                fun: Fun::GotoLineNumber,
                args: ArgsView {
                    raw: line.command,
                    words: seq![
                        WordView { text: line.command, tail: Seq::empty(), path: Seq::empty() },
                    ],
                    taken: 0,
                },
            },
        ],
{
    number::lemma_decimal_read(n);
}

/// A line whose name is no number, behind any number of carets, and whose arguments hold no
/// variable.
pub open spec fn is_plain(line: LineView) -> bool {
    &&& line.command.len() > 0
    &&& number::unsigned(line.command, usize::MAX as nat) is Err
    &&& !prompt::mentions_variable(line.args.raw)
}

/// A name behind carets is that of a built-in command, whatever is configured, and it is an error
/// if there is none, once the line is confirmed.
pub proof fn lemma_escaped_name(
    line: LineView,
    event: PromptEvent,
    custom: Option<Seq<LineView>>,
    statics: Seq<Seq<char>>,
    carets: Seq<char>,
    name: Seq<char>,
)
    requires
        is_plain(line),
        line.command == carets + name,
        carets.len() > 0,
        forall|i: int| 0 <= i < carets.len() ==> #[trigger] carets[i] == '^',
        name.len() > 0 ==> name[0] != '^',
    ensures
        ({
            let moves = prompt::reply(line, event, custom, statics);
            match command::command_called(name) {
                Some(fun) => moves == seq![MoveView::Run { fun, args: line.args }],
                None => if event is Validate {
                    moves == seq![
                        MoveView::SetError("no such command: '"@ + name + seq!['\'']),
                    ]
                } else {
                    moves.len() == 0
                },
            }
        }),
{
    reveal_strlit("'");
    assert("'"@ =~= seq!['\'']);
    text::lemma_trimmed_start(carets, name, '^');
    assert(line.command[0] == carets[0]);
}

/// A name without a caret is that of a configured command if there is one, and otherwise that of a
/// built-in one; if it is neither, nothing is done.
pub proof fn lemma_plain_name(
    line: LineView,
    event: PromptEvent,
    lines: Seq<LineView>,
    statics: Seq<Seq<char>>,
)
    requires
        is_plain(line),
        line.command[0] != '^',
    ensures
        prompt::reply(line, event, Some(lines), statics) == prompt::custom_moves(
            lines,
            line.args,
            event,
            statics,
        ),
        match command::command_called(line.command) {
            Some(fun) => prompt::reply(line, event, None, statics) == seq![
                MoveView::Run { fun, args: line.args },
            ],
            None => prompt::reply(line, event, None, statics).len() == 0,
        },
{
    text::lemma_trimmed_start(Seq::empty(), line.command, '^');
    assert(Seq::<char>::empty() + line.command =~= line.command);
}

/// A variable among the arguments is refused, and nothing is run.
pub proof fn lemma_variable_typed(
    line: LineView,
    event: PromptEvent,
    custom: Option<Seq<LineView>>,
    statics: Seq<Seq<char>>,
)
    requires
        line.command.len() > 0,
        number::unsigned(line.command, usize::MAX as nat) is Err,
        prompt::mentions_variable(line.args.raw),
    ensures
        prompt::reply(line, event, custom, statics) == seq![
            MoveView::SetError(
                "Input arguments cannot contain a positional argument variable: `%{arg[:INT]}`"@,
            ),
        ],
{
}

/// A line of a configured command runs the command that it names, with the arguments that were
/// typed if it holds a variable, and with its own ones otherwise. A name of no such command is that
/// of a static command; failing that, an at sign plays the keys behind it.
pub proof fn lemma_configured_line(line: LineView, typed: ArgsView, statics: Seq<Seq<char>>)
    ensures
        ({
            let step = prompt::line_move(line, typed, statics);
            let known = command::command_called(line.command);
            &&& known is Some && prompt::mentions_variable(line.input) ==> step == Some(
                MoveView::Run { fun: known->0, args: typed },
            )
            &&& known is Some && !prompt::mentions_variable(line.input) ==> step == Some(
                MoveView::Run { fun: known->0, args: line.args },
            )
            &&& known is None && statics.contains(line.command) ==> step == Some(
                MoveView::RunStatic(line.command),
            )
            &&& known is None && !statics.contains(line.command) && line.input.len() > 0
                && line.input[0] == '@' ==> step == Some(
                MoveView::PlayMacro { line: line.input, keys: line.input.skip(1) },
            )
            &&& known is None && !statics.contains(line.command) && !(line.input.len() > 0
                && line.input[0] == '@') ==> step is None
        }),
{
}

/// The lines of a configured command are run in their order. When the command is confirmed, the
/// first line that cannot be run is an error and ends it; until then such lines are passed over.
pub proof fn lemma_configured_lines(
    lines: Seq<LineView>,
    typed: ArgsView,
    event: PromptEvent,
    statics: Seq<Seq<char>>,
    known: Seq<LineView>,
    behind: Seq<LineView>,
)
    requires
        forall|i: int|
            0 <= i < known.len() ==> prompt::line_move(#[trigger] known[i], typed, statics) is Some,
        lines == known + behind,
    ensures
        ({
            let moves = prompt::custom_moves(lines, typed, event, statics);
            let rest = prompt::custom_moves(behind, typed, event, statics);
            let unknown = behind.len() > 0 && prompt::line_move(behind[0], typed, statics) is None;
            &&& moves.len() == known.len() + rest.len()
            &&& forall|i: int|
                0 <= i < known.len() ==> #[trigger] moves[i] == prompt::line_move(
                    known[i],
                    typed,
                    statics,
                )->0
            &&& moves.skip(known.len() as int) == rest
            &&& behind.len() == 0 ==> rest.len() == 0
            &&& unknown && event is Validate ==> rest == seq![
                MoveView::SetError("no such command: '"@ + behind[0].input + seq!['\'']),
            ]
            &&& unknown && !(event is Validate) ==> rest == prompt::custom_moves(
                behind.skip(1),
                typed,
                event,
                statics,
            )
        }),
    decreases known.len(),
{
    reveal_strlit("'");
    assert("'"@ =~= seq!['\'']);
    let moves = prompt::custom_moves(lines, typed, event, statics);
    let rest = prompt::custom_moves(behind, typed, event, statics);
    if known.len() == 0 {
        assert(lines =~= behind);
        assert(moves.skip(0) =~= rest);
    } else {
        let fewer = known.skip(1);
        assert(lines.skip(1) =~= fewer + behind);
        assert(lines[0] == known[0]);
        assert forall|i: int| 0 <= i < fewer.len() implies prompt::line_move(
            #[trigger] fewer[i],
            typed,
            statics,
        ) is Some by {
            assert(fewer[i] == known[i + 1]);
        }
        lemma_configured_lines(lines.skip(1), typed, event, statics, fewer, behind);
        let later = prompt::custom_moves(lines.skip(1), typed, event, statics);
        assert(moves =~= seq![prompt::line_move(known[0], typed, statics)->0] + later);
        assert forall|i: int| 0 <= i < known.len() implies #[trigger] moves[i] == prompt::line_move(
            known[i],
            typed,
            statics,
        )->0 by {
            if i > 0 {
                assert(moves[i] == later[i - 1]);
                assert(fewer[i - 1] == known[i]);
            }
        }
        assert(moves.skip(known.len() as int) =~= later.skip(fewer.len() as int));
    }
}

/// Keys are played unless they cannot be read or a macro is playing already.
pub proof fn lemma_macro(line: Seq<char>, error: Seq<char>)
    ensures
        prompt::macro_error(line, None, false) is None,
        prompt::macro_error(line, None, true) == Some(
            "Cannot execute macro because the [@] register is already playing a macro"@,
        ),
        prompt::macro_error(line, Some(error), false) == Some(
            "failed to parse macro `"@ + line + "`: "@ + error,
        ),
        prompt::macro_error(line, Some(error), true) == prompt::macro_error(
            line,
            Some(error),
            false,
        ),
{
}

/// The names that are offered are those of all commands, each once, and behind them those of the
/// configured ones.
pub proof fn lemma_offered_names(custom: Seq<Seq<char>>, fun: Fun, i: int)
    ensures
        ({
            let names = prompt::completion_names_spec(custom);
            &&& names.len() == 88 + custom.len()
            &&& names[command::place_in_list(fun)] == command::command_name(fun)
            &&& 0 <= command::place_in_list(fun) < 88
            &&& 0 <= i < custom.len() ==> names[88 + i] == custom[i]
        }),
{
    command::lemma_listed(fun, 0);
}

/// While its name is typed, a command is completed among the names of all. Behind that, the last
/// word is completed as the built-in command wants it that is typed, or that the configured command
/// is completed as; its place is as far before the end of the line as the word is long.
pub proof fn lemma_completion(
    input: Seq<char>,
    line: LineView,
    ends_with_whitespace: bool,
    custom: Option<Option<Seq<char>>>,
    fun: Fun,
    word: Seq<char>,
)
    requires
        line.args.words.len() > 0 ==> word == line.args.words.last().text,
        line.args.words.len() == 0 ==> word.len() == 0,
        prompt::byte_len(word) <= prompt::byte_len(input) <= usize::MAX,
    ensures
        ({
            let done = prompt::completion(input, line, ends_with_whitespace, custom);
            let typing = line.command.len() == 0 || (line.args.words.len() == 0
                && !ends_with_whitespace);
            let name = if custom is Some && custom->0 is Some {
                text::trimmed_start(custom->0->0, ':')
            } else {
                line.command
            };
            &&& typing ==> done == (Completion::CommandNames { pattern: line.command })
            &&& !typing && command::command_called(name) is None ==> done is Nothing
            &&& !typing && command::command_called(name) == Some(fun) && ends_with_whitespace
                ==> done is Argument && done->completer == command::command_signature(
                fun,
            ).completer(line.args.words.len())
            &&& !typing && command::command_called(name) == Some(fun) && !ends_with_whitespace
                ==> done is Argument && done->completer == command::command_signature(
                fun,
            ).completer((line.args.words.len() - 1) as nat)
            &&& done is Argument ==> done->word == word && done->offset + prompt::byte_len(word)
                == prompt::byte_len(input)
        }),
{
    assert(prompt::last_word(line.args) =~= word);
}

/// What is said of a command is what is configured, if anything is. Otherwise it is what is known
/// of the built-in command of that name, with its further names if it has any.
pub proof fn lemma_documentation(
    name: Seq<char>,
    said: Seq<char>,
    fun: Fun,
    unicode_lines: bool,
)
    ensures
        prompt::documentation(name, Some(said), unicode_lines) == Some(said),
        command::command_called(name) is None ==> prompt::documentation(
            name,
            None,
            unicode_lines,
        ) is None,
        command::command_called(name) == Some(fun) && command::command_aliases(fun).len() == 0
            ==> prompt::documentation(name, None, unicode_lines) == Some(
            command::command_doc(fun, unicode_lines),
        ),
        command::command_called(name) == Some(fun) && command::command_aliases(fun).len() > 0
            ==> prompt::documentation(name, None, unicode_lines) == Some(
            command::command_doc(fun, unicode_lines) + "\nAliases: "@ + text::joined(
                command::command_aliases(fun),
                seq![',', ' '],
            ),
        ),
{
    reveal_strlit(", ");
    assert(", "@ =~= seq![',', ' ']);
}

/// Which arguments of which commands are completed as what. All others are not completed.
pub proof fn lemma_completers(fun: Fun, n: nat)
    ensures
        ({
            let completer = command::command_signature(fun).completer(n);
            &&& completer == Completer::Buffer <==> fun is BufferClose || fun is ForceBufferClose
            &&& completer == Completer::Register <==> fun is ClearRegister || fun is YankDiagnostic
            &&& completer == Completer::Theme <==> n == 0 && fun is Theme
            &&& completer == Completer::Directory <==> n == 0 && fun is ChangeCurrentDirectory
            &&& completer == Completer::LspWorkspaceCommand <==> n == 0
                && fun is LspWorkspaceCommand
            &&& completer == Completer::Language <==> n == 0 && fun is Language
            &&& completer == Completer::Setting <==> n == 0 && (fun is SetOption
                || fun is GetOption || fun is ToggleOption)
            &&& completer == Completer::Filename <==> fun is Open || fun is Vsplit || fun is Hsplit
                || fun is RunShellCommand || (n == 0 && (fun is Write || fun is ForceWrite
                || fun is WriteBufferClose || fun is ForceWriteBufferClose || fun is WriteQuit
                || fun is ForceWriteQuit || fun is MoveBuffer || fun is Read))
        }),
        force::gentle(fun) is Some ==> command::command_signature(fun)
            == command::command_signature(force::gentle(fun)->0),
{
}

/// What is listed of a command is its own, and only what is said of `line-ending` depends on where
/// lines end: it names the endings of Unicode where there are any.
pub proof fn lemma_listed_command(fun: Fun, unicode_lines: bool)
    ensures
        ({
            let listed = command::command_spec(fun, unicode_lines);
            &&& listed.fun == fun
            &&& listed.name == command::command_name(fun)
            &&& listed.aliases == command::command_aliases(fun)
            &&& listed.doc == command::command_doc(fun, unicode_lines)
            &&& listed.signature == command::command_signature(fun)
        }),
        !(fun is SetLineEnding) ==> command::command_doc(fun, true) == command::command_doc(
            fun,
            false,
        ),
        command::command_doc(Fun::SetLineEnding, false)
            == "Set the document's default line ending. Options: crlf, lf."@,
        command::command_doc(Fun::SetLineEnding, true)
            == "Set the document's default line ending. Options: crlf, lf, cr, ff, nel."@,
{
}

} // verus!
