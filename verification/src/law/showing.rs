//! What holds of the commands that show things, move about and work outside of documents.
use vstd::prelude::*;

use crate::args::{ArgsView, PromptEvent};
use crate::command::Fun;
use crate::editor::{Editor, Place, ViewRef};
use crate::law::closing;
use crate::number;
use crate::options;
use crate::plan::{Directory, KnownFile, Op, PlanView, Position, ShellBehavior, Split, StepView};
use crate::run;
use crate::shell;
use crate::syntax;
use crate::text;
use crate::view;

verus! {

/// Commands that are named for one thing do that one thing, whatever is typed behind them.
pub proof fn lemma_named_for_one_thing(editor: Editor, places: options::Places, args: ArgsView)
    ensures
        closing::confirmed(Fun::NewFile, editor, places, args) == (PlanView {
            steps: seq![StepView::Do(Op::NewFile(Split::Replace))],
            error: None,
        }),
        closing::confirmed(Fun::VsplitNew, editor, places, args) == (PlanView {
            steps: seq![StepView::Do(Op::NewFile(Split::Vertical))],
            error: None,
        }),
        closing::confirmed(Fun::HsplitNew, editor, places, args) == (PlanView {
            steps: seq![StepView::Do(Op::NewFile(Split::Horizontal))],
            error: None,
        }),
        closing::confirmed(Fun::ShowCurrentDirectory, editor, places, args) == (PlanView {
            steps: seq![StepView::Do(Op::ShowDirectory)],
            error: None,
        }),
        closing::confirmed(Fun::GetCharacterInfo, editor, places, args) == (PlanView {
            steps: seq![StepView::Do(Op::InspectCharacter)],
            error: None,
        }),
        closing::confirmed(Fun::TreeSitterScopes, editor, places, args) == (PlanView {
            steps: seq![StepView::Do(Op::ShowScopes)],
            error: None,
        }),
        closing::confirmed(Fun::TreeSitterHighlightName, editor, places, args) == (PlanView {
            steps: seq![StepView::Do(Op::ShowHighlight)],
            error: None,
        }),
        closing::confirmed(Fun::TreeSitterSubtree, editor, places, args) == (PlanView {
            steps: seq![StepView::Do(Op::ShowSubtree)],
            error: None,
        }),
        closing::confirmed(Fun::RefreshConfig, editor, places, args) == (PlanView {
            steps: seq![StepView::Do(Op::RefreshConfig)],
            error: None,
        }),
        closing::confirmed(Fun::OpenConfig, editor, places, args) == (PlanView {
            steps: seq![StepView::Do(Op::OpenKnown(KnownFile::Config))],
            error: None,
        }),
        closing::confirmed(Fun::OpenWorkspaceConfig, editor, places, args) == (PlanView {
            steps: seq![StepView::Do(Op::OpenKnown(KnownFile::WorkspaceConfig))],
            error: None,
        }),
        closing::confirmed(Fun::OpenLog, editor, places, args) == (PlanView {
            steps: seq![StepView::Do(Op::OpenKnown(KnownFile::Log))],
            error: None,
        }),
        closing::confirmed(Fun::Redraw, editor, places, args) == (PlanView {
            steps: seq![StepView::Do(Op::Redraw)],
            error: None,
        }),
{
}

/// `tutor` opens the tutor and then takes its path away, so that it is not written to.
pub proof fn lemma_tutor(editor: Editor, places: options::Places, args: ArgsView)
    ensures
        closing::confirmed(Fun::Tutor, editor, places, args) == (PlanView {
            steps: seq![
                StepView::Do(Op::OpenKnown(KnownFile::Tutor)),
                StepView::Do(Op::UnsetPath),
            ],
            error: None,
        }),
{
}

/// `vsplit` and `hsplit` split the view if nothing is typed behind them, and otherwise open each
/// argument in a split of its own, in their order.
pub proof fn lemma_splits(editor: Editor, places: options::Places, args: ArgsView, k: int)
    requires
        args.taken == 0,
    ensures
        args.raw.len() == 0 ==> closing::confirmed(Fun::Vsplit, editor, places, args) == (PlanView {
            steps: seq![StepView::Do(Op::SplitView(Split::Vertical))],
            error: None,
        }),
        args.raw.len() == 0 ==> closing::confirmed(Fun::Hsplit, editor, places, args) == (PlanView {
            steps: seq![StepView::Do(Op::SplitView(Split::Horizontal))],
            error: None,
        }),
        args.raw.len() > 0 ==> {
            let vertical = closing::confirmed(Fun::Vsplit, editor, places, args);
            let horizontal = closing::confirmed(Fun::Hsplit, editor, places, args);
            &&& vertical.error is None && horizontal.error is None
            &&& vertical.steps.len() == args.words.len()
            &&& horizontal.steps.len() == args.words.len()
            &&& 0 <= k < args.words.len() ==> vertical.steps[k] == (StepView::Open {
                path: args.words[k].text,
                split: Split::Vertical,
            }) && horizontal.steps[k] == (StepView::Open {
                path: args.words[k].text,
                split: Split::Horizontal,
            })
        },
{
    assert(args.left() =~= args.words);
}

/// Whatever a shell command is typed behind, the whole of it is run: by `insert-output`,
/// `append-output`, `pipe` and `pipe-to` only if there is one, and with what they are named for
/// done with its output.
pub proof fn lemma_shell_commands(editor: Editor, places: options::Places, args: ArgsView)
    ensures
        closing::confirmed(Fun::RunShellCommand, editor, places, args) == (PlanView {
            steps: seq![StepView::RunShell(args.raw)],
            error: None,
        }),
        args.raw.len() > 0 ==> {
            &&& closing::confirmed(Fun::InsertOutput, editor, places, args) == (PlanView {
                steps: seq![
                    StepView::Shell { command: args.raw, behavior: ShellBehavior::Insert },
                ],
                error: None,
            })
            &&& closing::confirmed(Fun::AppendOutput, editor, places, args) == (PlanView {
                steps: seq![
                    StepView::Shell { command: args.raw, behavior: ShellBehavior::Append },
                ],
                error: None,
            })
            &&& closing::confirmed(Fun::Pipe, editor, places, args) == (PlanView {
                steps: seq![
                    StepView::Shell { command: args.raw, behavior: ShellBehavior::Replace },
                ],
                error: None,
            })
            &&& closing::confirmed(Fun::PipeTo, editor, places, args) == (PlanView {
                steps: seq![
                    StepView::Shell { command: args.raw, behavior: ShellBehavior::Ignore },
                ],
                error: None,
            })
        },
        args.raw.len() == 0 ==> {
            let refused = PlanView { steps: Seq::empty(), error: Some("Shell command required"@) };
            &&& closing::confirmed(Fun::InsertOutput, editor, places, args) == refused
            &&& closing::confirmed(Fun::AppendOutput, editor, places, args) == refused
            &&& closing::confirmed(Fun::Pipe, editor, places, args) == refused
            &&& closing::confirmed(Fun::PipeTo, editor, places, args) == refused
        },
{
}

/// When a shell command has run, that is said, and its output is shown before that if there is
/// any: without the white space at its end, in the cursor's row, or the first one if the cursor
/// is out of sight.
pub proof fn lemma_shell_ran(output: Seq<char>, blank: Seq<char>, row: usize)
    requires
        forall|i: int| 0 <= i < blank.len() ==> text::is_white_space(#[trigger] blank[i]),
        output.len() > 0 ==> !text::is_white_space(output.last()),
    ensures
        ({
            let all = output + blank;
            let message = StepView::SetStatus("Command run"@);
            &&& all.len() == 0 ==> shell::shell_ran_plan(all, Some(row)) == (PlanView {
                steps: seq![message],
                error: None,
            }) && shell::shell_ran_plan(all, None) == (PlanView {
                steps: seq![message],
                error: None,
            })
            &&& all.len() > 0 ==> shell::shell_ran_plan(all, Some(row)) == (PlanView {
                steps: seq![
                    StepView::Popup {
                        id: "shell"@,
                        contents: "```sh\n"@ + output + "\n```"@,
                        position: Some(Position { row, column: 2 }),
                    },
                    message,
                ],
                error: None,
            })
            &&& all.len() > 0 ==> shell::shell_ran_plan(all, None) == shell::shell_ran_plan(
                all,
                Some(0),
            )
        }),
{
    text::lemma_trimmed_end(output, blank);
    let all = output + blank;
    if all.len() > 0 {
        let shown = StepView::Popup {
            id: "shell"@,
            contents: "```sh\n"@ + output + "\n```"@,
            position: Some(Position { row, column: 2 }),
        };
        assert(shell::shell_ran_plan(all, Some(row)).steps =~= seq![
            shown,
            StepView::SetStatus("Command run"@),
        ]);
    }
}

/// The numbers that `goto` takes: line numbers, where zero stands for no line.
pub proof fn lemma_goto(editor: Editor, places: options::Places, args: ArgsView, line: usize)
    requires
        editor.wf(),
        args.taken == 0,
        args.raw.len() > 0,
        args.words.len() > 0,
        args.words[0].text == text::decimal(line as nat),
    ensures
        ({
            let place = Place {
                doc: editor.documents[editor.current as int].id,
                view: ViewRef::Id(editor.current_view),
            };
            let goto: Seq<StepView> = seq![
                StepView::Do(
                    Op::GotoLine(
                        if line == 0 {
                            None
                        } else {
                            Some(line)
                        },
                    ),
                ),
                StepView::Do(Op::EnsureCursorInView(place)),
            ];
            let keep: Seq<StepView> = if editor.last_selection {
                Seq::empty()
            } else {
                seq![StepView::Do(Op::KeepSelection)]
            };
            let preview = run::command_plan(
                Fun::GotoLineNumber,
                editor,
                places,
                args,
                PromptEvent::Update,
            );
            &&& preview == (PlanView { steps: keep + goto, error: None })
            &&& closing::confirmed(Fun::GotoLineNumber, editor, places, args) == (PlanView {
                steps: (keep + goto).push(StepView::Do(Op::JumpFromSelection)),
                error: None,
            })
        }),
{
    number::lemma_decimal_read(line as nat);
    let confirmed = closing::confirmed(Fun::GotoLineNumber, editor, places, args);
    let preview = run::command_plan(
        Fun::GotoLineNumber,
        editor,
        places,
        args,
        PromptEvent::Update,
    );
    assert(confirmed.steps =~= preview.steps.push(StepView::Do(Op::JumpFromSelection)));
}

/// What is no number is refused by `goto` and goes nowhere. Leaving the prompt, or taking back
/// what was typed, brings the selection back that was kept when the first line was shown.
pub proof fn lemma_goto_refused(editor: Editor, places: options::Places, args: ArgsView)
    requires
        editor.wf(),
        args.taken == 0,
    ensures
        ({
            let place = Place {
                doc: editor.documents[editor.current as int].id,
                view: ViewRef::Id(editor.current_view),
            };
            let back = PlanView {
                steps: if editor.last_selection {
                    seq![
                        StepView::Do(Op::RestoreSelection),
                        StepView::Do(Op::EnsureCursorInView(place)),
                    ]
                } else {
                    Seq::empty()
                },
                error: None,
            };
            let fun = Fun::GotoLineNumber;
            &&& run::command_plan(fun, editor, places, args, PromptEvent::Abort) == back
            &&& args.raw.len() == 0 ==> run::command_plan(
                fun,
                editor,
                places,
                args,
                PromptEvent::Update,
            ) == back && closing::confirmed(fun, editor, places, args) == (PlanView {
                steps: Seq::empty(),
                error: Some("Line number required"@),
            })
            &&& args.raw.len() > 0 && args.words.len() > 0 && number::unsigned(
                args.words[0].text,
                usize::MAX as nat,
            ) is Err ==> {
                let refused = closing::confirmed(fun, editor, places, args);
                &&& refused.error == Some(
                    number::unsigned(args.words[0].text, usize::MAX as nat)->Err_0.message_spec(),
                )
                &&& editor.last_selection ==> refused.steps.len() == 0
                &&& !editor.last_selection ==> refused.steps == seq![
                    StepView::Do(Op::KeepSelection),
                ]
                &&& run::command_plan(fun, editor, places, args, PromptEvent::Update) == refused
            }
        }),
{
}

/// A theme is previewed while its name is typed and set when the line is confirmed; without a name
/// the present one is named. The preview is given up when nothing is typed any more, and when the
/// prompt is left.
pub proof fn lemma_theme(editor: Editor, places: options::Places, args: ArgsView)
    requires
        args.taken == 0,
    ensures
        ({
            let fun = Fun::Theme;
            let given_up = PlanView {
                steps: seq![StepView::Do(Op::UnsetThemePreview)],
                error: None,
            };
            &&& run::command_plan(fun, editor, places, args, PromptEvent::Abort) == given_up
            &&& args.raw.len() == 0 ==> run::command_plan(
                fun,
                editor,
                places,
                args,
                PromptEvent::Update,
            ) == given_up
            &&& args.raw.len() > 0 && args.words.len() == 0 ==> run::command_plan(
                fun,
                editor,
                places,
                args,
                PromptEvent::Update,
            ) == (PlanView { steps: Seq::empty(), error: None })
            &&& args.raw.len() > 0 && args.words.len() > 0 ==> run::command_plan(
                fun,
                editor,
                places,
                args,
                PromptEvent::Update,
            ) == (PlanView {
                steps: seq![StepView::PreviewTheme(args.words[0].text)],
                error: None,
            })
            &&& args.words.len() > 0 ==> closing::confirmed(fun, editor, places, args) == (
            PlanView { steps: seq![StepView::ChooseTheme(args.words[0].text)], error: None })
            &&& args.words.len() == 0 ==> closing::confirmed(fun, editor, places, args) == (
            PlanView { steps: seq![StepView::SetStatus(editor.theme_name@)], error: None })
        }),
{
}

/// A theme is shown only if its colors can be shown: where there are all colors, or it makes do
/// with sixteen. One that cannot be loaded is refused when it is chosen, and only then.
pub proof fn lemma_theme_loaded(editor: Editor, few_colors: bool, error: Seq<char>)
    ensures
        editor.true_color || few_colors ==> view::theme_previewed_plan(editor, Some(few_colors))
            == (PlanView { steps: seq![StepView::Do(Op::SetThemePreview)], error: None })
            && view::theme_chosen_plan(editor, Ok(few_colors)) == (PlanView {
            steps: seq![StepView::Do(Op::SetTheme)],
            error: None,
        }),
        !editor.true_color && !few_colors ==> ({
            let refused = PlanView {
                steps: Seq::empty(),
                error: Some("Unsupported theme: theme requires true color support"@),
            };
            &&& view::theme_previewed_plan(editor, Some(few_colors)) == refused
            &&& view::theme_chosen_plan(editor, Ok(few_colors)) == refused
        }),
        view::theme_previewed_plan(editor, None) == (PlanView {
            steps: Seq::empty(),
            error: None,
        }),
        view::theme_chosen_plan(editor, Err(error)) == (PlanView {
            steps: Seq::empty(),
            error: Some("Could not load theme: "@ + error),
        }),
{
}

/// `change-current-directory` goes home if it is given nothing, back to the directory before this
/// one for a `-`, if there was one, and otherwise where its first argument says.
pub proof fn lemma_change_directory(editor: Editor, places: options::Places, args: ArgsView)
    requires
        args.taken == 0,
    ensures
        ({
            let plan = closing::confirmed(Fun::ChangeCurrentDirectory, editor, places, args);
            &&& args.words.len() == 0 ==> plan == (PlanView {
                steps: seq![StepView::ChangeDirectory(Directory::Home)],
                error: None,
            })
            &&& args.words.len() > 0 && args.words[0].text != seq!['-'] ==> plan == (PlanView {
                steps: seq![StepView::ChangeDirectory(Directory::Tilde(args.words[0].text))],
                error: None,
            })
            &&& args.words.len() > 0 && args.words[0].text == seq!['-']
                && editor.last_cwd is Some ==> plan == (PlanView {
                steps: seq![StepView::ChangeDirectory(Directory::Path(editor.last_cwd->0@))],
                error: None,
            })
            &&& args.words.len() > 0 && args.words[0].text == seq!['-']
                && editor.last_cwd is None ==> plan == (PlanView {
                steps: Seq::empty(),
                error: Some("No previous working directory"@),
            })
        }),
{
    reveal_strlit("-");
    assert("-"@ =~= seq!['-']);
}

/// The working directory is named when it has changed and when it is asked for; that it is there
/// no more is an error.
pub proof fn lemma_directory_named(cwd: Seq<char>)
    ensures
        view::directory_changed_plan(cwd) == (PlanView {
            steps: seq![StepView::SetStatus("Current working directory is now "@ + cwd)],
            error: None,
        }),
        view::show_directory_plan(cwd, true) == (PlanView {
            steps: seq![StepView::SetStatus("Current working directory is "@ + cwd)],
            error: None,
        }),
        view::show_directory_plan(cwd, false) == (PlanView {
            steps: seq![
                StepView::SetError("Current working directory is "@ + cwd + " (deleted)"@),
            ],
            error: None,
        }),
{
}

/// `debug-eval` hands all that is typed to the debugger, for the frame and the thread that are
/// looked at. Without a debugger it does nothing, and without either of the two it is refused.
pub proof fn lemma_debug_eval(editor: Editor, places: options::Places, args: ArgsView)
    ensures
        ({
            let plan = closing::confirmed(Fun::DebugEval, editor, places, args);
            &&& editor.debugger is None ==> plan == (PlanView {
                steps: Seq::empty(),
                error: None,
            })
            &&& editor.debugger is Some && editor.debugger->0.active_frame is Some
                && editor.debugger->0.thread_id is Some ==> plan == (PlanView {
                steps: seq![
                    StepView::DebugEval {
                        thread: editor.debugger->0.thread_id->0,
                        frame: editor.debugger->0.active_frame->0,
                        expression: args.raw,
                    },
                ],
                error: None,
            })
            &&& editor.debugger is Some && (editor.debugger->0.active_frame is None
                || editor.debugger->0.thread_id is None) ==> plan == (PlanView {
                steps: Seq::empty(),
                error: Some("Cannot find current stack frame to access variables"@),
            })
        }),
{
}

/// `debug-start` takes a template and what is behind it as its parameters, and `debug-remote` the
/// address before these; what is not typed is not given.
pub proof fn lemma_debug_start(editor: Editor, places: options::Places, args: ArgsView, k: int)
    requires
        args.taken == 0,
    ensures
        ({
            let start = closing::confirmed(Fun::DebugStart, editor, places, args);
            let remote = closing::confirmed(Fun::DebugRemote, editor, places, args);
            let n = args.words.len();
            &&& start.error is None && remote.error is None
            &&& start.steps.len() == 1 && remote.steps.len() == 1
            &&& start.steps[0] matches StepView::DebugStart { template, address, params } && {
                &&& address is None
                &&& n == 0 ==> template is None && params.len() == 0
                &&& n > 0 ==> template == Some(args.words[0].text) && params.len() == n - 1
                &&& 1 <= k < n ==> params[k - 1] == args.words[k].text
            }
            &&& remote.steps[0] matches StepView::DebugStart { template, address, params } && {
                &&& n == 0 ==> address is None
                &&& n > 0 ==> address == Some(args.words[0].text)
                &&& n <= 1 ==> template is None && params.len() == 0
                &&& n > 1 ==> template == Some(args.words[1].text) && params.len() == n - 2
                &&& 2 <= k < n ==> params[k - 2] == args.words[k].text
            }
        }),
{
}

/// What the syntax tree says is shown where the cursor hovers, marked as what it is.
pub proof fn lemma_syntax_shown(scopes: Seq<Seq<char>>, tree: Seq<char>)
    ensures
        syntax::hover(tree) == (PlanView {
            steps: seq![StepView::Popup { id: "hover"@, contents: tree, position: None }],
            error: None,
        }),
        syntax::scopes_shown_plan(scopes) == (PlanView {
            steps: seq![
                StepView::Popup {
                    id: "hover"@,
                    contents: "```json\n"@ + text::debug_list(scopes) + "\n````"@,
                    position: None,
                },
            ],
            error: None,
        }),
        syntax::subtree_shown_plan(tree) == (PlanView {
            steps: seq![
                StepView::Popup {
                    id: "hover"@,
                    contents: "```tsq\n"@ + tree + "\n```"@,
                    position: None,
                },
            ],
            error: None,
        }),
{
}

} // verus!
