//! What holds of the commands that change documents and how they are kept.
use vstd::prelude::*;

use crate::args::ArgsView;
use crate::change::LineEnding;
use crate::command::Fun;
use crate::diff;
use crate::document;
use crate::document::{Diff, FileRead};
use crate::editor::{Editor, IndentStyle, Place, ViewRef};
use crate::law::closing;
use crate::number;
use crate::options;
use crate::plan::{Op, PlanView, StepView};
use crate::text;

verus! {

/// Where the shown document is changed.
pub open spec fn here(editor: Editor) -> Place {
    Place {
        doc: editor.documents[editor.current as int].id,
        view: ViewRef::Id(editor.current_view),
    }
}

/// `format` formats the shown document if there is something that can, and is refused otherwise.
pub proof fn lemma_format(editor: Editor, places: options::Places, args: ArgsView)
    requires
        editor.wf(),
    ensures
        editor.documents[editor.current as int].formatter ==> closing::confirmed(
            Fun::Format,
            editor,
            places,
            args,
        ) == (PlanView { steps: seq![StepView::Do(Op::Format(here(editor)))], error: None }),
        !editor.documents[editor.current as int].formatter ==> closing::confirmed(
            Fun::Format,
            editor,
            places,
            args,
        ) == (PlanView {
            steps: Seq::empty(),
            error: Some(
                "A formatter isn't available, and no language server provides formatting capabilities"@,
            ),
        }),
{
}

/// `indent-style` says how the shown document is indented if nothing is typed behind it.
pub proof fn lemma_indent_shown(editor: Editor, places: options::Places, args: ArgsView)
    requires
        editor.wf(),
        args.raw.len() == 0,
    ensures
        closing::confirmed(Fun::SetIndentStyle, editor, places, args) == (PlanView {
            steps: seq![
                StepView::SetStatus(
                    match editor.documents[editor.current as int].indent_style {
                        IndentStyle::Tabs => "tabs"@,
                        IndentStyle::Spaces(n) => if n == 1 {
                            "1 space"@
                        } else {
                            text::decimal(n as nat) + " spaces"@
                        },
                    },
                ),
            ],
            error: None,
        }),
{
}

/// `indent-style` sets tabs for `0` and for a beginning of `tabs`, in any case of letters, and as
/// many spaces as the number says from one to sixteen, and refuses any other number.
pub proof fn lemma_indent_set(
    editor: Editor,
    places: options::Places,
    args: ArgsView,
    digits: Seq<char>,
)
    requires
        args.taken == 0,
        args.raw.len() > 0,
        args.words.len() > 0,
        digits.len() > 0,
        forall|i: int| 0 <= i < digits.len() ==> '0' <= #[trigger] digits[i] && digits[i] <= '9',
    ensures
        ({
            let plan = closing::confirmed(Fun::SetIndentStyle, editor, places, args);
            let word = args.words[0].text;
            let n = text::value_of(digits, 10);
            let tabs = PlanView {
                steps: seq![StepView::Do(Op::SetIndentStyle(IndentStyle::Tabs))],
                error: None,
            };
            &&& text::lowercased(word).is_prefix_of(seq!['t', 'a', 'b', 's']) ==> plan == tabs
            &&& word == seq!['0'] ==> plan == tabs
            &&& word == digits || word == seq!['+'] + digits ==> {
                &&& 1 <= n <= 16 ==> plan == (PlanView {
                    steps: seq![StepView::Do(Op::SetIndentStyle(IndentStyle::Spaces(n as u8)))],
                    error: None,
                })
                &&& n > 16 || (n == 0 && word != seq!['0']) ==> plan == (PlanView {
                    steps: Seq::empty(),
                    error: Some("invalid indent style"@),
                })
            }
        }),
{
    reveal_strlit("tabs");
    reveal_strlit("0");
    assert("tabs"@ =~= seq!['t', 'a', 'b', 's']);
    assert("0"@ =~= seq!['0']);
    number::lemma_digits_read(digits, 255);
    let word = args.words[0].text;
    if word == digits || word == seq!['+'] + digits {
        assert(word[0] == '+' || word[0] == digits[0]);
        assert(text::all_ascii(word)) by {
            assert forall|i: int| 0 <= i < word.len() implies #[trigger] word[i] <= '\u{7f}' by {
                if word == digits {
                    assert('0' <= digits[i] && digits[i] <= '9');
                } else if i > 0 {
                    assert(word[i] == digits[i - 1]);
                }
            }
        }
        let lower = text::lowercased(word);
        assert(lower[0] == word[0]);
        if lower.is_prefix_of("tabs"@) {
            assert(lower[0] == "tabs"@[0]);
        }
        if word == "0"@ {
            assert(word =~= digits);
            assert(digits.drop_last() =~= Seq::empty());
            assert(text::value_of(digits.drop_last(), 10) == 0);
        }
    }
}

/// What is neither a beginning of `tabs` nor made of digits is no indentation.
pub proof fn lemma_indent_refused(editor: Editor, places: options::Places, args: ArgsView)
    requires
        args.taken == 0,
        args.raw.len() > 0,
        args.words.len() > 0 ==> {
            let word = args.words[0].text;
            &&& !text::lowercased(word).is_prefix_of(seq!['t', 'a', 'b', 's'])
            &&& exists|i: int|
                0 <= i < word.len() && !('0' <= #[trigger] word[i] && word[i] <= '9') && (i > 0 || (
                word[i] != '-' && word[i] != '+'))
        },
    ensures
        closing::confirmed(Fun::SetIndentStyle, editor, places, args) == (PlanView {
            steps: Seq::empty(),
            error: Some("invalid indent style"@),
        }),
{
    reveal_strlit("tabs");
    reveal_strlit("0");
    assert("tabs"@ =~= seq!['t', 'a', 'b', 's']);
    if args.words.len() > 0 {
        let word = args.words[0].text;
        number::lemma_no_number(word);
        if word == "0"@ {
            assert(word[0] == '0');
        }
    }
}

/// `line-ending` says what ends the lines of the shown document if nothing is typed behind it.
pub proof fn lemma_line_ending_shown(editor: Editor, places: options::Places, args: ArgsView)
    requires
        editor.wf(),
        args.raw.len() == 0,
    ensures
        ({
            let plan = closing::confirmed(Fun::SetLineEnding, editor, places, args);
            let ending = editor.documents[editor.current as int].line_ending;
            &&& plan.error is None
            &&& plan.steps.len() == 1
            &&& ending == LineEnding::Crlf ==> plan.steps[0] == StepView::SetStatus("crlf"@)
            &&& ending == LineEnding::LF ==> plan.steps[0] == StepView::SetStatus("line feed"@)
            &&& ending == LineEnding::FF ==> plan.steps[0] == StepView::SetStatus("form feed"@)
            &&& ending == LineEnding::CR ==> plan.steps[0] == StepView::SetStatus(
                "carriage return"@,
            )
            &&& ending == LineEnding::Nel ==> plan.steps[0] == StepView::SetStatus("next line"@)
            &&& ending == LineEnding::VT || ending == LineEnding::LS || ending == LineEnding::PS
                ==> plan.steps[0] == StepView::SetStatus("error"@)
        }),
{
}

/// Whether a word begins with some letters, in any case.
pub open spec fn begins(word: Seq<char>, letters: Seq<char>) -> bool {
    letters.is_prefix_of(text::ascii_lowercased(word))
}

/// `line-ending` sets the ending whose name the first argument begins with, converts the lines
/// that are there, and keeps that as a change. Endings of Unicode have names only where lines end
/// at them. What begins with no name is refused, and nothing is done.
pub proof fn lemma_line_ending_set(
    editor: Editor,
    places: options::Places,
    args: ArgsView,
    ending: LineEnding,
)
    requires
        editor.wf(),
        args.taken == 0,
        args.raw.len() > 0,
        args.words.len() > 0,
    ensures
        ({
            let plan = closing::confirmed(Fun::SetLineEnding, editor, places, args);
            let word = args.words[0].text;
            let crlf = begins(word, seq!['c', 'r', 'l', 'f']);
            let lf = begins(word, seq!['l', 'f']);
            let cr = begins(word, seq!['c', 'r']) && !crlf && editor.unicode_lines;
            let ff = begins(word, seq!['f', 'f']) && editor.unicode_lines;
            let nel = begins(word, seq!['n', 'e', 'l']) && editor.unicode_lines;
            &&& (ending == LineEnding::Crlf && crlf) || (ending == LineEnding::LF && lf) || (ending
                == LineEnding::CR && cr) || (ending == LineEnding::FF && ff) || (ending
                == LineEnding::Nel && nel) ==> plan == (PlanView {
                steps: seq![
                    StepView::Do(Op::SetLineEnding(ending)),
                    StepView::Do(Op::ConvertLineEndings(ending)),
                    StepView::Do(Op::CommitChanges(here(editor))),
                ],
                error: None,
            })
            &&& !crlf && !lf && !cr && !ff && !nel ==> plan == (PlanView {
                steps: Seq::empty(),
                error: Some("invalid line ending"@),
            })
        }),
{
    reveal_strlit("crlf");
    reveal_strlit("lf");
    reveal_strlit("cr");
    reveal_strlit("ff");
    reveal_strlit("nel");
    assert("crlf"@ =~= seq!['c', 'r', 'l', 'f']);
    assert("lf"@ =~= seq!['l', 'f']);
    assert("cr"@ =~= seq!['c', 'r']);
    assert("ff"@ =~= seq!['f', 'f']);
    assert("nel"@ =~= seq!['n', 'e', 'l']);
    let name = text::ascii_lowercased(args.words[0].text);
    if "crlf"@.is_prefix_of(name) {
        assert(name[0] == "crlf"@[0]);
    }
    if "lf"@.is_prefix_of(name) {
        assert(name[0] == "lf"@[0]);
    }
    if "cr"@.is_prefix_of(name) {
        assert(name[0] == "cr"@[0]);
    }
    if "ff"@.is_prefix_of(name) {
        assert(name[0] == "ff"@[0]);
    }
    if "nel"@.is_prefix_of(name) {
        assert(name[0] == "nel"@[0]);
    }
}

/// `earlier` and `later` travel as far as all that is typed says, and it is said if there is
/// nowhere further to go.
pub proof fn lemma_travel(editor: Editor, places: options::Places, args: ArgsView)
    ensures
        closing::confirmed(Fun::Earlier, editor, places, args) == (PlanView {
            steps: seq![StepView::Earlier(args.raw)],
            error: None,
        }),
        closing::confirmed(Fun::Later, editor, places, args) == (PlanView {
            steps: seq![StepView::Later(args.raw)],
            error: None,
        }),
        forall|back: bool| #[trigger]
            document::traveled_plan(back, true) == (PlanView {
                steps: Seq::empty(),
                error: None,
            }),
        document::traveled_plan(true, false) == (PlanView {
            steps: seq![StepView::SetStatus("Already at oldest change"@)],
            error: None,
        }),
        document::traveled_plan(false, false) == (PlanView {
            steps: seq![StepView::SetStatus("Already at newest change"@)],
            error: None,
        }),
{
}

/// `encoding` sets the encoding that it is given, and names the present one if it is given none.
pub proof fn lemma_encoding(editor: Editor, places: options::Places, args: ArgsView)
    requires
        editor.wf(),
        args.taken == 0,
    ensures
        args.words.len() > 0 ==> closing::confirmed(Fun::SetEncoding, editor, places, args) == (
        PlanView { steps: seq![StepView::SetEncoding(args.words[0].text)], error: None }),
        args.words.len() == 0 ==> closing::confirmed(Fun::SetEncoding, editor, places, args) == (
        PlanView {
            steps: seq![
                StepView::SetStatus(editor.documents[editor.current as int].encoding@),
            ],
            error: None,
        }),
{
}

/// `set-language` names the language if nothing is typed behind it. One argument sets the
/// language, or takes it away if it is the name for having none, and then what hangs on the
/// language is found again. More than one argument is refused.
pub proof fn lemma_language(editor: Editor, places: options::Places, args: ArgsView)
    requires
        editor.wf(),
        args.taken == 0,
    ensures
        ({
            let plan = closing::confirmed(Fun::Language, editor, places, args);
            let document = editor.documents[editor.current as int];
            &&& args.raw.len() == 0 ==> plan == (PlanView {
                steps: seq![
                    StepView::SetStatus(
                        match document.language_name {
                            Some(name) => name@,
                            None => editor.default_language@,
                        },
                    ),
                ],
                error: None,
            })
            &&& args.raw.len() > 0 && args.words.len() != 1 ==> plan == (PlanView {
                steps: Seq::empty(),
                error: Some("Bad arguments. Usage: `:set-language language`"@),
            })
            &&& args.raw.len() > 0 && args.words.len() == 1 ==> plan == (PlanView {
                steps: seq![
                    if args.words[0].text == editor.default_language@ {
                        StepView::Do(Op::ClearLanguage)
                    } else {
                        StepView::SetLanguage(args.words[0].text)
                    },
                    StepView::Do(Op::DetectIndentAndLineEnding),
                    StepView::Do(Op::RefreshServers(document.id)),
                    StepView::Do(Op::RefreshDiagnostics),
                ],
                error: None,
            })
        }),
{
    let plan = closing::confirmed(Fun::Language, editor, places, args);
    let document = editor.documents[editor.current as int];
    if args.raw.len() > 0 && args.words.len() == 1 {
        assert(plan.steps =~= seq![
            if args.words[0].text == editor.default_language@ {
                StepView::Do(Op::ClearLanguage)
            } else {
                StepView::SetLanguage(args.words[0].text)
            },
            StepView::Do(Op::DetectIndentAndLineEnding),
            StepView::Do(Op::RefreshServers(document.id)),
            StepView::Do(Op::RefreshDiagnostics),
        ]);
    }
}

/// The steps of a command that changes the shown document: what it is named for, that the change
/// is kept, and that the cursor can be seen.
pub open spec fn change_here(editor: Editor, step: StepView) -> Seq<StepView> {
    seq![
        step,
        StepView::Do(Op::CommitChanges(here(editor))),
        StepView::Do(Op::EnsureCursorInView(here(editor))),
    ]
}

/// `sort` sorts the selections, and `rsort` sorts them in reverse.
pub proof fn lemma_sort(editor: Editor, places: options::Places, args: ArgsView)
    requires
        editor.wf(),
    ensures
        closing::confirmed(Fun::Sort, editor, places, args) == (PlanView {
            steps: change_here(editor, StepView::Do(Op::SortSelections { reverse: false })),
            error: None,
        }),
        closing::confirmed(Fun::SortReverse, editor, places, args) == (PlanView {
            steps: change_here(editor, StepView::Do(Op::SortSelections { reverse: true })),
            error: None,
        }),
{
}

/// `reflow` wraps at the width that is given, or else at that of the document's language, or else
/// at that of the editor. What is no width is refused, and nothing is done.
pub proof fn lemma_reflow(editor: Editor, places: options::Places, args: ArgsView, width: usize)
    requires
        editor.wf(),
        args.taken == 0,
    ensures
        ({
            let plan = closing::confirmed(Fun::Reflow, editor, places, args);
            let document = editor.documents[editor.current as int];
            let wrapped = PlanView {
                steps: change_here(editor, StepView::Do(Op::ReflowSelections { width })),
                error: None,
            };
            &&& args.words.len() > 0 && args.words[0].text == text::decimal(width as nat) ==> plan
                == wrapped
            &&& args.words.len() == 0 && document.text_width == Some(width) ==> plan == wrapped
            &&& args.words.len() == 0 && document.text_width is None && editor.text_width == width
                ==> plan == wrapped
            &&& args.words.len() > 0 && number::unsigned(
                args.words[0].text,
                usize::MAX as nat,
            ) is Err ==> plan == (PlanView {
                steps: Seq::empty(),
                error: Some(
                    number::unsigned(args.words[0].text, usize::MAX as nat)->Err_0.message_spec(),
                ),
            })
        }),
{
    number::lemma_decimal_read(width as nat);
}

/// `reset-diff-change` takes no arguments.
pub proof fn lemma_reset_diff(editor: Editor, places: options::Places, args: ArgsView)
    ensures
        args.raw.len() == 0 ==> closing::confirmed(Fun::ResetDiffChange, editor, places, args) == (
        PlanView { steps: seq![StepView::Do(Op::ResetDiff)], error: None }),
        args.raw.len() > 0 ==> closing::confirmed(Fun::ResetDiffChange, editor, places, args) == (
        PlanView {
            steps: Seq::empty(),
            error: Some(":reset-diff-change takes no arguments"@),
        }),
{
}

/// Where there are changes to take back, they are taken back at once, that is kept as one change,
/// and their number is said. Without a diff, or without a change in it, nothing is done.
pub proof fn lemma_diff_reset(editor: Editor, diff: Diff)
    requires
        editor.wf(),
    ensures
        document::diff_reset_plan(editor, None) == (PlanView {
            steps: Seq::empty(),
            error: Some("Diff is not available in the current buffer"@),
        }),
        diff.hunks.len() == 0 ==> document::diff_reset_plan(editor, Some(diff)) == (PlanView {
            steps: Seq::empty(),
            error: Some("There are no changes under any selection"@),
        }),
        diff.hunks.len() > 0 ==> document::diff_reset_plan(editor, Some(diff)) == (PlanView {
            steps: change_here(
                editor,
                StepView::Apply {
                    place: here(editor),
                    changes: diff::hunk_changes(
                        text::views(diff.base@),
                        text::views(diff.lines@),
                        diff.hunks@,
                    ),
                },
            ).push(
                StepView::SetStatus(
                    "Reset "@ + text::decimal(diff.hunks@.len()) + (if diff.hunks.len() == 1 {
                        " change"@
                    } else {
                        " changes"@
                    }),
                ),
            ),
            error: None,
        }),
{
    reveal_strlit(" change");
    reveal_strlit(" changes");
    reveal_strlit("s");
    reveal_strlit("");
    if diff.hunks.len() > 0 {
        let count = diff.hunks@.len();
        let number = "Reset "@ + text::decimal(count);
        assert(" change"@ + "s"@ =~= " changes"@);
        assert(number + " change"@ + "s"@ =~= number + " changes"@);
        assert(number + " change"@ + ""@ =~= number + " change"@);
        let plan = document::diff_reset_plan(editor, Some(diff));
        assert(plan.steps =~= change_here(
            editor,
            StepView::Apply {
                place: here(editor),
                changes: diff::hunk_changes(
                    text::views(diff.base@),
                    text::views(diff.lines@),
                    diff.hunks@,
                ),
            },
        ).push(
            StepView::SetStatus(
                "Reset "@ + text::decimal(diff.hunks@.len()) + (if diff.hunks.len() == 1 {
                    " change"@
                } else {
                    " changes"@
                }),
            ),
        ));
    }
}

/// `move` moves the file of the shown document to the one path that it is given. Any other number
/// of arguments is refused, and so is a document without a file.
pub proof fn lemma_move(editor: Editor, places: options::Places, args: ArgsView, error: Seq<char>)
    requires
        editor.wf(),
        args.taken == 0,
    ensures
        ({
            let plan = closing::confirmed(Fun::MoveBuffer, editor, places, args);
            let document = editor.documents[editor.current as int];
            &&& args.words.len() != 1 ==> plan == (PlanView {
                steps: Seq::empty(),
                error: Some(":move takes one argument"@),
            })
            &&& args.words.len() == 1 && document.path is None ==> plan == (PlanView {
                steps: Seq::empty(),
                error: Some("Scratch buffer cannot be moved. Use :write instead"@),
            })
            &&& args.words.len() == 1 && document.path is Some ==> plan == (PlanView {
                steps: seq![StepView::MoveTo(args.words[0].text)],
                error: None,
            })
        }),
        document::moved_plan(None) == (PlanView { steps: Seq::empty(), error: None }),
        document::moved_plan(Some(error)) == (PlanView {
            steps: Seq::empty(),
            error: Some("Could not move file: "@ + error),
        }),
{
}

/// `read` reads the one file that it is given, and what was read is inserted into the shown
/// document. No argument, a second one, and a file that cannot be read are refused.
pub proof fn lemma_read(editor: Editor, places: options::Places, args: ArgsView, text: Seq<char>)
    requires
        editor.wf(),
        args.taken == 0,
    ensures
        ({
            let plan = closing::confirmed(Fun::Read, editor, places, args);
            &&& args.raw.len() == 0 ==> plan == (PlanView {
                steps: Seq::empty(),
                error: Some("file name is expected"@),
            })
            &&& args.raw.len() > 0 && args.words.len() != 1 ==> plan == (PlanView {
                steps: Seq::empty(),
                error: Some("only the file name is expected"@),
            })
            &&& args.raw.len() > 0 && args.words.len() == 1 ==> plan == (PlanView {
                steps: seq![StepView::ReadFile(args.words[0].text)],
                error: None,
            })
        }),
        document::file_read_plan(editor, FileRead::Contents(text)) == (PlanView {
            steps: change_here(editor, StepView::InsertText(text)),
            error: None,
        }),
        document::file_read_plan(editor, FileRead::NotAFile(text)) == (PlanView {
            steps: Seq::empty(),
            error: Some("path is not a file: "@ + text),
        }),
        document::file_read_plan(editor, FileRead::NotOpened(text)) == (PlanView {
            steps: Seq::empty(),
            error: Some("error opening file: "@ + text),
        }),
        document::file_read_plan(editor, FileRead::NotRead(text)) == (PlanView {
            steps: Seq::empty(),
            error: Some("error reading file: "@ + text),
        }),
{
}

} // verus!
