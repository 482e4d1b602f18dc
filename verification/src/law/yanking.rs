//! What holds of the commands that work on registers and clipboards.
use vstd::prelude::*;

use crate::args::ArgsView;
use crate::clipboard;
use crate::clipboard::Diagnostic;
use crate::command::Fun;
use crate::editor::Editor;
use crate::law::closing;
use crate::law::saving::lemma_filter_picked;
use crate::options;
use crate::plan::{Op, Paste, PlanView, StepView};
use crate::text;

verus! {

/// The commands of the clipboard work on the register `+`, and those of the primary clipboard on
/// `*`: each yanks or pastes once, on the side that its name says.
pub proof fn lemma_clipboard_registers(editor: Editor, places: options::Places, args: ArgsView)
    ensures
        closing::confirmed(Fun::YankMainSelectionToClipboard, editor, places, args) == (PlanView {
            steps: seq![StepView::Do(Op::YankPrimary('+'))],
            error: None,
        }),
        closing::confirmed(Fun::YankMainSelectionToPrimaryClipboard, editor, places, args) == (PlanView {
            steps: seq![StepView::Do(Op::YankPrimary('*'))],
            error: None,
        }),
        closing::confirmed(Fun::PasteClipboardAfter, editor, places, args) == (PlanView {
            steps: seq![StepView::Do(Op::Paste { register: '+', side: Paste::After, count: 1 })],
            error: None,
        }),
        closing::confirmed(Fun::PasteClipboardBefore, editor, places, args) == (PlanView {
            steps: seq![StepView::Do(Op::Paste { register: '+', side: Paste::Before, count: 1 })],
            error: None,
        }),
        closing::confirmed(Fun::ReplaceSelectionsWithClipboard, editor, places, args) == (PlanView {
            steps: seq![StepView::Do(Op::ReplaceWithYanked { register: '+', count: 1 })],
            error: None,
        }),
        closing::confirmed(Fun::PastePrimaryClipboardAfter, editor, places, args) == (PlanView {
            steps: seq![StepView::Do(Op::Paste { register: '*', side: Paste::After, count: 1 })],
            error: None,
        }),
        closing::confirmed(Fun::PastePrimaryClipboardBefore, editor, places, args) == (PlanView {
            steps: seq![StepView::Do(Op::Paste { register: '*', side: Paste::Before, count: 1 })],
            error: None,
        }),
        closing::confirmed(Fun::ReplaceSelectionsWithPrimaryClipboard, editor, places, args) == (PlanView {
            steps: seq![StepView::Do(Op::ReplaceWithYanked { register: '*', count: 1 })],
            error: None,
        }),
{
}

/// The commands that yank joined selections put the first argument between them, or the document's
/// line ending if there is none, and yank to the register that they are named for: `yank-join` to
/// the selected register, or to `"`.
pub proof fn lemma_yank_joined(editor: Editor, places: options::Places, args: ArgsView)
    requires
        editor.wf(),
        args.taken == 0,
    ensures
        ({
            let separator = if args.words.len() > 0 {
                args.words[0].text
            } else {
                editor.documents[editor.current as int].line_ending.chars()
            };
            let own = match editor.selected_register {
                Some(register) => register,
                None => '"',
            };
            &&& closing::confirmed(Fun::YankJoined, editor, places, args) == (PlanView {
                steps: seq![StepView::YankJoined { separator, register: own }],
                error: None,
            })
            &&& closing::confirmed(Fun::YankJoinedToClipboard, editor, places, args) == (PlanView {
                steps: seq![StepView::YankJoined { separator, register: '+' }],
                error: None,
            })
            &&& closing::confirmed(Fun::YankJoinedToPrimaryClipboard, editor, places, args) == (
            PlanView {
                steps: seq![StepView::YankJoined { separator, register: '*' }],
                error: None,
            })
        }),
{
}

/// `show-clipboard-provider` says which provider there is.
pub proof fn lemma_clipboard_provider(editor: Editor, places: options::Places, args: ArgsView)
    ensures
        closing::confirmed(Fun::ShowClipboardProvider, editor, places, args) == (PlanView {
            steps: seq![StepView::SetStatus(editor.clipboard_provider@)],
            error: None,
        }),
{
}

/// `clear-register` clears all registers if nothing is typed behind it, and otherwise the one
/// register that is named by its one character. A longer name, an empty one and a second argument
/// are refused, and then nothing is cleared.
pub proof fn lemma_clear_register(
    editor: Editor,
    places: options::Places,
    args: ArgsView,
    register: char,
)
    requires
        args.taken == 0,
    ensures
        ({
            let plan = closing::confirmed(Fun::ClearRegister, editor, places, args);
            &&& args.words.len() > 1 ==> plan.steps.len() == 0 && plan.error == Some(
                ":clear-register takes at most 1 argument"@,
            )
            &&& args.words.len() <= 1 && args.raw.len() == 0 ==> plan == (PlanView {
                steps: seq![
                    StepView::Do(Op::ClearRegisters),
                    StepView::SetStatus("All registers cleared"@),
                ],
                error: None,
            })
            &&& args.words.len() == 1 && args.raw.len() > 0 && args.words[0].text == seq![register]
                ==> plan == (PlanView {
                steps: seq![StepView::Do(Op::ClearRegister(register))],
                error: None,
            })
            &&& args.words.len() == 1 && args.raw.len() > 0 && args.words[0].text.len() != 1
                ==> plan.steps.len() == 0 && plan.error == Some(
                "Invalid register "@ + args.words[0].text,
            )
        }),
{
}

/// What is said when a register has been cleared names it, and it is an error if there was
/// nothing in it to clear.
pub proof fn lemma_register_cleared(register: char)
    ensures
        clipboard::register_cleared_plan(register, true) == (PlanView {
            steps: seq![StepView::SetStatus("Register "@ + seq![register] + " cleared"@)],
            error: None,
        }),
        clipboard::register_cleared_plan(register, false) == (PlanView {
            steps: seq![StepView::SetError("Register "@ + seq![register] + " not found"@)],
            error: None,
        }),
{
}

/// `yank-diagnostic` yanks to the register that is named by one character, or to `+` if none is
/// named, and refuses other names.
pub proof fn lemma_yank_diagnostic(
    editor: Editor,
    places: options::Places,
    args: ArgsView,
    register: char,
)
    requires
        args.taken == 0,
    ensures
        ({
            let plan = closing::confirmed(Fun::YankDiagnostic, editor, places, args);
            &&& args.words.len() == 0 ==> plan == (PlanView {
                steps: seq![StepView::Do(Op::YankDiagnostics('+'))],
                error: None,
            })
            &&& args.words.len() > 0 && args.words[0].text == seq![register] ==> plan == (PlanView {
                steps: seq![StepView::Do(Op::YankDiagnostics(register))],
                error: None,
            })
            &&& args.words.len() > 0 && args.words[0].text.len() != 1 ==> plan.steps.len() == 0
                && plan.error == Some("Invalid register "@ + args.words[0].text)
        }),
{
}

proof fn lemma_selected_messages(diagnostics: Seq<Diagnostic>, picked: Seq<int>)
    requires
        forall|k: int, l: int|
            0 <= k < l < picked.len() ==> #[trigger] picked[k] < #[trigger] picked[l],
        forall|k: int|
            0 <= k < picked.len() ==> 0 <= #[trigger] picked[k] < diagnostics.len()
                && diagnostics[picked[k]].selected,
        forall|i: int|
            0 <= i < diagnostics.len() && (#[trigger] diagnostics[i]).selected ==> picked.contains(
                i,
            ),
    ensures
        clipboard::selected_messages(diagnostics) == Seq::new(
            picked.len(),
            |k: int| diagnostics[picked[k]].message@,
        ),
{
    let pred = |d: Diagnostic| d.selected;
    lemma_filter_picked(diagnostics, pred, picked);
    lemma_selected_filter(diagnostics);
    assert(clipboard::selected_messages(diagnostics) =~= Seq::new(
        picked.len(),
        |k: int| diagnostics[picked[k]].message@,
    ));
}

proof fn lemma_selected_filter(diagnostics: Seq<Diagnostic>)
    ensures
        clipboard::selected_messages(diagnostics) == diagnostics.filter(
            |d: Diagnostic| d.selected,
        ).map_values(|d: Diagnostic| d.message@),
    decreases diagnostics.len(),
{
    reveal(Seq::filter);
    if diagnostics.len() > 0 {
        lemma_selected_filter(diagnostics.drop_last());
    }
    assert(clipboard::selected_messages(diagnostics) =~= diagnostics.filter(
        |d: Diagnostic| d.selected,
    ).map_values(|d: Diagnostic| d.message@));
}

/// The messages of the diagnostics under the primary selection are yanked, in their order and
/// without the others, and their number is said. Without any, nothing is yanked.
pub proof fn lemma_diagnostics_yanked(
    register: char,
    diagnostics: Seq<Diagnostic>,
    picked: Seq<int>,
)
    requires
        forall|k: int, l: int|
            0 <= k < l < picked.len() ==> #[trigger] picked[k] < #[trigger] picked[l],
        forall|k: int|
            0 <= k < picked.len() ==> 0 <= #[trigger] picked[k] < diagnostics.len()
                && diagnostics[picked[k]].selected,
        forall|i: int|
            0 <= i < diagnostics.len() && (#[trigger] diagnostics[i]).selected ==> picked.contains(
                i,
            ),
    ensures
        ({
            let plan = clipboard::diagnostics_yanked_plan(register, diagnostics);
            let count = picked.len();
            &&& count == 0 ==> plan == (PlanView {
                steps: Seq::empty(),
                error: Some("No diagnostics under primary selection"@),
            })
            &&& count > 0 ==> {
                &&& plan.error is None
                &&& plan.steps.len() == 2
                &&& plan.steps[0] == (StepView::WriteRegister {
                    register,
                    values: Seq::new(count, |k: int| diagnostics[picked[k]].message@),
                })
                &&& plan.steps[1] == StepView::SetStatus(
                    "Yanked "@ + text::decimal(count) + " diagnostic"@ + (if count == 1 {
                        ""@
                    } else {
                        "s"@
                    }) + " to register "@ + seq![register],
                )
            }
        }),
{
    lemma_selected_messages(diagnostics, picked);
}

} // verus!
