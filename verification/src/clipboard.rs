//! Registers and the clipboards.
use vstd::prelude::*;

use crate::args::{Args, ArgsView, PromptEvent};
use crate::buffers;
use crate::editor::Editor;
use crate::plan::{Action, Op, Paste, Plan, PlanView};
use crate::text;

verus! {

/// The register of the system clipboard.
pub const CLIPBOARD: char = '+';

/// The register of the primary clipboard.
pub const PRIMARY_CLIPBOARD: char = '*';

/// The register that is used when none is selected.
pub const DEFAULT_REGISTER: char = '"';

/// What `clipboard-yank` does.
pub open spec fn yank_main_selection_to_clipboard_plan(event: PromptEvent) -> PlanView {
    buffers::on_validate(event, PlanView::doing(Op::YankPrimary(CLIPBOARD)))
}

/// Yanks the primary selection to the system clipboard.
pub fn yank_main_selection_to_clipboard(
    _editor: &Editor,
    _args: Args,
    event: PromptEvent,
) -> (r: Plan)
    ensures
        r@ == yank_main_selection_to_clipboard_plan(event),
{
    if event != PromptEvent::Validate {
        return Plan::nothing();
    }
    Plan::doing(Op::YankPrimary(CLIPBOARD))
}

/// What `primary-clipboard-yank` does.
pub open spec fn yank_main_selection_to_primary_clipboard_plan(event: PromptEvent) -> PlanView {
    buffers::on_validate(event, PlanView::doing(Op::YankPrimary(PRIMARY_CLIPBOARD)))
}

/// Yanks the primary selection to the primary clipboard.
pub fn yank_main_selection_to_primary_clipboard(
    _editor: &Editor,
    _args: Args,
    event: PromptEvent,
) -> (r: Plan)
    ensures
        r@ == yank_main_selection_to_primary_clipboard_plan(event),
{
    if event != PromptEvent::Validate {
        return Plan::nothing();
    }
    Plan::doing(Op::YankPrimary(PRIMARY_CLIPBOARD))
}

/// The register that is selected, or else the default one.
pub open spec fn register_of(editor: Editor) -> char {
    match editor.selected_register {
        Some(register) => register,
        None => DEFAULT_REGISTER,
    }
}

fn selected_register(editor: &Editor) -> (r: char)
    ensures
        r == register_of(*editor),
{
    match editor.selected_register {
        Some(register) => register,
        None => DEFAULT_REGISTER,
    }
}

/// What stands between joined selections: the first argument, or else a newline as the document
/// in focus has it.
pub open spec fn join_separator(editor: Editor, args: ArgsView) -> Seq<char> {
    match args.next() {
        Some(separator) => separator,
        None => editor.doc_spec().line_ending.chars(),
    }
}

/// Yanking the selections, joined, to a register.
pub open spec fn yank_joined_to(editor: Editor, args: ArgsView, register: char) -> PlanView {
    PlanView::of(
        seq![Action::YankJoined { separator: join_separator(editor, args), register }],
    )
}

fn yank_joined_impl(editor: &Editor, args: Args, register: char) -> (r: Plan)
    requires
        editor.wf(),
    ensures
        r@ == yank_joined_to(*editor, args@, register),
{
    let mut args = args;
    let separator = match args.next() {
        Some(separator) => separator,
        None => editor.doc().line_ending.text(),
    };
    Plan::one(Action::YankJoined { separator, register })
}

/// What `yank-join` does.
pub open spec fn yank_joined_plan(
    editor: Editor,
    args: ArgsView,
    event: PromptEvent,
) -> PlanView {
    buffers::on_validate(event, yank_joined_to(editor, args, register_of(editor)))
}

/// Yanks the selections, joined, to the selected register.
pub fn yank_joined(editor: &Editor, args: Args, event: PromptEvent) -> (r: Plan)
    requires
        editor.wf(),
    ensures
        r@ == yank_joined_plan(*editor, args@, event),
{
    if event != PromptEvent::Validate {
        return Plan::nothing();
    }
    yank_joined_impl(editor, args, selected_register(editor))
}

/// What `clipboard-yank-join` does.
pub open spec fn yank_joined_to_clipboard_plan(
    editor: Editor,
    args: ArgsView,
    event: PromptEvent,
) -> PlanView {
    buffers::on_validate(event, yank_joined_to(editor, args, CLIPBOARD))
}

/// Yanks the selections, joined, to the system clipboard.
pub fn yank_joined_to_clipboard(editor: &Editor, args: Args, event: PromptEvent) -> (r: Plan)
    requires
        editor.wf(),
    ensures
        r@ == yank_joined_to_clipboard_plan(*editor, args@, event),
{
    if event != PromptEvent::Validate {
        return Plan::nothing();
    }
    yank_joined_impl(editor, args, CLIPBOARD)
}

/// What `primary-clipboard-yank-join` does.
pub open spec fn yank_joined_to_primary_clipboard_plan(
    editor: Editor,
    args: ArgsView,
    event: PromptEvent,
) -> PlanView {
    buffers::on_validate(event, yank_joined_to(editor, args, PRIMARY_CLIPBOARD))
}

/// Yanks the selections, joined, to the primary clipboard.
pub fn yank_joined_to_primary_clipboard(editor: &Editor, args: Args, event: PromptEvent) -> (r: Plan)
    requires
        editor.wf(),
    ensures
        r@ == yank_joined_to_primary_clipboard_plan(*editor, args@, event),
{
    if event != PromptEvent::Validate {
        return Plan::nothing();
    }
    yank_joined_impl(editor, args, PRIMARY_CLIPBOARD)
}

/// What `clipboard-paste-after` does.
pub open spec fn paste_clipboard_after_plan(event: PromptEvent) -> PlanView {
    buffers::on_validate(
        event,
        PlanView::doing(Op::Paste { register: CLIPBOARD, side: Paste::After, count: 1 }),
    )
}

/// Pastes the system clipboard after the selections.
pub fn paste_clipboard_after(_editor: &Editor, _args: Args, event: PromptEvent) -> (r: Plan)
    ensures
        r@ == paste_clipboard_after_plan(event),
{
    if event != PromptEvent::Validate {
        return Plan::nothing();
    }
    Plan::doing(Op::Paste { register: CLIPBOARD, side: Paste::After, count: 1 })
}

/// What `clipboard-paste-before` does.
pub open spec fn paste_clipboard_before_plan(event: PromptEvent) -> PlanView {
    buffers::on_validate(
        event,
        PlanView::doing(Op::Paste { register: CLIPBOARD, side: Paste::Before, count: 1 }),
    )
}

/// Pastes the system clipboard before the selections.
pub fn paste_clipboard_before(_editor: &Editor, _args: Args, event: PromptEvent) -> (r: Plan)
    ensures
        r@ == paste_clipboard_before_plan(event),
{
    if event != PromptEvent::Validate {
        return Plan::nothing();
    }
    Plan::doing(Op::Paste { register: CLIPBOARD, side: Paste::Before, count: 1 })
}

/// What `clipboard-paste-replace` does.
pub open spec fn replace_selections_with_clipboard_plan(event: PromptEvent) -> PlanView {
    buffers::on_validate(
        event,
        PlanView::doing(Op::ReplaceWithYanked { register: CLIPBOARD, count: 1 }),
    )
}

/// Replaces the selections with the system clipboard.
pub fn replace_selections_with_clipboard(
    _editor: &Editor,
    _args: Args,
    event: PromptEvent,
) -> (r: Plan)
    ensures
        r@ == replace_selections_with_clipboard_plan(event),
{
    if event != PromptEvent::Validate {
        return Plan::nothing();
    }
    Plan::doing(Op::ReplaceWithYanked { register: CLIPBOARD, count: 1 })
}

/// What `primary-clipboard-paste-after` does.
pub open spec fn paste_primary_clipboard_after_plan(event: PromptEvent) -> PlanView {
    buffers::on_validate(
        event,
        PlanView::doing(Op::Paste { register: PRIMARY_CLIPBOARD, side: Paste::After, count: 1 }),
    )
}

/// Pastes the primary clipboard after the selections.
pub fn paste_primary_clipboard_after(_editor: &Editor, _args: Args, event: PromptEvent) -> (r: Plan)
    ensures
        r@ == paste_primary_clipboard_after_plan(event),
{
    if event != PromptEvent::Validate {
        return Plan::nothing();
    }
    Plan::doing(Op::Paste { register: PRIMARY_CLIPBOARD, side: Paste::After, count: 1 })
}

/// What `primary-clipboard-paste-before` does.
pub open spec fn paste_primary_clipboard_before_plan(event: PromptEvent) -> PlanView {
    buffers::on_validate(
        event,
        PlanView::doing(Op::Paste { register: PRIMARY_CLIPBOARD, side: Paste::Before, count: 1 }),
    )
}

/// Pastes the primary clipboard before the selections.
pub fn paste_primary_clipboard_before(
    _editor: &Editor,
    _args: Args,
    event: PromptEvent,
) -> (r: Plan)
    ensures
        r@ == paste_primary_clipboard_before_plan(event),
{
    if event != PromptEvent::Validate {
        return Plan::nothing();
    }
    Plan::doing(Op::Paste { register: PRIMARY_CLIPBOARD, side: Paste::Before, count: 1 })
}

/// What `primary-clipboard-paste-replace` does.
pub open spec fn replace_selections_with_primary_clipboard_plan(event: PromptEvent) -> PlanView {
    buffers::on_validate(
        event,
        PlanView::doing(Op::ReplaceWithYanked { register: PRIMARY_CLIPBOARD, count: 1 }),
    )
}

/// Replaces the selections with the primary clipboard.
pub fn replace_selections_with_primary_clipboard(
    _editor: &Editor,
    _args: Args,
    event: PromptEvent,
) -> (r: Plan)
    ensures
        r@ == replace_selections_with_primary_clipboard_plan(event),
{
    if event != PromptEvent::Validate {
        return Plan::nothing();
    }
    Plan::doing(Op::ReplaceWithYanked { register: PRIMARY_CLIPBOARD, count: 1 })
}

/// What `show-clipboard-provider` does.
pub open spec fn show_clipboard_provider_plan(editor: Editor, event: PromptEvent) -> PlanView {
    buffers::on_validate(event, PlanView::status(editor.clipboard_provider@))
}

/// Shows what provides the clipboards.
pub fn show_clipboard_provider(editor: &Editor, _args: Args, event: PromptEvent) -> (r: Plan)
    ensures
        r@ == show_clipboard_provider_plan(*editor, event),
{
    if event != PromptEvent::Validate {
        return Plan::nothing();
    }
    Plan::status(editor.clipboard_provider.as_str())
}

/// The error for a text that names no register.
pub open spec fn invalid_register(name: Seq<char>) -> Seq<char> {
    "Invalid register "@ + name
}

/// The register of a name: its only character.
pub open spec fn named_register(name: Seq<char>) -> Option<char> {
    if name.len() == 1 {
        Some(name[0])
    } else {
        None
    }
}

fn register_named(name: &str) -> (r: Result<char, Plan>)
    ensures
        match r {
            Ok(register) => named_register(name@) == Some(register),
            Err(plan) => named_register(name@) is None && plan@ == PlanView::failing(
                invalid_register(name@),
            ),
        },
{
    let chars = text::chars_of(name);
    if chars.len() == 1 {
        Ok(chars[0])
    } else {
        let mut message = "Invalid register ".to_owned();
        message.append(name);
        Err(Plan::failing(message.as_str()))
    }
}

/// What `clear-register` does.
pub open spec fn clear_register_plan(args: ArgsView, event: PromptEvent) -> PlanView {
    buffers::on_validate(
        event,
        if args.words.len() > 1 {
            PlanView::failing(":clear-register takes at most 1 argument"@)
        } else if args.is_empty() {
            PlanView::of(
                seq![
                    Action::Do(Op::ClearRegisters),
                    Action::SetStatus("All registers cleared"@),
                ],
            )
        } else {
            match named_register(args.next()->0) {
                Some(register) => PlanView::doing(Op::ClearRegister(register)),
                None => PlanView::failing(invalid_register(args.next()->0)),
            }
        },
    )
}

/// Clears a register, or all of them when there is no argument.
pub fn clear_register(_editor: &Editor, args: Args, event: PromptEvent) -> (r: Plan)
    requires
        args@.taken == 0,
        event is Validate && !args@.is_empty() ==> args@.words.len() > 0,
    ensures
        r@ == clear_register_plan(args@, event),
{
    if event != PromptEvent::Validate {
        return Plan::nothing();
    }
    if args.arg_count() > 1 {
        return Plan::failing(":clear-register takes at most 1 argument");
    }
    if args.is_empty() {
        let mut plan = Plan::doing(Op::ClearRegisters);
        plan.push(Action::SetStatus("All registers cleared".to_owned()));
        assert(plan@.steps =~= clear_register_plan(args@, event).steps);
        return plan;
    }
    let mut args = args;
    match args.next() {
        Some(name) => match register_named(name.as_str()) {
            Ok(register) => Plan::doing(Op::ClearRegister(register)),
            Err(plan) => plan,
        },
        None => Plan::nothing(),
    }
}

/// What is said when a register has been cleared, if there was one.
pub open spec fn register_cleared_plan(register: char, found: bool) -> PlanView {
    if found {
        PlanView::status("Register "@ + seq![register] + " cleared"@)
    } else {
        PlanView::of(seq![Action::SetError("Register "@ + seq![register] + " not found"@)])
    }
}

/// Goes on with `clear_register` when it is known whether there was such a register.
pub fn register_cleared(register: char, found: bool) -> (r: Plan)
    ensures
        r@ == register_cleared_plan(register, found),
{
    let mut message = "Register ".to_owned();
    message.push(register);
    assert(message@ =~= "Register "@ + seq![register]);
    if found {
        message.append(" cleared");
        Plan::status(message.as_str())
    } else {
        message.append(" not found");
        Plan::one(Action::SetError(message))
    }
}

/// What `yank-diagnostic` does.
pub open spec fn yank_diagnostic_plan(args: ArgsView, event: PromptEvent) -> PlanView {
    buffers::on_validate(
        event,
        match args.next() {
            Some(name) => match named_register(name) {
                Some(register) => PlanView::doing(Op::YankDiagnostics(register)),
                None => PlanView::failing(invalid_register(name)),
            },
            None => PlanView::doing(Op::YankDiagnostics(CLIPBOARD)),
        },
    )
}

/// Yanks the diagnostics under the primary selection to a register, or to the system clipboard
/// when there is no argument.
pub fn yank_diagnostic(_editor: &Editor, args: Args, event: PromptEvent) -> (r: Plan)
    ensures
        r@ == yank_diagnostic_plan(args@, event),
{
    if event != PromptEvent::Validate {
        return Plan::nothing();
    }
    let mut args = args;
    match args.next() {
        Some(name) => match register_named(name.as_str()) {
            Ok(register) => Plan::doing(Op::YankDiagnostics(register)),
            Err(plan) => plan,
        },
        None => Plan::doing(Op::YankDiagnostics(CLIPBOARD)),
    }
}

/// A diagnostic of the document in focus.
#[derive(Debug, PartialEq, Eq)]
pub struct Diagnostic {
    /// What it says.
    pub message: String,
    /// Whether it overlaps with the primary selection.
    pub selected: bool,
}

/// What the diagnostics say that overlap with the primary selection.
pub open spec fn selected_messages(diagnostics: Seq<Diagnostic>) -> Seq<Seq<char>>
    decreases diagnostics.len(),
{
    if diagnostics.len() == 0 {
        Seq::empty()
    } else if diagnostics.last().selected {
        selected_messages(diagnostics.drop_last()).push(diagnostics.last().message@)
    } else {
        selected_messages(diagnostics.drop_last())
    }
}

/// What is done with the diagnostics of the document in focus.
pub open spec fn diagnostics_yanked_plan(register: char, diagnostics: Seq<Diagnostic>) -> PlanView {
    let values = selected_messages(diagnostics);
    let count = values.len();
    if count == 0 {
        PlanView::failing("No diagnostics under primary selection"@)
    } else {
        PlanView::of(
            seq![
                Action::WriteRegister { register, values },
                Action::SetStatus(
                    "Yanked "@ + text::decimal(count) + " diagnostic"@ + text::plural(count)
                        + " to register "@ + seq![register],
                ),
            ],
        )
    }
}

/// Goes on with `yank_diagnostic` when the diagnostics of the document in focus are known.
pub fn diagnostics_yanked(register: char, diagnostics: &Vec<Diagnostic>) -> (r: Plan)
    ensures
        r@ == diagnostics_yanked_plan(register, diagnostics@),
{
    let mut values: Vec<String> = Vec::new();
    let mut i: usize = 0;
    while i < diagnostics.len()
        invariant
            i <= diagnostics.len(),
            text::views(values@) == selected_messages(diagnostics@.take(i as int)),
        decreases diagnostics.len() - i,
    {
        assert(diagnostics@.take(i + 1).drop_last() =~= diagnostics@.take(i as int));
        if diagnostics[i].selected {
            values.push(diagnostics[i].message.clone());
        }
        i = i + 1;
        assert(text::views(values@) =~= selected_messages(diagnostics@.take(i as int)));
    }
    assert(diagnostics@.take(i as int) =~= diagnostics@);
    let count = values.len();
    if count == 0 {
        return Plan::failing("No diagnostics under primary selection");
    }
    let mut message = "Yanked ".to_owned();
    message.append(text::to_decimal(count).as_str());
    message.append(" diagnostic");
    message.append(text::plural_ending(count));
    message.append(" to register ");
    let ghost before = message@;
    message.push(register);
    assert(message@ =~= before + seq![register]);
    let mut plan = Plan::one(Action::WriteRegister { register, values });
    plan.push(Action::SetStatus(message));
    assert(plan@.steps =~= diagnostics_yanked_plan(register, diagnostics@).steps);
    plan
}

} // verus!
