//! Views, lines, themes and what else is seen of the editor.
use vstd::prelude::*;

use crate::args;
use crate::args::{Args, ArgsView, PromptEvent};
use crate::buffers;
use crate::editor::Editor;
use crate::number;
use crate::plan::{Action, Directory, KnownFile, Op, Plan, PlanView, Split, StepView};
use crate::text;

verus! {

/// What `new` does.
pub open spec fn new_file_plan(event: PromptEvent) -> PlanView {
    buffers::on_validate(event, PlanView::doing(Op::NewFile(Split::Replace)))
}

/// Opens an empty document.
pub fn new_file(_editor: &Editor, _args: Args, event: PromptEvent) -> (r: Plan)
    ensures
        r@ == new_file_plan(event),
{
    if event != PromptEvent::Validate {
        return Plan::nothing();
    }
    Plan::doing(Op::NewFile(Split::Replace))
}

/// What `vsplit-new` does.
pub open spec fn vsplit_new_plan(event: PromptEvent) -> PlanView {
    buffers::on_validate(event, PlanView::doing(Op::NewFile(Split::Vertical)))
}

/// Opens an empty document in a view beside the one in focus.
pub fn vsplit_new(_editor: &Editor, _args: Args, event: PromptEvent) -> (r: Plan)
    ensures
        r@ == vsplit_new_plan(event),
{
    if event != PromptEvent::Validate {
        return Plan::nothing();
    }
    Plan::doing(Op::NewFile(Split::Vertical))
}

/// What `hsplit-new` does.
pub open spec fn hsplit_new_plan(event: PromptEvent) -> PlanView {
    buffers::on_validate(event, PlanView::doing(Op::NewFile(Split::Horizontal)))
}

/// Opens an empty document in a view below the one in focus.
pub fn hsplit_new(_editor: &Editor, _args: Args, event: PromptEvent) -> (r: Plan)
    ensures
        r@ == hsplit_new_plan(event),
{
    if event != PromptEvent::Validate {
        return Plan::nothing();
    }
    Plan::doing(Op::NewFile(Split::Horizontal))
}

/// The steps that open files.
pub open spec fn open_each(paths: Seq<Seq<char>>, split: Split) -> Seq<StepView> {
    paths.map_values(|path: Seq<char>| Action::Open { path, split })
}

/// What opening files in further views does: without arguments, the document in focus is shown
/// in one more view.
pub open spec fn split_plan(args: ArgsView, event: PromptEvent, split: Split) -> PlanView {
    buffers::on_validate(
        event,
        if args.is_empty() {
            PlanView::doing(Op::SplitView(split))
        } else {
            PlanView::of(open_each(args::texts(args.left()), split))
        },
    )
}

fn split_with(args: Args, event: PromptEvent, split: Split) -> (r: Plan)
    requires
        args@.wf(),
    ensures
        r@ == split_plan(args@, event, split),
{
    if event != PromptEvent::Validate {
        return Plan::nothing();
    }
    if args.is_empty() {
        return Plan::doing(Op::SplitView(split));
    }
    let paths = args.remaining();
    let ghost all = text::views(paths@);
    let mut plan = Plan::nothing();
    let mut i: usize = 0;
    assert(plan@.steps =~= open_each(all.take(0), split));
    while i < paths.len()
        invariant
            all == text::views(paths@),
            i <= paths.len(),
            plan@ == PlanView::of(open_each(all.take(i as int), split)),
        decreases paths.len() - i,
    {
        plan.push(Action::Open { path: paths[i].clone(), split });
        i = i + 1;
        assert(plan@.steps =~= open_each(all.take(i as int), split));
    }
    assert(all.take(i as int) =~= all);
    plan
}

/// Opens files in views beside the one in focus.
pub fn vsplit(_editor: &Editor, args: Args, event: PromptEvent) -> (r: Plan)
    requires
        args@.wf(),
    ensures
        r@ == split_plan(args@, event, Split::Vertical),
{
    split_with(args, event, Split::Vertical)
}

/// Opens files in views below the one in focus.
pub fn hsplit(_editor: &Editor, args: Args, event: PromptEvent) -> (r: Plan)
    requires
        args@.wf(),
    ensures
        r@ == split_plan(args@, event, Split::Horizontal),
{
    split_with(args, event, Split::Horizontal)
}

/// What `config-open` does.
pub open spec fn open_config_plan(event: PromptEvent) -> PlanView {
    buffers::on_validate(event, PlanView::doing(Op::OpenKnown(KnownFile::Config)))
}

/// Opens the user's configuration.
pub fn open_config(_editor: &Editor, _args: Args, event: PromptEvent) -> (r: Plan)
    ensures
        r@ == open_config_plan(event),
{
    if event != PromptEvent::Validate {
        return Plan::nothing();
    }
    Plan::doing(Op::OpenKnown(KnownFile::Config))
}

/// What `config-open-workspace` does.
pub open spec fn open_workspace_config_plan(event: PromptEvent) -> PlanView {
    buffers::on_validate(event, PlanView::doing(Op::OpenKnown(KnownFile::WorkspaceConfig)))
}

/// Opens the workspace's configuration.
pub fn open_workspace_config(_editor: &Editor, _args: Args, event: PromptEvent) -> (r: Plan)
    ensures
        r@ == open_workspace_config_plan(event),
{
    if event != PromptEvent::Validate {
        return Plan::nothing();
    }
    Plan::doing(Op::OpenKnown(KnownFile::WorkspaceConfig))
}

/// What `log-open` does.
pub open spec fn open_log_plan(event: PromptEvent) -> PlanView {
    buffers::on_validate(event, PlanView::doing(Op::OpenKnown(KnownFile::Log)))
}

/// Opens the log.
pub fn open_log(_editor: &Editor, _args: Args, event: PromptEvent) -> (r: Plan)
    ensures
        r@ == open_log_plan(event),
{
    if event != PromptEvent::Validate {
        return Plan::nothing();
    }
    Plan::doing(Op::OpenKnown(KnownFile::Log))
}

/// What `config-reload` does.
pub open spec fn refresh_config_plan(event: PromptEvent) -> PlanView {
    buffers::on_validate(event, PlanView::doing(Op::RefreshConfig))
}

/// Reads the configuration again.
pub fn refresh_config(_editor: &Editor, _args: Args, event: PromptEvent) -> (r: Plan)
    ensures
        r@ == refresh_config_plan(event),
{
    if event != PromptEvent::Validate {
        return Plan::nothing();
    }
    Plan::doing(Op::RefreshConfig)
}

/// What `redraw` does.
pub open spec fn redraw_plan(event: PromptEvent) -> PlanView {
    buffers::on_validate(event, PlanView::doing(Op::Redraw))
}

/// Draws everything anew.
pub fn redraw(_editor: &Editor, _args: Args, event: PromptEvent) -> (r: Plan)
    ensures
        r@ == redraw_plan(event),
{
    if event != PromptEvent::Validate {
        return Plan::nothing();
    }
    Plan::doing(Op::Redraw)
}

/// What `tutor` does.
pub open spec fn tutor_plan(event: PromptEvent) -> PlanView {
    buffers::on_validate(
        event,
        PlanView::of(
            seq![Action::Do(Op::OpenKnown(KnownFile::Tutor)), Action::Do(Op::UnsetPath)],
        ),
    )
}

/// Opens the tutorial.
pub fn tutor(_editor: &Editor, _args: Args, event: PromptEvent) -> (r: Plan)
    ensures
        r@ == tutor_plan(event),
{
    if event != PromptEvent::Validate {
        return Plan::nothing();
    }
    let mut plan = Plan::doing(Op::OpenKnown(KnownFile::Tutor));
    // Without a path, the tutorial itself is not overwritten by accident.
    plan.push(Action::Do(Op::UnsetPath));
    assert(plan@.steps =~= tutor_plan(event).steps);
    plan
}

/// What taking back the preview of a line does: the selection that was kept is set again.
pub open spec fn abort_preview_plan(editor: Editor) -> PlanView {
    if editor.last_selection {
        PlanView::of(
            seq![
                Action::Do(Op::RestoreSelection),
                Action::Do(Op::EnsureCursorInView(editor.place_spec())),
            ],
        )
    } else {
        PlanView::nothing()
    }
}

fn abort_goto_line_number_preview(editor: &Editor) -> (r: Plan)
    requires
        editor.wf(),
    ensures
        r@ == abort_preview_plan(*editor),
{
    if editor.last_selection {
        let mut plan = Plan::doing(Op::RestoreSelection);
        plan.push(Action::Do(Op::EnsureCursorInView(editor.place())));
        assert(plan@.steps =~= abort_preview_plan(*editor).steps);
        plan
    } else {
        Plan::nothing()
    }
}

/// The line of a number; there is none of number zero.
pub open spec fn line_of(n: nat) -> Option<usize> {
    if n == 0 {
        None
    } else {
        Some(n as usize)
    }
}

/// The step that keeps the selection, unless one is kept already.
pub open spec fn keep_steps(editor: Editor) -> Seq<StepView> {
    if editor.last_selection {
        Seq::empty()
    } else {
        seq![Action::Do(Op::KeepSelection)]
    }
}

/// What the preview of a line does.
pub open spec fn update_preview_plan(editor: Editor, args: ArgsView) -> PlanView {
    match number::unsigned(args.next()->0, usize::MAX as nat) {
        Ok(n) => PlanView::of(
            keep_steps(editor) + seq![
                Action::Do(Op::GotoLine(line_of(n))),
                Action::Do(Op::EnsureCursorInView(editor.place_spec())),
            ],
        ),
        Err(error) => PlanView { steps: keep_steps(editor), error: Some(error.message_spec()) },
    }
}

fn update_goto_line_number_preview(editor: &Editor, args: Args) -> (r: Plan)
    requires
        editor.wf(),
        args@.next() is Some,
    ensures
        r@ == update_preview_plan(*editor, args@),
{
    let ghost given = args@;
    let mut args = args;
    let mut plan = if editor.last_selection {
        Plan::nothing()
    } else {
        Plan::doing(Op::KeepSelection)
    };
    assert(plan@.steps =~= keep_steps(*editor));
    match args.next() {
        Some(arg) => match number::parse_usize(arg.as_str()) {
            Ok(n) => {
                let line = if n == 0 {
                    None
                } else {
                    Some(n)
                };
                plan.push(Action::Do(Op::GotoLine(line)));
                plan.push(Action::Do(Op::EnsureCursorInView(editor.place())));
                assert(plan@.steps =~= update_preview_plan(*editor, given).steps);
                plan
            },
            Err(error) => plan.followed_by(Plan::failing(error.message().as_str())),
        },
        None => plan,
    }
}

/// What `goto` does.
pub open spec fn goto_line_number_plan(
    editor: Editor,
    args: ArgsView,
    event: PromptEvent,
) -> PlanView {
    match event {
        PromptEvent::Abort => abort_preview_plan(editor),
        PromptEvent::Validate => if args.is_empty() {
            PlanView::failing("Line number required"@)
        } else {
            update_preview_plan(editor, args).followed_by(
                PlanView::doing(Op::JumpFromSelection),
            )
        },
        PromptEvent::Update => if args.is_empty() {
            abort_preview_plan(editor)
        } else {
            update_preview_plan(editor, args)
        },
    }
}

/// Goes to a line, which is previewed while its number is being typed.
pub fn goto_line_number(editor: &Editor, args: Args, event: PromptEvent) -> (r: Plan)
    requires
        editor.wf(),
        !(event is Abort) && !args@.is_empty() ==> args@.next() is Some,
    ensures
        r@ == goto_line_number_plan(*editor, args@, event),
{
    match event {
        PromptEvent::Abort => abort_goto_line_number_preview(editor),
        PromptEvent::Validate => {
            if args.is_empty() {
                return Plan::failing("Line number required");
            }
            // Without the prompt, the input is confirmed with no preview before. Ensure that
            // the cursor is moved.
            update_goto_line_number_preview(editor, args).followed_by(
                Plan::doing(Op::JumpFromSelection),
            )
        },
        // When the number has been deleted, the selection from before comes back. A number
        // typed after that starts a new preview.
        PromptEvent::Update => if args.is_empty() {
            abort_goto_line_number_preview(editor)
        } else {
            update_goto_line_number_preview(editor, args)
        },
    }
}

/// Whether a selection is kept after some steps; nothing if a step needs one and none is kept.
pub open spec fn kept_after(steps: Seq<StepView>, kept: bool) -> Option<bool>
    decreases steps.len(),
{
    if steps.len() == 0 {
        Some(kept)
    } else {
        match (kept_after(steps.drop_last(), kept), steps.last()) {
            (None, _) => None,
            (Some(_), Action::Do(Op::KeepSelection)) => Some(true),
            (Some(now), Action::Do(Op::RestoreSelection)) => if now {
                Some(false)
            } else {
                None
            },
            (Some(now), Action::Do(Op::JumpFromSelection)) => if now {
                Some(false)
            } else {
                None
            },
            (Some(now), _) => Some(now),
        }
    }
}

proof fn lemma_kept_after_add(a: Seq<StepView>, b: Seq<StepView>, kept: bool)
    ensures
        kept_after(a + b, kept) == (match kept_after(a, kept) {
            Some(now) => kept_after(b, now),
            None => None::<bool>,
        }),
    decreases b.len(),
{
    if b.len() == 0 {
        assert(a + b =~= a);
    } else {
        assert((a + b).drop_last() =~= a + b.drop_last());
        lemma_kept_after_add(a, b.drop_last(), kept);
    }
}

proof fn lemma_kept_after_one(step: StepView, kept: bool)
    ensures
        kept_after(seq![step], kept) == (match step {
            Action::Do(Op::KeepSelection) => Some(true),
            Action::Do(Op::RestoreSelection) => if kept {
                Some(false)
            } else {
                None
            },
            Action::Do(Op::JumpFromSelection) => if kept {
                Some(false)
            } else {
                None
            },
            _ => Some(kept),
        }),
{
    assert(seq![step].drop_last() =~= Seq::<StepView>::empty());
    assert(kept_after(Seq::<StepView>::empty(), kept) == Some(kept));
}

proof fn lemma_kept_after_preview(editor: Editor, args: ArgsView)
    ensures
        kept_after(update_preview_plan(editor, args).steps, editor.last_selection) == Some(true),
{
    let kept = editor.last_selection;
    let keep = keep_steps(editor);
    if kept {
        assert(kept_after(keep, kept) == Some(true));
    } else {
        lemma_kept_after_one(Action::Do(Op::KeepSelection), kept);
    }
    if number::unsigned(args.next()->0, usize::MAX as nat) is Ok {
        let go: StepView = Action::Do(
            Op::GotoLine(line_of(number::unsigned(args.next()->0, usize::MAX as nat)->Ok_0)),
        );
        let scroll: StepView = Action::Do(Op::EnsureCursorInView(editor.place_spec()));
        lemma_kept_after_add(keep, seq![go, scroll], kept);
        lemma_kept_after_add(seq![go], seq![scroll], true);
        lemma_kept_after_one(go, true);
        lemma_kept_after_one(scroll, true);
        assert(seq![go] + seq![scroll] =~= seq![go, scroll]);
    }
}

/// The preview of a line keeps the selection from before while a number is being typed. It is
/// set again when the prompt is closed or the number deleted, and dropped when the input is
/// confirmed. A step that needs the kept selection comes only when there is one.
pub proof fn lemma_goto_keeps_selection(editor: Editor, args: ArgsView, event: PromptEvent)
    ensures
        kept_after(goto_line_number_plan(editor, args, event).steps, editor.last_selection)
            == Some(
            match event {
                PromptEvent::Abort => false,
                PromptEvent::Update => !args.is_empty(),
                PromptEvent::Validate => if args.is_empty() {
                    editor.last_selection
                } else {
                    update_preview_plan(editor, args).error is Some
                },
            },
        ),
{
    let kept = editor.last_selection;
    let restore: StepView = Action::Do(Op::RestoreSelection);
    let scroll: StepView = Action::Do(Op::EnsureCursorInView(editor.place_spec()));
    lemma_kept_after_preview(editor, args);
    lemma_kept_after_add(seq![restore], seq![scroll], kept);
    lemma_kept_after_one(restore, kept);
    lemma_kept_after_one(scroll, false);
    assert(seq![restore] + seq![scroll] =~= seq![restore, scroll]);
    let jump: StepView = Action::Do(Op::JumpFromSelection);
    lemma_kept_after_add(update_preview_plan(editor, args).steps, seq![jump], kept);
    lemma_kept_after_one(jump, true);
}

/// What `theme` does. A theme is previewed while its name is being typed.
pub open spec fn theme_plan(editor: Editor, args: ArgsView, event: PromptEvent) -> PlanView {
    match event {
        PromptEvent::Abort => PlanView::doing(Op::UnsetThemePreview),
        PromptEvent::Update => if args.is_empty() {
            PlanView::doing(Op::UnsetThemePreview)
        } else {
            match args.next() {
                Some(name) => PlanView::of(seq![Action::PreviewTheme(name)]),
                None => PlanView::nothing(),
            }
        },
        PromptEvent::Validate => match args.next() {
            Some(name) => PlanView::of(seq![Action::ChooseTheme(name)]),
            None => PlanView::status(editor.theme_name@),
        },
    }
}

/// Sets the theme, or shows its name when there is no argument.
pub fn theme(editor: &Editor, args: Args, event: PromptEvent) -> (r: Plan)
    ensures
        r@ == theme_plan(*editor, args@, event),
{
    let mut args = args;
    match event {
        PromptEvent::Abort => Plan::doing(Op::UnsetThemePreview),
        PromptEvent::Update => if args.is_empty() {
            // Ensures that a preview is taken back when the name has been deleted.
            Plan::doing(Op::UnsetThemePreview)
        } else {
            match args.next() {
                Some(name) => Plan::one(Action::PreviewTheme(name)),
                None => Plan::nothing(),
            }
        },
        PromptEvent::Validate => match args.next() {
            Some(name) => Plan::one(Action::ChooseTheme(name)),
            None => Plan::status(editor.theme_name.as_str()),
        },
    }
}

/// A step with the theme that was loaded, if the terminal can show it.
pub open spec fn shown_theme(editor: Editor, is_16_color: bool, op: Op) -> PlanView {
    if editor.true_color || is_16_color {
        PlanView::doing(op)
    } else {
        PlanView::failing("Unsupported theme: theme requires true color support"@)
    }
}

fn show_theme(editor: &Editor, is_16_color: bool, op: Op) -> (r: Plan)
    ensures
        r@ == shown_theme(*editor, is_16_color, op),
{
    if editor.true_color || is_16_color {
        Plan::doing(op)
    } else {
        Plan::failing("Unsupported theme: theme requires true color support")
    }
}

/// What is done with a theme that was loaded for a preview.
pub open spec fn theme_previewed_plan(editor: Editor, is_16_color: Option<bool>) -> PlanView {
    match is_16_color {
        Some(is_16_color) => shown_theme(editor, is_16_color, Op::SetThemePreview),
        None => PlanView::nothing(),
    }
}

/// Goes on with the preview of a theme when it is known whether the theme, if it could be loaded,
/// makes do with sixteen colors.
pub fn theme_previewed(editor: &Editor, is_16_color: Option<bool>) -> (r: Plan)
    ensures
        r@ == theme_previewed_plan(*editor, is_16_color),
{
    match is_16_color {
        Some(is_16_color) => show_theme(editor, is_16_color, Op::SetThemePreview),
        None => Plan::nothing(),
    }
}

/// What is done with a theme that was loaded to be set.
pub open spec fn theme_chosen_plan(
    editor: Editor,
    is_16_color: Result<bool, Seq<char>>,
) -> PlanView {
    match is_16_color {
        Ok(is_16_color) => shown_theme(editor, is_16_color, Op::SetTheme),
        Err(error) => PlanView::failing("Could not load theme: "@ + error),
    }
}

/// Goes on with `theme` when it is known whether the theme makes do with sixteen colors, or why
/// it could not be loaded.
pub fn theme_chosen(editor: &Editor, is_16_color: Result<bool, String>) -> (r: Plan)
    ensures
        r@ == theme_chosen_plan(
            *editor,
            match is_16_color {
                Ok(is_16_color) => Ok(is_16_color),
                Err(error) => Err(error@),
            },
        ),
{
    match is_16_color {
        Ok(is_16_color) => show_theme(editor, is_16_color, Op::SetTheme),
        Err(error) => {
            let mut message = "Could not load theme: ".to_owned();
            message.append(error.as_str());
            Plan::failing(message.as_str())
        },
    }
}

/// What `change-current-directory` does.
pub open spec fn change_current_directory_plan(
    editor: Editor,
    args: ArgsView,
    event: PromptEvent,
) -> PlanView {
    buffers::on_validate(
        event,
        match args.next() {
            Some(path) => if path == "-"@ {
                match editor.last_cwd {
                    Some(last) => PlanView::of(
                        seq![Action::ChangeDirectory(Directory::Path(last@))],
                    ),
                    None => PlanView::failing("No previous working directory"@),
                }
            } else {
                PlanView::of(seq![Action::ChangeDirectory(Directory::Tilde(path))])
            },
            None => PlanView::of(seq![Action::ChangeDirectory(Directory::Home)]),
        },
    )
}

/// Changes the working directory: to the home directory when there is no argument, and to the
/// one before the last change when it is a hyphen.
pub fn change_current_directory(editor: &Editor, args: Args, event: PromptEvent) -> (r: Plan)
    ensures
        r@ == change_current_directory_plan(*editor, args@, event),
{
    if event != PromptEvent::Validate {
        return Plan::nothing();
    }
    let mut args = args;
    match args.next() {
        Some(path) => if text::same(path.as_str(), "-") {
            match &editor.last_cwd {
                Some(last) => Plan::one(Action::ChangeDirectory(Directory::Path(last.clone()))),
                None => Plan::failing("No previous working directory"),
            }
        } else {
            Plan::one(Action::ChangeDirectory(Directory::Tilde(path)))
        },
        None => Plan::one(Action::ChangeDirectory(Directory::Home)),
    }
}

/// What is said when the working directory has been changed.
pub open spec fn directory_changed_plan(cwd: Seq<char>) -> PlanView {
    PlanView::status("Current working directory is now "@ + cwd)
}

/// Goes on with `change_current_directory` when the working directory has been changed.
pub fn directory_changed(cwd: &str) -> (r: Plan)
    ensures
        r@ == directory_changed_plan(cwd@),
{
    let mut message = "Current working directory is now ".to_owned();
    message.append(cwd);
    Plan::status(message.as_str())
}

/// What `show-directory` does.
pub open spec fn show_current_directory_plan(event: PromptEvent) -> PlanView {
    buffers::on_validate(event, PlanView::doing(Op::ShowDirectory))
}

/// Shows the working directory.
pub fn show_current_directory(_editor: &Editor, _args: Args, event: PromptEvent) -> (r: Plan)
    ensures
        r@ == show_current_directory_plan(event),
{
    if event != PromptEvent::Validate {
        return Plan::nothing();
    }
    Plan::doing(Op::ShowDirectory)
}

/// What is said about the working directory.
pub open spec fn show_directory_plan(cwd: Seq<char>, exists: bool) -> PlanView {
    let message = "Current working directory is "@ + cwd;
    if exists {
        PlanView::status(message)
    } else {
        PlanView::of(seq![Action::SetError(message + " (deleted)"@)])
    }
}

/// Goes on with `show_current_directory` when the working directory is known, and whether it
/// still exists.
pub fn show_directory(cwd: &str, exists: bool) -> (r: Plan)
    ensures
        r@ == show_directory_plan(cwd@, exists),
{
    let mut message = "Current working directory is ".to_owned();
    message.append(cwd);
    if exists {
        Plan::status(message.as_str())
    } else {
        message.append(" (deleted)");
        Plan::one(Action::SetError(message))
    }
}

/// What `debug-eval` does.
pub open spec fn debug_eval_plan(editor: Editor, args: ArgsView, event: PromptEvent) -> PlanView {
    buffers::on_validate(
        event,
        match editor.debugger {
            Some(debugger) => match (debugger.active_frame, debugger.thread_id) {
                (Some(frame), Some(thread)) => PlanView::of(
                    seq![Action::DebugEval { thread, frame, expression: args.raw }],
                ),
                _ => PlanView::failing("Cannot find current stack frame to access variables"@),
            },
            None => PlanView::nothing(),
        },
    )
}

/// Evaluates an expression where the debugger has stopped.
pub fn debug_eval(editor: &Editor, args: Args, event: PromptEvent) -> (r: Plan)
    ensures
        r@ == debug_eval_plan(*editor, args@, event),
{
    if event != PromptEvent::Validate {
        return Plan::nothing();
    }
    match editor.debugger {
        Some(debugger) => match (debugger.active_frame, debugger.thread_id) {
            (Some(frame), Some(thread)) => Plan::one(
                Action::DebugEval { thread, frame, expression: args.raw },
            ),
            _ => Plan::failing("Cannot find current stack frame to access variables"),
        },
        None => Plan::nothing(),
    }
}

/// What `debug-start` does.
pub open spec fn debug_start_plan(args: ArgsView, event: PromptEvent) -> PlanView {
    buffers::on_validate(
        event,
        PlanView::of(
            seq![
                Action::DebugStart {
                    template: args.next(),
                    address: None,
                    params: args::texts(args.advanced().left()),
                },
            ],
        ),
    )
}

/// Starts a debug session from a template with parameters.
pub fn debug_start(_editor: &Editor, args: Args, event: PromptEvent) -> (r: Plan)
    requires
        args@.wf(),
    ensures
        r@ == debug_start_plan(args@, event),
{
    if event != PromptEvent::Validate {
        return Plan::nothing();
    }
    let mut args = args;
    let template = args.next();
    let params = args.remaining();
    Plan::one(Action::DebugStart { template, address: None, params })
}

/// What `debug-remote` does.
pub open spec fn debug_remote_plan(args: ArgsView, event: PromptEvent) -> PlanView {
    buffers::on_validate(
        event,
        PlanView::of(
            seq![
                Action::DebugStart {
                    template: args.advanced().next(),
                    address: args.next(),
                    params: args::texts(args.advanced().advanced().left()),
                },
            ],
        ),
    )
}

/// Starts a debug session at an address, from a template with parameters.
pub fn debug_remote(_editor: &Editor, args: Args, event: PromptEvent) -> (r: Plan)
    requires
        args@.wf(),
    ensures
        r@ == debug_remote_plan(args@, event),
{
    if event != PromptEvent::Validate {
        return Plan::nothing();
    }
    let mut args = args;
    let address = args.next();
    let template = args.next();
    let params = args.remaining();
    Plan::one(Action::DebugStart { template, address, params })
}

} // verus!
