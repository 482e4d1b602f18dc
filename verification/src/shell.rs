//! Shell commands.
use vstd::prelude::*;

use crate::args::{Args, ArgsView, PromptEvent};
use crate::buffers;
use crate::editor::Editor;
use crate::plan::{Action, Plan, PlanView, Position, ShellBehavior};
use crate::text;

verus! {

/// What giving the selections to a shell command does.
pub open spec fn pipe_impl_plan(
    args: ArgsView,
    event: PromptEvent,
    behavior: ShellBehavior,
) -> PlanView {
    buffers::on_validate(
        event,
        if args.is_empty() {
            PlanView::failing("Shell command required"@)
        } else {
            PlanView::of(seq![Action::Shell { command: args.raw, behavior }])
        },
    )
}

fn pipe_impl(args: Args, event: PromptEvent, behavior: ShellBehavior) -> (r: Plan)
    ensures
        r@ == pipe_impl_plan(args@, event, behavior),
{
    if event != PromptEvent::Validate {
        return Plan::nothing();
    }
    if args.is_empty() {
        return Plan::failing("Shell command required");
    }
    Plan::one(Action::Shell { command: args.raw, behavior })
}

/// Runs a shell command and puts its output after each selection.
pub fn append_output(_editor: &Editor, args: Args, event: PromptEvent) -> (r: Plan)
    ensures
        r@ == pipe_impl_plan(args@, event, ShellBehavior::Append),
{
    pipe_impl(args, event, ShellBehavior::Append)
}

/// Runs a shell command and puts its output before each selection.
pub fn insert_output(_editor: &Editor, args: Args, event: PromptEvent) -> (r: Plan)
    ensures
        r@ == pipe_impl_plan(args@, event, ShellBehavior::Insert),
{
    pipe_impl(args, event, ShellBehavior::Insert)
}

/// Gives each selection to a shell command and replaces it with the output.
pub fn pipe(_editor: &Editor, args: Args, event: PromptEvent) -> (r: Plan)
    ensures
        r@ == pipe_impl_plan(args@, event, ShellBehavior::Replace),
{
    pipe_impl(args, event, ShellBehavior::Replace)
}

/// Gives each selection to a shell command and drops the output.
pub fn pipe_to(_editor: &Editor, args: Args, event: PromptEvent) -> (r: Plan)
    ensures
        r@ == pipe_impl_plan(args@, event, ShellBehavior::Ignore),
{
    pipe_impl(args, event, ShellBehavior::Ignore)
}

/// What `run-shell-command` does.
pub open spec fn run_shell_command_plan(args: ArgsView, event: PromptEvent) -> PlanView {
    buffers::on_validate(event, PlanView::of(seq![Action::RunShell(args.raw)]))
}

/// Runs a shell command and shows its output.
pub fn run_shell_command(_editor: &Editor, args: Args, event: PromptEvent) -> (r: Plan)
    ensures
        r@ == run_shell_command_plan(args@, event),
{
    if event != PromptEvent::Validate {
        return Plan::nothing();
    }
    Plan::one(Action::RunShell(args.raw))
}

/// The column at which the output of a shell command is shown.
pub const OUTPUT_COLUMN: usize = 2;

/// What is shown when a shell command has run: its output, if there is any, and a message. The
/// output is shown at the row of the cursor, or at the first row when the cursor is not seen.
pub open spec fn shell_ran_plan(output: Seq<char>, cursor_row: Option<usize>) -> PlanView {
    let message = PlanView::status("Command run"@);
    if output.len() == 0 {
        message
    } else {
        let row = match cursor_row {
            Some(row) => row,
            None => 0,
        };
        let contents = "```sh\n"@ + text::trimmed_end(output) + "\n```"@;
        PlanView::of(
            seq![
                Action::Popup {
                    id: "shell"@,
                    contents,
                    position: Some(Position { row, column: OUTPUT_COLUMN }),
                },
            ],
        ).followed_by(message)
    }
}

/// Goes on with `run_shell_command` when the command has run.
pub fn shell_ran(output: &str, cursor_row: Option<usize>) -> (r: Plan)
    ensures
        r@ == shell_ran_plan(output@, cursor_row),
{
    let message = Plan::status("Command run");
    if output.is_empty() {
        return message;
    }
    let row = match cursor_row {
        Some(row) => row,
        None => 0,
    };
    let mut contents = "```sh\n".to_owned();
    contents.append(text::trim_end(output).as_str());
    contents.append("\n```");
    let position = Some(Position { row, column: OUTPUT_COLUMN });
    Plan::one(Action::Popup { id: "shell".to_owned(), contents, position }).followed_by(message)
}

} // verus!
