//! Running commands.
use vstd::prelude::*;

use crate::args::{Args, ArgsView, PromptEvent};
use crate::buffers;
use crate::character;
use crate::clipboard;
use crate::command::Fun;
use crate::document;
use crate::editor::Editor;
use crate::options;
use crate::plan::{Direction, Plan, PlanView, ShellBehavior, Split};
use crate::save;
use crate::servers;
use crate::shell;
use crate::syntax;
use crate::view;

verus! {

/// Whether a command can be run with some arguments. A few commands need an argument where
/// anything is typed behind them.
pub open spec fn runs_with(fun: Fun, args: ArgsView, event: PromptEvent) -> bool {
    &&& args.taken == 0
    &&& match fun {
        Fun::ToggleOption | Fun::ClearRegister => event is Validate && !args.is_empty()
            ==> args.words.len() > 0,
        Fun::GotoLineNumber => !(event is Abort) && !args.is_empty() ==> args.words.len() > 0,
        _ => true,
    }
}

/// What a command does.
pub open spec fn command_plan(
    fun: Fun,
    editor: Editor,
    places: options::Places,
    args: ArgsView,
    event: PromptEvent,
) -> PlanView {
    match fun {
        Fun::Quit => buffers::quit_plan(editor, args, event),
        Fun::ForceQuit => buffers::force_quit_plan(args, event),
        Fun::Open => buffers::open_plan(args, event),
        Fun::BufferClose => buffers::buffer_close_plan(editor, args, event, false),
        Fun::ForceBufferClose => buffers::buffer_close_plan(editor, args, event, true),
        Fun::BufferCloseOthers => buffers::close_others_plan(editor, event, false),
        Fun::ForceBufferCloseOthers => buffers::close_others_plan(editor, event, true),
        Fun::BufferCloseAll => buffers::close_all_plan(editor, event, false),
        Fun::ForceBufferCloseAll => buffers::close_all_plan(editor, event, true),
        Fun::BufferNext => buffers::goto_buffer_plan(event, Direction::Forward),
        Fun::BufferPrevious => buffers::goto_buffer_plan(event, Direction::Backward),
        Fun::Write => save::write_plan(editor, args, event, false),
        Fun::ForceWrite => save::write_plan(editor, args, event, true),
        Fun::WriteBufferClose => save::write_buffer_close_plan(editor, args, event, false),
        Fun::ForceWriteBufferClose => save::write_buffer_close_plan(editor, args, event, true),
        Fun::NewFile => view::new_file_plan(event),
        Fun::Format => document::format_plan(editor, event),
        Fun::SetIndentStyle => document::set_indent_style_plan(editor, args, event),
        Fun::SetLineEnding => document::set_line_ending_plan(editor, args, event),
        Fun::Earlier => document::earlier_plan(args, event),
        Fun::Later => document::later_plan(args, event),
        Fun::WriteQuit => save::write_quit_plan(editor, args, event),
        Fun::ForceWriteQuit => save::force_write_quit_plan(editor, args, event),
        Fun::WriteAll => save::write_all_plan(editor, event, false),
        Fun::ForceWriteAll => save::write_all_plan(editor, event, true),
        Fun::WriteAllQuit => save::write_all_quit_plan(editor, event),
        Fun::ForceWriteAllQuit => save::force_write_all_quit_plan(event),
        Fun::QuitAll => save::quit_all_plan(event, false),
        Fun::ForceQuitAll => save::quit_all_plan(event, true),
        Fun::Cquit => save::cquit_plan(args, event, false),
        Fun::ForceCquit => save::cquit_plan(args, event, true),
        Fun::Theme => view::theme_plan(editor, args, event),
        Fun::YankJoined => clipboard::yank_joined_plan(editor, args, event),
        Fun::YankMainSelectionToClipboard => clipboard::yank_main_selection_to_clipboard_plan(
            event,
        ),
        Fun::YankJoinedToClipboard => clipboard::yank_joined_to_clipboard_plan(editor, args, event),
        Fun::YankMainSelectionToPrimaryClipboard => clipboard::yank_main_selection_to_primary_clipboard_plan(
            event,
        ),
        Fun::YankJoinedToPrimaryClipboard => clipboard::yank_joined_to_primary_clipboard_plan(
            editor,
            args,
            event,
        ),
        Fun::PasteClipboardAfter => clipboard::paste_clipboard_after_plan(event),
        Fun::PasteClipboardBefore => clipboard::paste_clipboard_before_plan(event),
        Fun::ReplaceSelectionsWithClipboard => clipboard::replace_selections_with_clipboard_plan(
            event,
        ),
        Fun::PastePrimaryClipboardAfter => clipboard::paste_primary_clipboard_after_plan(event),
        Fun::PastePrimaryClipboardBefore => clipboard::paste_primary_clipboard_before_plan(event),
        Fun::ReplaceSelectionsWithPrimaryClipboard => clipboard::replace_selections_with_primary_clipboard_plan(
            event,
        ),
        Fun::ShowClipboardProvider => clipboard::show_clipboard_provider_plan(editor, event),
        Fun::ChangeCurrentDirectory => view::change_current_directory_plan(editor, args, event),
        Fun::ShowCurrentDirectory => view::show_current_directory_plan(event),
        Fun::SetEncoding => document::set_encoding_plan(editor, args, event),
        Fun::GetCharacterInfo => character::get_character_info_plan(event),
        Fun::Reload => save::reload_plan(editor, event),
        Fun::ReloadAll => save::reload_all_plan(editor, event),
        Fun::Update => save::update_plan(editor, args, event),
        Fun::LspWorkspaceCommand => servers::lsp_workspace_command_plan(editor, args, event),
        Fun::LspRestart => servers::lsp_restart_plan(editor, event),
        Fun::LspStop => servers::lsp_stop_plan(editor, event),
        Fun::TreeSitterScopes => syntax::tree_sitter_scopes_plan(event),
        Fun::TreeSitterHighlightName => syntax::tree_sitter_highlight_name_plan(event),
        Fun::DebugStart => view::debug_start_plan(args, event),
        Fun::DebugRemote => view::debug_remote_plan(args, event),
        Fun::DebugEval => view::debug_eval_plan(editor, args, event),
        Fun::Vsplit => view::split_plan(args, event, Split::Vertical),
        Fun::VsplitNew => view::vsplit_new_plan(event),
        Fun::Hsplit => view::split_plan(args, event, Split::Horizontal),
        Fun::HsplitNew => view::hsplit_new_plan(event),
        Fun::Tutor => view::tutor_plan(event),
        Fun::GotoLineNumber => view::goto_line_number_plan(editor, args, event),
        Fun::Language => document::language_plan(editor, args, event),
        Fun::SetOption => options::set_plan(places, args, event),
        Fun::ToggleOption => options::toggle_plan(places, args, event),
        Fun::GetOption => options::get_plan(places, args, event),
        Fun::Sort => document::sort_plan(editor, event),
        Fun::SortReverse => document::sort_reverse_plan(editor, event),
        Fun::Reflow => document::reflow_plan(editor, args, event),
        Fun::TreeSitterSubtree => syntax::tree_sitter_subtree_plan(event),
        Fun::RefreshConfig => view::refresh_config_plan(event),
        Fun::OpenConfig => view::open_config_plan(event),
        Fun::OpenWorkspaceConfig => view::open_workspace_config_plan(event),
        Fun::OpenLog => view::open_log_plan(event),
        Fun::InsertOutput => shell::pipe_impl_plan(args, event, ShellBehavior::Insert),
        Fun::AppendOutput => shell::pipe_impl_plan(args, event, ShellBehavior::Append),
        Fun::Pipe => shell::pipe_impl_plan(args, event, ShellBehavior::Replace),
        Fun::PipeTo => shell::pipe_impl_plan(args, event, ShellBehavior::Ignore),
        Fun::RunShellCommand => shell::run_shell_command_plan(args, event),
        Fun::ResetDiffChange => document::reset_diff_change_plan(args, event),
        Fun::ClearRegister => clipboard::clear_register_plan(args, event),
        Fun::Redraw => view::redraw_plan(event),
        Fun::MoveBuffer => document::move_buffer_plan(editor, args, event),
        Fun::YankDiagnostic => clipboard::yank_diagnostic_plan(args, event),
        Fun::Read => document::read_plan(args, event),
    }
}

/// What becomes of the options when a command is run: only `set-option` and `toggle-option`
/// change them.
pub open spec fn options_changed(
    fun: Fun,
    before: serde_json::Value,
    after: serde_json::Value,
    args: ArgsView,
    event: PromptEvent,
) -> bool {
    let places = options::contents(before);
    let outcome = match fun {
        Fun::SetOption => options::set_outcome(places, args),
        Fun::ToggleOption => options::toggle_outcome(places, args),
        _ => Err(Seq::empty()),
    };
    match outcome {
        Ok(part) if event is Validate => options::replaced(
            places,
            options::contents(after),
            options::option_pointer(options::option_key(args)),
            part,
        ),
        _ => after == before,
    }
}

/// Runs a command.
pub fn run(
    fun: Fun,
    editor: &Editor,
    options: &mut serde_json::Value,
    args: Args,
    event: PromptEvent,
) -> (r: Plan)
    requires
        editor.wf(),
        runs_with(fun, args@, event),
    ensures
        r@ == command_plan(fun, *editor, options::contents(*old(options)), args@, event),
        options_changed(fun, *old(options), *final(options), args@, event),
{
    match fun {
        Fun::Quit => buffers::quit(editor, args, event),
        Fun::ForceQuit => buffers::force_quit(editor, args, event),
        Fun::Open => buffers::open(editor, args, event),
        Fun::BufferClose => buffers::buffer_close(editor, args, event),
        Fun::ForceBufferClose => buffers::force_buffer_close(editor, args, event),
        Fun::BufferCloseOthers => buffers::buffer_close_others(editor, args, event),
        Fun::ForceBufferCloseOthers => buffers::force_buffer_close_others(editor, args, event),
        Fun::BufferCloseAll => buffers::buffer_close_all(editor, args, event),
        Fun::ForceBufferCloseAll => buffers::force_buffer_close_all(editor, args, event),
        Fun::BufferNext => buffers::buffer_next(editor, args, event),
        Fun::BufferPrevious => buffers::buffer_previous(editor, args, event),
        Fun::Write => save::write(editor, args, event),
        Fun::ForceWrite => save::force_write(editor, args, event),
        Fun::WriteBufferClose => save::write_buffer_close(editor, args, event),
        Fun::ForceWriteBufferClose => save::force_write_buffer_close(editor, args, event),
        Fun::NewFile => view::new_file(editor, args, event),
        Fun::Format => document::format(editor, args, event),
        Fun::SetIndentStyle => document::set_indent_style(editor, args, event),
        Fun::SetLineEnding => document::set_line_ending(editor, args, event),
        Fun::Earlier => document::earlier(editor, args, event),
        Fun::Later => document::later(editor, args, event),
        Fun::WriteQuit => save::write_quit(editor, args, event),
        Fun::ForceWriteQuit => save::force_write_quit(editor, args, event),
        Fun::WriteAll => save::write_all(editor, args, event),
        Fun::ForceWriteAll => save::force_write_all(editor, args, event),
        Fun::WriteAllQuit => save::write_all_quit(editor, args, event),
        Fun::ForceWriteAllQuit => save::force_write_all_quit(editor, args, event),
        Fun::QuitAll => save::quit_all(editor, args, event),
        Fun::ForceQuitAll => save::force_quit_all(editor, args, event),
        Fun::Cquit => save::cquit(editor, args, event),
        Fun::ForceCquit => save::force_cquit(editor, args, event),
        Fun::Theme => view::theme(editor, args, event),
        Fun::YankJoined => clipboard::yank_joined(editor, args, event),
        Fun::YankMainSelectionToClipboard => clipboard::yank_main_selection_to_clipboard(
            editor,
            args,
            event,
        ),
        Fun::YankJoinedToClipboard => clipboard::yank_joined_to_clipboard(editor, args, event),
        Fun::YankMainSelectionToPrimaryClipboard => clipboard::yank_main_selection_to_primary_clipboard(
            editor,
            args,
            event,
        ),
        Fun::YankJoinedToPrimaryClipboard => clipboard::yank_joined_to_primary_clipboard(
            editor,
            args,
            event,
        ),
        Fun::PasteClipboardAfter => clipboard::paste_clipboard_after(editor, args, event),
        Fun::PasteClipboardBefore => clipboard::paste_clipboard_before(editor, args, event),
        Fun::ReplaceSelectionsWithClipboard => clipboard::replace_selections_with_clipboard(
            editor,
            args,
            event,
        ),
        Fun::PastePrimaryClipboardAfter => clipboard::paste_primary_clipboard_after(
            editor,
            args,
            event,
        ),
        Fun::PastePrimaryClipboardBefore => clipboard::paste_primary_clipboard_before(
            editor,
            args,
            event,
        ),
        Fun::ReplaceSelectionsWithPrimaryClipboard => clipboard::replace_selections_with_primary_clipboard(
            editor,
            args,
            event,
        ),
        Fun::ShowClipboardProvider => clipboard::show_clipboard_provider(editor, args, event),
        Fun::ChangeCurrentDirectory => view::change_current_directory(editor, args, event),
        Fun::ShowCurrentDirectory => view::show_current_directory(editor, args, event),
        Fun::SetEncoding => document::set_encoding(editor, args, event),
        Fun::GetCharacterInfo => character::get_character_info(editor, args, event),
        Fun::Reload => save::reload(editor, args, event),
        Fun::ReloadAll => save::reload_all(editor, args, event),
        Fun::Update => save::update(editor, args, event),
        Fun::LspWorkspaceCommand => servers::lsp_workspace_command(editor, args, event),
        Fun::LspRestart => servers::lsp_restart(editor, args, event),
        Fun::LspStop => servers::lsp_stop(editor, args, event),
        Fun::TreeSitterScopes => syntax::tree_sitter_scopes(editor, args, event),
        Fun::TreeSitterHighlightName => syntax::tree_sitter_highlight_name(editor, args, event),
        Fun::DebugStart => view::debug_start(editor, args, event),
        Fun::DebugRemote => view::debug_remote(editor, args, event),
        Fun::DebugEval => view::debug_eval(editor, args, event),
        Fun::Vsplit => view::vsplit(editor, args, event),
        Fun::VsplitNew => view::vsplit_new(editor, args, event),
        Fun::Hsplit => view::hsplit(editor, args, event),
        Fun::HsplitNew => view::hsplit_new(editor, args, event),
        Fun::Tutor => view::tutor(editor, args, event),
        Fun::GotoLineNumber => view::goto_line_number(editor, args, event),
        Fun::Language => document::language(editor, args, event),
        Fun::SetOption => options::set_option(options, args, event),
        Fun::ToggleOption => options::toggle_option(options, args, event),
        Fun::GetOption => options::get_option(&*options, args, event),
        Fun::Sort => document::sort(editor, args, event),
        Fun::SortReverse => document::sort_reverse(editor, args, event),
        Fun::Reflow => document::reflow(editor, args, event),
        Fun::TreeSitterSubtree => syntax::tree_sitter_subtree(editor, args, event),
        Fun::RefreshConfig => view::refresh_config(editor, args, event),
        Fun::OpenConfig => view::open_config(editor, args, event),
        Fun::OpenWorkspaceConfig => view::open_workspace_config(editor, args, event),
        Fun::OpenLog => view::open_log(editor, args, event),
        Fun::InsertOutput => shell::insert_output(editor, args, event),
        Fun::AppendOutput => shell::append_output(editor, args, event),
        Fun::Pipe => shell::pipe(editor, args, event),
        Fun::PipeTo => shell::pipe_to(editor, args, event),
        Fun::RunShellCommand => shell::run_shell_command(editor, args, event),
        Fun::ResetDiffChange => document::reset_diff_change(editor, args, event),
        Fun::ClearRegister => clipboard::clear_register(editor, args, event),
        Fun::Redraw => view::redraw(editor, args, event),
        Fun::MoveBuffer => document::move_buffer(editor, args, event),
        Fun::YankDiagnostic => clipboard::yank_diagnostic(editor, args, event),
        Fun::Read => document::read(editor, args, event),
    }
}

/// No command but `theme` and `goto`, which show a preview, does anything before the input is
/// confirmed.
pub proof fn lemma_nothing_before_confirmation(
    fun: Fun,
    editor: Editor,
    places: options::Places,
    args: ArgsView,
    event: PromptEvent,
)
    requires
        event != PromptEvent::Validate,
        fun != Fun::Theme,
        fun != Fun::GotoLineNumber,
    ensures
        command_plan(fun, editor, places, args, event) == PlanView::nothing(),
        command_plan(fun, editor, places, args, event).steps.len() == 0,
        command_plan(fun, editor, places, args, event).error is None,
{
}

} // verus!
