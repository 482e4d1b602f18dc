//! What holds of the commands that are typed with an exclamation mark and of those that are not.
use vstd::prelude::*;

use crate::args::{ArgsView, PromptEvent};
use crate::command;
use crate::command::Fun;
use crate::editor::{Document, Editor};
use crate::options;
use crate::plan::{Action, Op, StepView};
use crate::run;
use crate::save;
use crate::servers;
use crate::text;

verus! {

/// The command that does without force what a command does with it.
pub open spec fn gentle(fun: Fun) -> Option<Fun> {
    match fun {
        Fun::ForceQuit => Some(Fun::Quit),
        Fun::ForceBufferClose => Some(Fun::BufferClose),
        Fun::ForceBufferCloseOthers => Some(Fun::BufferCloseOthers),
        Fun::ForceBufferCloseAll => Some(Fun::BufferCloseAll),
        Fun::ForceWrite => Some(Fun::Write),
        Fun::ForceWriteBufferClose => Some(Fun::WriteBufferClose),
        Fun::ForceWriteQuit => Some(Fun::WriteQuit),
        Fun::ForceWriteAll => Some(Fun::WriteAll),
        Fun::ForceWriteAllQuit => Some(Fun::WriteAllQuit),
        Fun::ForceQuitAll => Some(Fun::QuitAll),
        Fun::ForceCquit => Some(Fun::Cquit),
        _ => None,
    }
}

/// Whether a step may lose changes that are not saved, or writes where that was not asked for: it
/// closes a document or the views, or writes a document, with force.
pub open spec fn forces(step: StepView) -> bool {
    match step {
        Action::Do(Op::CloseDocument { force, .. }) => force,
        Action::Do(Op::QuitViews { force }) => force,
        Action::Do(Op::TryWriteAll) => true,
        Action::Save { force, .. } => force,
        Action::FormatAndSave { force, .. } => force,
        _ => false,
    }
}

/// Whether a character is the one that the first argument consists of, if it consists of one.
pub open spec fn names_register(args: ArgsView, register: char) -> bool {
    args.words.len() > 0 && args.words[0].text.len() == 1 ==> args.words[0].text == seq![register]
}

/// Whether no step uses force.
pub open spec fn unforced(steps: Seq<StepView>) -> bool {
    forall|k: int| 0 <= k < steps.len() ==> !forces(#[trigger] steps[k])
}

proof fn lemma_write_each_unforced(editor: Editor, documents: Seq<Document>)
    ensures
        unforced(save::write_each(editor, documents, false)),
    decreases documents.len(),
{
    if documents.len() > 0 {
        lemma_write_each_unforced(editor, documents.drop_last());
    }
}

proof fn lemma_reload_unforced(editor: Editor, documents: Seq<Document>)
    ensures
        unforced(save::init_each(editor, documents)),
        unforced(save::reload_each(editor, documents)),
    decreases documents.len(),
{
    if documents.len() > 0 {
        lemma_reload_unforced(editor, documents.drop_last());
    }
}

proof fn lemma_refresh_unforced(documents: Seq<Document>)
    ensures
        unforced(servers::refresh_each(documents)),
    decreases documents.len(),
{
    if documents.len() > 0 {
        lemma_refresh_unforced(documents.drop_last());
    }
}

proof fn lemma_stop_unforced(documents: Seq<Document>, names: Seq<Seq<char>>)
    ensures
        unforced(servers::stop_each(documents, names)),
    decreases names.len(),
{
    if names.len() > 0 {
        lemma_stop_unforced(documents, names.drop_last());
    }
}

proof fn lemma_unforced_from_0(
    fun: Fun,
    editor: Editor,
    places: options::Places,
    args: ArgsView,
    event: PromptEvent,
    register: char,
)
    requires
        0 <= command::place_in_list(fun) < 6,
        gentle(fun) is None,
        run::runs_with(fun, args, event),
        names_register(args, register),
    ensures
        unforced(run::command_plan(fun, editor, places, args, event).steps),
{
}

proof fn lemma_unforced_from_6(
    fun: Fun,
    editor: Editor,
    places: options::Places,
    args: ArgsView,
    event: PromptEvent,
    register: char,
)
    requires
        6 <= command::place_in_list(fun) < 11,
        gentle(fun) is None,
        run::runs_with(fun, args, event),
        names_register(args, register),
    ensures
        unforced(run::command_plan(fun, editor, places, args, event).steps),
{
}

proof fn lemma_unforced_from_11(
    fun: Fun,
    editor: Editor,
    places: options::Places,
    args: ArgsView,
    event: PromptEvent,
    register: char,
)
    requires
        11 <= command::place_in_list(fun) < 15,
        gentle(fun) is None,
        run::runs_with(fun, args, event),
        names_register(args, register),
    ensures
        unforced(run::command_plan(fun, editor, places, args, event).steps),
{
}

proof fn lemma_unforced_from_15(
    fun: Fun,
    editor: Editor,
    places: options::Places,
    args: ArgsView,
    event: PromptEvent,
    register: char,
)
    requires
        15 <= command::place_in_list(fun) < 19,
        gentle(fun) is None,
        run::runs_with(fun, args, event),
        names_register(args, register),
    ensures
        unforced(run::command_plan(fun, editor, places, args, event).steps),
{
}

proof fn lemma_unforced_from_19(
    fun: Fun,
    editor: Editor,
    places: options::Places,
    args: ArgsView,
    event: PromptEvent,
    register: char,
)
    requires
        19 <= command::place_in_list(fun) < 22,
        gentle(fun) is None,
        run::runs_with(fun, args, event),
        names_register(args, register),
    ensures
        unforced(run::command_plan(fun, editor, places, args, event).steps),
{
}

proof fn lemma_unforced_from_22(
    fun: Fun,
    editor: Editor,
    places: options::Places,
    args: ArgsView,
    event: PromptEvent,
    register: char,
)
    requires
        22 <= command::place_in_list(fun) < 31,
        gentle(fun) is None,
        run::runs_with(fun, args, event),
        names_register(args, register),
    ensures
        unforced(run::command_plan(fun, editor, places, args, event).steps),
{
    lemma_write_each_unforced(editor, save::to_write(editor.documents@));
}

proof fn lemma_unforced_from_31(
    fun: Fun,
    editor: Editor,
    places: options::Places,
    args: ArgsView,
    event: PromptEvent,
    register: char,
)
    requires
        31 <= command::place_in_list(fun) < 44,
        gentle(fun) is None,
        run::runs_with(fun, args, event),
        names_register(args, register),
    ensures
        unforced(run::command_plan(fun, editor, places, args, event).steps),
{
}

proof fn lemma_unforced_from_44(
    fun: Fun,
    editor: Editor,
    places: options::Places,
    args: ArgsView,
    event: PromptEvent,
    register: char,
)
    requires
        44 <= command::place_in_list(fun) < 50,
        gentle(fun) is None,
        run::runs_with(fun, args, event),
        names_register(args, register),
    ensures
        unforced(run::command_plan(fun, editor, places, args, event).steps),
{
    lemma_reload_unforced(editor, editor.documents@);
}

proof fn lemma_unforced_from_50(
    fun: Fun,
    editor: Editor,
    places: options::Places,
    args: ArgsView,
    event: PromptEvent,
    register: char,
)
    requires
        50 <= command::place_in_list(fun) < 55,
        gentle(fun) is None,
        run::runs_with(fun, args, event),
        names_register(args, register),
    ensures
        unforced(run::command_plan(fun, editor, places, args, event).steps),
{
    lemma_refresh_unforced(editor.documents@);
    lemma_stop_unforced(
        editor.documents@,
        text::views(editor.documents[editor.current as int].servers@),
    );
}

proof fn lemma_unforced_from_55(
    fun: Fun,
    editor: Editor,
    places: options::Places,
    args: ArgsView,
    event: PromptEvent,
    register: char,
)
    requires
        55 <= command::place_in_list(fun) < 60,
        gentle(fun) is None,
        run::runs_with(fun, args, event),
        names_register(args, register),
    ensures
        unforced(run::command_plan(fun, editor, places, args, event).steps),
{
}

proof fn lemma_unforced_from_60(
    fun: Fun,
    editor: Editor,
    places: options::Places,
    args: ArgsView,
    event: PromptEvent,
    register: char,
)
    requires
        60 <= command::place_in_list(fun) < 66,
        gentle(fun) is None,
        run::runs_with(fun, args, event),
        names_register(args, register),
    ensures
        unforced(run::command_plan(fun, editor, places, args, event).steps),
{
}

proof fn lemma_unforced_from_66(
    fun: Fun,
    editor: Editor,
    places: options::Places,
    args: ArgsView,
    event: PromptEvent,
    register: char,
)
    requires
        66 <= command::place_in_list(fun) < 72,
        gentle(fun) is None,
        run::runs_with(fun, args, event),
        names_register(args, register),
    ensures
        unforced(run::command_plan(fun, editor, places, args, event).steps),
{
}

proof fn lemma_unforced_from_72(
    fun: Fun,
    editor: Editor,
    places: options::Places,
    args: ArgsView,
    event: PromptEvent,
    register: char,
)
    requires
        72 <= command::place_in_list(fun) < 77,
        gentle(fun) is None,
        run::runs_with(fun, args, event),
        names_register(args, register),
    ensures
        unforced(run::command_plan(fun, editor, places, args, event).steps),
{
}

proof fn lemma_unforced_from_77(
    fun: Fun,
    editor: Editor,
    places: options::Places,
    args: ArgsView,
    event: PromptEvent,
    register: char,
)
    requires
        77 <= command::place_in_list(fun) < 82,
        gentle(fun) is None,
        run::runs_with(fun, args, event),
        names_register(args, register),
    ensures
        unforced(run::command_plan(fun, editor, places, args, event).steps),
{
}

proof fn lemma_unforced_from_82(
    fun: Fun,
    editor: Editor,
    places: options::Places,
    args: ArgsView,
    event: PromptEvent,
    register: char,
)
    requires
        82 <= command::place_in_list(fun) < 85,
        gentle(fun) is None,
        run::runs_with(fun, args, event),
        names_register(args, register),
    ensures
        unforced(run::command_plan(fun, editor, places, args, event).steps),
{
    if fun is ClearRegister {
        let name = args.words[0].text;
        if event is Validate && args.raw.len() > 0 && args.words.len() == 1 && name.len() == 1 {
            assert(name[0] == register);
            assert(run::command_plan(fun, editor, places, args, event).steps == seq![
                StepView::Do(Op::ClearRegister(register)),
            ]);
        }
    }
}

proof fn lemma_unforced_from_85(
    fun: Fun,
    editor: Editor,
    places: options::Places,
    args: ArgsView,
    event: PromptEvent,
    register: char,
)
    requires
        85 <= command::place_in_list(fun) < 88,
        gentle(fun) is None,
        run::runs_with(fun, args, event),
        names_register(args, register),
    ensures
        unforced(run::command_plan(fun, editor, places, args, event).steps),
{
    if fun is YankDiagnostic && args.words.len() > 0 {
        let name = args.words[0].text;
        if event is Validate && name.len() == 1 {
            assert(name[0] == register);
            assert(run::command_plan(fun, editor, places, args, event).steps == seq![
                StepView::Do(Op::YankDiagnostics(register)),
            ]);
        }
    }
}

/// A command that is typed without an exclamation mark closes nothing and writes nothing with
/// force, whatever the editor, the arguments and what happens at the prompt.
pub proof fn lemma_without_force(
    fun: Fun,
    editor: Editor,
    places: options::Places,
    args: ArgsView,
    event: PromptEvent,
    register: char,
)
    requires
        gentle(fun) is None,
        run::runs_with(fun, args, event),
        names_register(args, register),
    ensures
        unforced(run::command_plan(fun, editor, places, args, event).steps),
{
    command::lemma_listed(fun, 0);
    let place = command::place_in_list(fun);
    if place < 6 {
        lemma_unforced_from_0(fun, editor, places, args, event, register);
    } else if place < 11 {
        lemma_unforced_from_6(fun, editor, places, args, event, register);
    } else if place < 15 {
        lemma_unforced_from_11(fun, editor, places, args, event, register);
    } else if place < 19 {
        lemma_unforced_from_15(fun, editor, places, args, event, register);
    } else if place < 22 {
        lemma_unforced_from_19(fun, editor, places, args, event, register);
    } else if place < 31 {
        lemma_unforced_from_22(fun, editor, places, args, event, register);
    } else if place < 44 {
        lemma_unforced_from_31(fun, editor, places, args, event, register);
    } else if place < 50 {
        lemma_unforced_from_44(fun, editor, places, args, event, register);
    } else if place < 55 {
        lemma_unforced_from_50(fun, editor, places, args, event, register);
    } else if place < 60 {
        lemma_unforced_from_55(fun, editor, places, args, event, register);
    } else if place < 66 {
        lemma_unforced_from_60(fun, editor, places, args, event, register);
    } else if place < 72 {
        lemma_unforced_from_66(fun, editor, places, args, event, register);
    } else if place < 77 {
        lemma_unforced_from_72(fun, editor, places, args, event, register);
    } else if place < 82 {
        lemma_unforced_from_77(fun, editor, places, args, event, register);
    } else if place < 85 {
        lemma_unforced_from_82(fun, editor, places, args, event, register);
    } else {
        lemma_unforced_from_85(fun, editor, places, args, event, register);
    }
}

proof fn lemma_marks_from_0(fun: Fun, name: Seq<char>)
    requires
        0 <= command::place_in_list(fun) < 11,
        command::is_called(fun, name),
    ensures
        name.len() > 0,
        name.last() == '!' <==> gentle(fun) is Some,
{
    match fun {
        Fun::Quit => {
            reveal_strlit("quit");
            reveal_strlit("q");
        },
        Fun::ForceQuit => {
            reveal_strlit("quit!");
            reveal_strlit("q!");
        },
        Fun::Open => {
            reveal_strlit("open");
            reveal_strlit("o");
            reveal_strlit("edit");
            reveal_strlit("e");
        },
        Fun::BufferClose => {
            reveal_strlit("buffer-close");
            reveal_strlit("bc");
            reveal_strlit("bclose");
        },
        Fun::ForceBufferClose => {
            reveal_strlit("buffer-close!");
            reveal_strlit("bc!");
            reveal_strlit("bclose!");
        },
        Fun::BufferCloseOthers => {
            reveal_strlit("buffer-close-others");
            reveal_strlit("bco");
            reveal_strlit("bcloseother");
        },
        Fun::ForceBufferCloseOthers => {
            reveal_strlit("buffer-close-others!");
            reveal_strlit("bco!");
            reveal_strlit("bcloseother!");
        },
        Fun::BufferCloseAll => {
            reveal_strlit("buffer-close-all");
            reveal_strlit("bca");
            reveal_strlit("bcloseall");
        },
        Fun::ForceBufferCloseAll => {
            reveal_strlit("buffer-close-all!");
            reveal_strlit("bca!");
            reveal_strlit("bcloseall!");
        },
        Fun::BufferNext => {
            reveal_strlit("buffer-next");
            reveal_strlit("bn");
            reveal_strlit("bnext");
        },
        Fun::BufferPrevious => {
            reveal_strlit("buffer-previous");
            reveal_strlit("bp");
            reveal_strlit("bprev");
        },
        _ => {},
    }
}

proof fn lemma_marks_from_11(fun: Fun, name: Seq<char>)
    requires
        11 <= command::place_in_list(fun) < 22,
        command::is_called(fun, name),
    ensures
        name.len() > 0,
        name.last() == '!' <==> gentle(fun) is Some,
{
    match fun {
        Fun::Write => {
            reveal_strlit("write");
            reveal_strlit("w");
        },
        Fun::ForceWrite => {
            reveal_strlit("write!");
            reveal_strlit("w!");
        },
        Fun::WriteBufferClose => {
            reveal_strlit("write-buffer-close");
            reveal_strlit("wbc");
        },
        Fun::ForceWriteBufferClose => {
            reveal_strlit("write-buffer-close!");
            reveal_strlit("wbc!");
        },
        Fun::NewFile => {
            reveal_strlit("new");
            reveal_strlit("n");
        },
        Fun::Format => {
            reveal_strlit("format");
            reveal_strlit("fmt");
        },
        Fun::SetIndentStyle => {
            reveal_strlit("indent-style");
        },
        Fun::SetLineEnding => {
            reveal_strlit("line-ending");
        },
        Fun::Earlier => {
            reveal_strlit("earlier");
            reveal_strlit("ear");
        },
        Fun::Later => {
            reveal_strlit("later");
            reveal_strlit("lat");
        },
        Fun::WriteQuit => {
            reveal_strlit("write-quit");
            reveal_strlit("wq");
            reveal_strlit("x");
        },
        _ => {},
    }
}

proof fn lemma_marks_from_22(fun: Fun, name: Seq<char>)
    requires
        22 <= command::place_in_list(fun) < 33,
        command::is_called(fun, name),
    ensures
        name.len() > 0,
        name.last() == '!' <==> gentle(fun) is Some,
{
    match fun {
        Fun::ForceWriteQuit => {
            reveal_strlit("write-quit!");
            reveal_strlit("wq!");
            reveal_strlit("x!");
        },
        Fun::WriteAll => {
            reveal_strlit("write-all");
            reveal_strlit("wa");
        },
        Fun::ForceWriteAll => {
            reveal_strlit("write-all!");
            reveal_strlit("wa!");
        },
        Fun::WriteAllQuit => {
            reveal_strlit("write-quit-all");
            reveal_strlit("wqa");
            reveal_strlit("xa");
        },
        Fun::ForceWriteAllQuit => {
            reveal_strlit("write-quit-all!");
            reveal_strlit("wqa!");
            reveal_strlit("xa!");
        },
        Fun::QuitAll => {
            reveal_strlit("quit-all");
            reveal_strlit("qa");
        },
        Fun::ForceQuitAll => {
            reveal_strlit("quit-all!");
            reveal_strlit("qa!");
        },
        Fun::Cquit => {
            reveal_strlit("cquit");
            reveal_strlit("cq");
        },
        Fun::ForceCquit => {
            reveal_strlit("cquit!");
            reveal_strlit("cq!");
        },
        Fun::Theme => {
            reveal_strlit("theme");
        },
        Fun::YankJoined => {
            reveal_strlit("yank-join");
        },
        _ => {},
    }
}

proof fn lemma_marks_from_33(fun: Fun, name: Seq<char>)
    requires
        33 <= command::place_in_list(fun) < 44,
        command::is_called(fun, name),
    ensures
        name.len() > 0,
        name.last() == '!' <==> gentle(fun) is Some,
{
    match fun {
        Fun::YankMainSelectionToClipboard => {
            reveal_strlit("clipboard-yank");
        },
        Fun::YankJoinedToClipboard => {
            reveal_strlit("clipboard-yank-join");
        },
        Fun::YankMainSelectionToPrimaryClipboard => {
            reveal_strlit("primary-clipboard-yank");
        },
        Fun::YankJoinedToPrimaryClipboard => {
            reveal_strlit("primary-clipboard-yank-join");
        },
        Fun::PasteClipboardAfter => {
            reveal_strlit("clipboard-paste-after");
        },
        Fun::PasteClipboardBefore => {
            reveal_strlit("clipboard-paste-before");
        },
        Fun::ReplaceSelectionsWithClipboard => {
            reveal_strlit("clipboard-paste-replace");
        },
        Fun::PastePrimaryClipboardAfter => {
            reveal_strlit("primary-clipboard-paste-after");
        },
        Fun::PastePrimaryClipboardBefore => {
            reveal_strlit("primary-clipboard-paste-before");
        },
        Fun::ReplaceSelectionsWithPrimaryClipboard => {
            reveal_strlit("primary-clipboard-paste-replace");
        },
        Fun::ShowClipboardProvider => {
            reveal_strlit("show-clipboard-provider");
        },
        _ => {},
    }
}

proof fn lemma_marks_from_44(fun: Fun, name: Seq<char>)
    requires
        44 <= command::place_in_list(fun) < 55,
        command::is_called(fun, name),
    ensures
        name.len() > 0,
        name.last() == '!' <==> gentle(fun) is Some,
{
    match fun {
        Fun::ChangeCurrentDirectory => {
            reveal_strlit("change-current-directory");
            reveal_strlit("cd");
        },
        Fun::ShowCurrentDirectory => {
            reveal_strlit("show-directory");
            reveal_strlit("pwd");
        },
        Fun::SetEncoding => {
            reveal_strlit("encoding");
        },
        Fun::GetCharacterInfo => {
            reveal_strlit("character-info");
            reveal_strlit("char");
        },
        Fun::Reload => {
            reveal_strlit("reload");
            reveal_strlit("rl");
        },
        Fun::ReloadAll => {
            reveal_strlit("reload-all");
            reveal_strlit("rla");
        },
        Fun::Update => {
            reveal_strlit("update");
            reveal_strlit("u");
        },
        Fun::LspWorkspaceCommand => {
            reveal_strlit("lsp-workspace-command");
        },
        Fun::LspRestart => {
            reveal_strlit("lsp-restart");
        },
        Fun::LspStop => {
            reveal_strlit("lsp-stop");
        },
        Fun::TreeSitterScopes => {
            reveal_strlit("tree-sitter-scopes");
        },
        _ => {},
    }
}

proof fn lemma_marks_from_55(fun: Fun, name: Seq<char>)
    requires
        55 <= command::place_in_list(fun) < 66,
        command::is_called(fun, name),
    ensures
        name.len() > 0,
        name.last() == '!' <==> gentle(fun) is Some,
{
    match fun {
        Fun::TreeSitterHighlightName => {
            reveal_strlit("tree-sitter-highlight-name");
        },
        Fun::DebugStart => {
            reveal_strlit("debug-start");
            reveal_strlit("dbg");
        },
        Fun::DebugRemote => {
            reveal_strlit("debug-remote");
            reveal_strlit("dbg-tcp");
        },
        Fun::DebugEval => {
            reveal_strlit("debug-eval");
        },
        Fun::Vsplit => {
            reveal_strlit("vsplit");
            reveal_strlit("vs");
        },
        Fun::VsplitNew => {
            reveal_strlit("vsplit-new");
            reveal_strlit("vnew");
        },
        Fun::Hsplit => {
            reveal_strlit("hsplit");
            reveal_strlit("hs");
            reveal_strlit("sp");
        },
        Fun::HsplitNew => {
            reveal_strlit("hsplit-new");
            reveal_strlit("hnew");
        },
        Fun::Tutor => {
            reveal_strlit("tutor");
        },
        Fun::GotoLineNumber => {
            reveal_strlit("goto");
            reveal_strlit("g");
        },
        Fun::Language => {
            reveal_strlit("set-language");
            reveal_strlit("lang");
        },
        _ => {},
    }
}

proof fn lemma_marks_from_66(fun: Fun, name: Seq<char>)
    requires
        66 <= command::place_in_list(fun) < 77,
        command::is_called(fun, name),
    ensures
        name.len() > 0,
        name.last() == '!' <==> gentle(fun) is Some,
{
    match fun {
        Fun::SetOption => {
            reveal_strlit("set-option");
            reveal_strlit("set");
        },
        Fun::ToggleOption => {
            reveal_strlit("toggle-option");
            reveal_strlit("toggle");
        },
        Fun::GetOption => {
            reveal_strlit("get-option");
            reveal_strlit("get");
        },
        Fun::Sort => {
            reveal_strlit("sort");
        },
        Fun::SortReverse => {
            reveal_strlit("rsort");
        },
        Fun::Reflow => {
            reveal_strlit("reflow");
        },
        Fun::TreeSitterSubtree => {
            reveal_strlit("tree-sitter-subtree");
            reveal_strlit("ts-subtree");
        },
        Fun::RefreshConfig => {
            reveal_strlit("config-reload");
        },
        Fun::OpenConfig => {
            reveal_strlit("config-open");
        },
        Fun::OpenWorkspaceConfig => {
            reveal_strlit("config-open-workspace");
        },
        Fun::OpenLog => {
            reveal_strlit("log-open");
        },
        _ => {},
    }
}

proof fn lemma_marks_from_77(fun: Fun, name: Seq<char>)
    requires
        77 <= command::place_in_list(fun) < 88,
        command::is_called(fun, name),
    ensures
        name.len() > 0,
        name.last() == '!' <==> gentle(fun) is Some,
{
    match fun {
        Fun::InsertOutput => {
            reveal_strlit("insert-output");
        },
        Fun::AppendOutput => {
            reveal_strlit("append-output");
        },
        Fun::Pipe => {
            reveal_strlit("pipe");
        },
        Fun::PipeTo => {
            reveal_strlit("pipe-to");
        },
        Fun::RunShellCommand => {
            reveal_strlit("run-shell-command");
            reveal_strlit("sh");
        },
        Fun::ResetDiffChange => {
            reveal_strlit("reset-diff-change");
            reveal_strlit("diffget");
            reveal_strlit("diffg");
        },
        Fun::ClearRegister => {
            reveal_strlit("clear-register");
        },
        Fun::Redraw => {
            reveal_strlit("redraw");
        },
        Fun::MoveBuffer => {
            reveal_strlit("move");
            reveal_strlit("mv");
        },
        Fun::YankDiagnostic => {
            reveal_strlit("yank-diagnostic");
        },
        Fun::Read => {
            reveal_strlit("read");
            reveal_strlit("r");
        },
        _ => {},
    }
}

/// A command uses force if and only if the name that it is typed by ends in an exclamation mark,
/// be it its name or a shorter one.
pub proof fn lemma_exclamation_marks(fun: Fun, name: Seq<char>)
    requires
        command::is_called(fun, name),
    ensures
        name.len() > 0,
        name.last() == '!' <==> gentle(fun) is Some,
{
    command::lemma_listed(fun, 0);
    let place = command::place_in_list(fun);
    if place < 11 {
        lemma_marks_from_0(fun, name);
    } else if place < 22 {
        lemma_marks_from_11(fun, name);
    } else if place < 33 {
        lemma_marks_from_22(fun, name);
    } else if place < 44 {
        lemma_marks_from_33(fun, name);
    } else if place < 55 {
        lemma_marks_from_44(fun, name);
    } else if place < 66 {
        lemma_marks_from_55(fun, name);
    } else if place < 77 {
        lemma_marks_from_66(fun, name);
    } else {
        lemma_marks_from_77(fun, name);
    }
}

/// No name without an exclamation mark runs a command that uses force.
pub proof fn lemma_named_without_mark(
    name: Seq<char>,
    fun: Fun,
    editor: Editor,
    places: options::Places,
    args: ArgsView,
    event: PromptEvent,
    register: char,
)
    requires
        command::is_called(fun, name),
        name.last() != '!',
        run::runs_with(fun, args, event),
        names_register(args, register),
    ensures
        unforced(run::command_plan(fun, editor, places, args, event).steps),
{
    lemma_exclamation_marks(fun, name);
    lemma_without_force(fun, editor, places, args, event, register);
}

proof fn lemma_marked_first(fun: Fun, name: Seq<char>)
    requires
        gentle(fun) is Some,
        fun is ForceQuit
            || fun is ForceBufferClose
            || fun is ForceBufferCloseOthers
            || fun is ForceBufferCloseAll
            || fun is ForceWrite
            || fun is ForceWriteBufferClose,
    ensures
        command::is_called(gentle(fun)->0, name) ==> command::is_called(fun, name.push('!')),
{
    match fun {
        Fun::ForceQuit => {
            reveal_strlit("quit");
            reveal_strlit("quit!");
            assert("quit"@.push('!') =~= "quit!"@);
            reveal_strlit("q");
            reveal_strlit("q!");
            assert("q"@.push('!') =~= "q!"@);
            assert(command::command_aliases(fun)[0] == "q!"@);
        },
        Fun::ForceBufferClose => {
            reveal_strlit("buffer-close");
            reveal_strlit("buffer-close!");
            assert("buffer-close"@.push('!') =~= "buffer-close!"@);
            reveal_strlit("bc");
            reveal_strlit("bc!");
            assert("bc"@.push('!') =~= "bc!"@);
            reveal_strlit("bclose");
            reveal_strlit("bclose!");
            assert("bclose"@.push('!') =~= "bclose!"@);
            assert(command::command_aliases(fun)[0] == "bc!"@);
            assert(command::command_aliases(fun)[1] == "bclose!"@);
        },
        Fun::ForceBufferCloseOthers => {
            reveal_strlit("buffer-close-others");
            reveal_strlit("buffer-close-others!");
            assert("buffer-close-others"@.push('!') =~= "buffer-close-others!"@);
            reveal_strlit("bco");
            reveal_strlit("bco!");
            assert("bco"@.push('!') =~= "bco!"@);
            reveal_strlit("bcloseother");
            reveal_strlit("bcloseother!");
            assert("bcloseother"@.push('!') =~= "bcloseother!"@);
            assert(command::command_aliases(fun)[0] == "bco!"@);
            assert(command::command_aliases(fun)[1] == "bcloseother!"@);
        },
        Fun::ForceBufferCloseAll => {
            reveal_strlit("buffer-close-all");
            reveal_strlit("buffer-close-all!");
            assert("buffer-close-all"@.push('!') =~= "buffer-close-all!"@);
            reveal_strlit("bca");
            reveal_strlit("bca!");
            assert("bca"@.push('!') =~= "bca!"@);
            reveal_strlit("bcloseall");
            reveal_strlit("bcloseall!");
            assert("bcloseall"@.push('!') =~= "bcloseall!"@);
            assert(command::command_aliases(fun)[0] == "bca!"@);
            assert(command::command_aliases(fun)[1] == "bcloseall!"@);
        },
        Fun::ForceWrite => {
            reveal_strlit("write");
            reveal_strlit("write!");
            assert("write"@.push('!') =~= "write!"@);
            reveal_strlit("w");
            reveal_strlit("w!");
            assert("w"@.push('!') =~= "w!"@);
            assert(command::command_aliases(fun)[0] == "w!"@);
        },
        Fun::ForceWriteBufferClose => {
            reveal_strlit("write-buffer-close");
            reveal_strlit("write-buffer-close!");
            assert("write-buffer-close"@.push('!') =~= "write-buffer-close!"@);
            reveal_strlit("wbc");
            reveal_strlit("wbc!");
            assert("wbc"@.push('!') =~= "wbc!"@);
            assert(command::command_aliases(fun)[0] == "wbc!"@);
        },
        _ => {},
    }
}

proof fn lemma_marked_second(fun: Fun, name: Seq<char>)
    requires
        gentle(fun) is Some,
        fun is ForceWriteQuit
            || fun is ForceWriteAll
            || fun is ForceWriteAllQuit
            || fun is ForceQuitAll
            || fun is ForceCquit,
    ensures
        command::is_called(gentle(fun)->0, name) ==> command::is_called(fun, name.push('!')),
{
    match fun {
        Fun::ForceWriteQuit => {
            reveal_strlit("write-quit");
            reveal_strlit("write-quit!");
            assert("write-quit"@.push('!') =~= "write-quit!"@);
            reveal_strlit("wq");
            reveal_strlit("wq!");
            assert("wq"@.push('!') =~= "wq!"@);
            reveal_strlit("x");
            reveal_strlit("x!");
            assert("x"@.push('!') =~= "x!"@);
            assert(command::command_aliases(fun)[0] == "wq!"@);
            assert(command::command_aliases(fun)[1] == "x!"@);
        },
        Fun::ForceWriteAll => {
            reveal_strlit("write-all");
            reveal_strlit("write-all!");
            assert("write-all"@.push('!') =~= "write-all!"@);
            reveal_strlit("wa");
            reveal_strlit("wa!");
            assert("wa"@.push('!') =~= "wa!"@);
            assert(command::command_aliases(fun)[0] == "wa!"@);
        },
        Fun::ForceWriteAllQuit => {
            reveal_strlit("write-quit-all");
            reveal_strlit("write-quit-all!");
            assert("write-quit-all"@.push('!') =~= "write-quit-all!"@);
            reveal_strlit("wqa");
            reveal_strlit("wqa!");
            assert("wqa"@.push('!') =~= "wqa!"@);
            reveal_strlit("xa");
            reveal_strlit("xa!");
            assert("xa"@.push('!') =~= "xa!"@);
            assert(command::command_aliases(fun)[0] == "wqa!"@);
            assert(command::command_aliases(fun)[1] == "xa!"@);
        },
        Fun::ForceQuitAll => {
            reveal_strlit("quit-all");
            reveal_strlit("quit-all!");
            assert("quit-all"@.push('!') =~= "quit-all!"@);
            reveal_strlit("qa");
            reveal_strlit("qa!");
            assert("qa"@.push('!') =~= "qa!"@);
            assert(command::command_aliases(fun)[0] == "qa!"@);
        },
        Fun::ForceCquit => {
            reveal_strlit("cquit");
            reveal_strlit("cquit!");
            assert("cquit"@.push('!') =~= "cquit!"@);
            reveal_strlit("cq");
            reveal_strlit("cq!");
            assert("cq"@.push('!') =~= "cq!"@);
            assert(command::command_aliases(fun)[0] == "cq!"@);
        },
        _ => {},
    }
}

/// The name of a command with an exclamation mark behind it is the name of the command that does
/// the same with force, and so is each of its shorter names.
pub proof fn lemma_marked_name(fun: Fun, name: Seq<char>)
    requires
        gentle(fun) is Some,
        command::is_called(gentle(fun)->0, name),
    ensures
        command::is_called(fun, name.push('!')),
{
    if fun is ForceQuit
        || fun is ForceBufferClose
        || fun is ForceBufferCloseOthers
        || fun is ForceBufferCloseAll
        || fun is ForceWrite
        || fun is ForceWriteBufferClose {
        lemma_marked_first(fun, name);
    } else {
        lemma_marked_second(fun, name);
    }
}

} // verus!
