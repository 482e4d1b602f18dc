//! The names by which commands are typed.
use vstd::prelude::*;

use crate::command;
use crate::command::Fun;

verus! {

/// The names of the commands for closing documents and views.
pub proof fn lemma_names_of_closing()
    ensures
        command::command_called("quit"@) == Some(Fun::Quit),
        command::command_called("q"@) == Some(Fun::Quit),
        command::command_called("quit!"@) == Some(Fun::ForceQuit),
        command::command_called("q!"@) == Some(Fun::ForceQuit),
        command::command_called("open"@) == Some(Fun::Open),
        command::command_called("o"@) == Some(Fun::Open),
        command::command_called("edit"@) == Some(Fun::Open),
        command::command_called("e"@) == Some(Fun::Open),
        command::command_called("buffer-close"@) == Some(Fun::BufferClose),
        command::command_called("bc"@) == Some(Fun::BufferClose),
        command::command_called("bclose"@) == Some(Fun::BufferClose),
        command::command_called("buffer-close!"@) == Some(Fun::ForceBufferClose),
        command::command_called("bc!"@) == Some(Fun::ForceBufferClose),
        command::command_called("bclose!"@) == Some(Fun::ForceBufferClose),
        command::command_called("buffer-close-others"@) == Some(Fun::BufferCloseOthers),
        command::command_called("bco"@) == Some(Fun::BufferCloseOthers),
        command::command_called("bcloseother"@) == Some(Fun::BufferCloseOthers),
        command::command_called("buffer-close-others!"@) == Some(Fun::ForceBufferCloseOthers),
        command::command_called("bco!"@) == Some(Fun::ForceBufferCloseOthers),
        command::command_called("bcloseother!"@) == Some(Fun::ForceBufferCloseOthers),
        command::command_called("buffer-close-all"@) == Some(Fun::BufferCloseAll),
        command::command_called("bca"@) == Some(Fun::BufferCloseAll),
        command::command_called("bcloseall"@) == Some(Fun::BufferCloseAll),
        command::command_called("buffer-close-all!"@) == Some(Fun::ForceBufferCloseAll),
        command::command_called("bca!"@) == Some(Fun::ForceBufferCloseAll),
        command::command_called("bcloseall!"@) == Some(Fun::ForceBufferCloseAll),
        command::command_called("buffer-next"@) == Some(Fun::BufferNext),
        command::command_called("bn"@) == Some(Fun::BufferNext),
        command::command_called("bnext"@) == Some(Fun::BufferNext),
        command::command_called("buffer-previous"@) == Some(Fun::BufferPrevious),
        command::command_called("bp"@) == Some(Fun::BufferPrevious),
        command::command_called("bprev"@) == Some(Fun::BufferPrevious),
{
    assert(command::command_aliases(Fun::Quit)[0] == "q"@);
    command::lemma_command_called(Fun::Quit, "quit"@);
    command::lemma_command_called(Fun::Quit, "q"@);
    assert(command::command_aliases(Fun::ForceQuit)[0] == "q!"@);
    command::lemma_command_called(Fun::ForceQuit, "quit!"@);
    command::lemma_command_called(Fun::ForceQuit, "q!"@);
    assert(command::command_aliases(Fun::Open)[0] == "o"@);
    assert(command::command_aliases(Fun::Open)[1] == "edit"@);
    assert(command::command_aliases(Fun::Open)[2] == "e"@);
    command::lemma_command_called(Fun::Open, "open"@);
    command::lemma_command_called(Fun::Open, "o"@);
    command::lemma_command_called(Fun::Open, "edit"@);
    command::lemma_command_called(Fun::Open, "e"@);
    assert(command::command_aliases(Fun::BufferClose)[0] == "bc"@);
    assert(command::command_aliases(Fun::BufferClose)[1] == "bclose"@);
    command::lemma_command_called(Fun::BufferClose, "buffer-close"@);
    command::lemma_command_called(Fun::BufferClose, "bc"@);
    command::lemma_command_called(Fun::BufferClose, "bclose"@);
    assert(command::command_aliases(Fun::ForceBufferClose)[0] == "bc!"@);
    assert(command::command_aliases(Fun::ForceBufferClose)[1] == "bclose!"@);
    command::lemma_command_called(Fun::ForceBufferClose, "buffer-close!"@);
    command::lemma_command_called(Fun::ForceBufferClose, "bc!"@);
    command::lemma_command_called(Fun::ForceBufferClose, "bclose!"@);
    assert(command::command_aliases(Fun::BufferCloseOthers)[0] == "bco"@);
    assert(command::command_aliases(Fun::BufferCloseOthers)[1] == "bcloseother"@);
    command::lemma_command_called(Fun::BufferCloseOthers, "buffer-close-others"@);
    command::lemma_command_called(Fun::BufferCloseOthers, "bco"@);
    command::lemma_command_called(Fun::BufferCloseOthers, "bcloseother"@);
    assert(command::command_aliases(Fun::ForceBufferCloseOthers)[0] == "bco!"@);
    assert(command::command_aliases(Fun::ForceBufferCloseOthers)[1] == "bcloseother!"@);
    command::lemma_command_called(Fun::ForceBufferCloseOthers, "buffer-close-others!"@);
    command::lemma_command_called(Fun::ForceBufferCloseOthers, "bco!"@);
    command::lemma_command_called(Fun::ForceBufferCloseOthers, "bcloseother!"@);
    assert(command::command_aliases(Fun::BufferCloseAll)[0] == "bca"@);
    assert(command::command_aliases(Fun::BufferCloseAll)[1] == "bcloseall"@);
    command::lemma_command_called(Fun::BufferCloseAll, "buffer-close-all"@);
    command::lemma_command_called(Fun::BufferCloseAll, "bca"@);
    command::lemma_command_called(Fun::BufferCloseAll, "bcloseall"@);
    assert(command::command_aliases(Fun::ForceBufferCloseAll)[0] == "bca!"@);
    assert(command::command_aliases(Fun::ForceBufferCloseAll)[1] == "bcloseall!"@);
    command::lemma_command_called(Fun::ForceBufferCloseAll, "buffer-close-all!"@);
    command::lemma_command_called(Fun::ForceBufferCloseAll, "bca!"@);
    command::lemma_command_called(Fun::ForceBufferCloseAll, "bcloseall!"@);
    assert(command::command_aliases(Fun::BufferNext)[0] == "bn"@);
    assert(command::command_aliases(Fun::BufferNext)[1] == "bnext"@);
    command::lemma_command_called(Fun::BufferNext, "buffer-next"@);
    command::lemma_command_called(Fun::BufferNext, "bn"@);
    command::lemma_command_called(Fun::BufferNext, "bnext"@);
    assert(command::command_aliases(Fun::BufferPrevious)[0] == "bp"@);
    assert(command::command_aliases(Fun::BufferPrevious)[1] == "bprev"@);
    command::lemma_command_called(Fun::BufferPrevious, "buffer-previous"@);
    command::lemma_command_called(Fun::BufferPrevious, "bp"@);
    command::lemma_command_called(Fun::BufferPrevious, "bprev"@);
}

/// The names of the commands for writing and leaving.
pub proof fn lemma_names_of_writing()
    ensures
        command::command_called("write"@) == Some(Fun::Write),
        command::command_called("w"@) == Some(Fun::Write),
        command::command_called("write!"@) == Some(Fun::ForceWrite),
        command::command_called("w!"@) == Some(Fun::ForceWrite),
        command::command_called("write-buffer-close"@) == Some(Fun::WriteBufferClose),
        command::command_called("wbc"@) == Some(Fun::WriteBufferClose),
        command::command_called("write-buffer-close!"@) == Some(Fun::ForceWriteBufferClose),
        command::command_called("wbc!"@) == Some(Fun::ForceWriteBufferClose),
        command::command_called("new"@) == Some(Fun::NewFile),
        command::command_called("n"@) == Some(Fun::NewFile),
        command::command_called("format"@) == Some(Fun::Format),
        command::command_called("fmt"@) == Some(Fun::Format),
        command::command_called("indent-style"@) == Some(Fun::SetIndentStyle),
        command::command_called("line-ending"@) == Some(Fun::SetLineEnding),
        command::command_called("earlier"@) == Some(Fun::Earlier),
        command::command_called("ear"@) == Some(Fun::Earlier),
        command::command_called("later"@) == Some(Fun::Later),
        command::command_called("lat"@) == Some(Fun::Later),
        command::command_called("write-quit"@) == Some(Fun::WriteQuit),
        command::command_called("wq"@) == Some(Fun::WriteQuit),
        command::command_called("x"@) == Some(Fun::WriteQuit),
        command::command_called("write-quit!"@) == Some(Fun::ForceWriteQuit),
        command::command_called("wq!"@) == Some(Fun::ForceWriteQuit),
        command::command_called("x!"@) == Some(Fun::ForceWriteQuit),
        command::command_called("write-all"@) == Some(Fun::WriteAll),
        command::command_called("wa"@) == Some(Fun::WriteAll),
        command::command_called("write-all!"@) == Some(Fun::ForceWriteAll),
        command::command_called("wa!"@) == Some(Fun::ForceWriteAll),
        command::command_called("write-quit-all"@) == Some(Fun::WriteAllQuit),
        command::command_called("wqa"@) == Some(Fun::WriteAllQuit),
        command::command_called("xa"@) == Some(Fun::WriteAllQuit),
        command::command_called("write-quit-all!"@) == Some(Fun::ForceWriteAllQuit),
        command::command_called("wqa!"@) == Some(Fun::ForceWriteAllQuit),
        command::command_called("xa!"@) == Some(Fun::ForceWriteAllQuit),
        command::command_called("quit-all"@) == Some(Fun::QuitAll),
        command::command_called("qa"@) == Some(Fun::QuitAll),
        command::command_called("quit-all!"@) == Some(Fun::ForceQuitAll),
        command::command_called("qa!"@) == Some(Fun::ForceQuitAll),
        command::command_called("cquit"@) == Some(Fun::Cquit),
        command::command_called("cq"@) == Some(Fun::Cquit),
        command::command_called("cquit!"@) == Some(Fun::ForceCquit),
        command::command_called("cq!"@) == Some(Fun::ForceCquit),
{
    assert(command::command_aliases(Fun::Write)[0] == "w"@);
    command::lemma_command_called(Fun::Write, "write"@);
    command::lemma_command_called(Fun::Write, "w"@);
    assert(command::command_aliases(Fun::ForceWrite)[0] == "w!"@);
    command::lemma_command_called(Fun::ForceWrite, "write!"@);
    command::lemma_command_called(Fun::ForceWrite, "w!"@);
    assert(command::command_aliases(Fun::WriteBufferClose)[0] == "wbc"@);
    command::lemma_command_called(Fun::WriteBufferClose, "write-buffer-close"@);
    command::lemma_command_called(Fun::WriteBufferClose, "wbc"@);
    assert(command::command_aliases(Fun::ForceWriteBufferClose)[0] == "wbc!"@);
    command::lemma_command_called(Fun::ForceWriteBufferClose, "write-buffer-close!"@);
    command::lemma_command_called(Fun::ForceWriteBufferClose, "wbc!"@);
    assert(command::command_aliases(Fun::NewFile)[0] == "n"@);
    command::lemma_command_called(Fun::NewFile, "new"@);
    command::lemma_command_called(Fun::NewFile, "n"@);
    assert(command::command_aliases(Fun::Format)[0] == "fmt"@);
    command::lemma_command_called(Fun::Format, "format"@);
    command::lemma_command_called(Fun::Format, "fmt"@);
    command::lemma_command_called(Fun::SetIndentStyle, "indent-style"@);
    command::lemma_command_called(Fun::SetLineEnding, "line-ending"@);
    assert(command::command_aliases(Fun::Earlier)[0] == "ear"@);
    command::lemma_command_called(Fun::Earlier, "earlier"@);
    command::lemma_command_called(Fun::Earlier, "ear"@);
    assert(command::command_aliases(Fun::Later)[0] == "lat"@);
    command::lemma_command_called(Fun::Later, "later"@);
    command::lemma_command_called(Fun::Later, "lat"@);
    assert(command::command_aliases(Fun::WriteQuit)[0] == "wq"@);
    assert(command::command_aliases(Fun::WriteQuit)[1] == "x"@);
    command::lemma_command_called(Fun::WriteQuit, "write-quit"@);
    command::lemma_command_called(Fun::WriteQuit, "wq"@);
    command::lemma_command_called(Fun::WriteQuit, "x"@);
    assert(command::command_aliases(Fun::ForceWriteQuit)[0] == "wq!"@);
    assert(command::command_aliases(Fun::ForceWriteQuit)[1] == "x!"@);
    command::lemma_command_called(Fun::ForceWriteQuit, "write-quit!"@);
    command::lemma_command_called(Fun::ForceWriteQuit, "wq!"@);
    command::lemma_command_called(Fun::ForceWriteQuit, "x!"@);
    assert(command::command_aliases(Fun::WriteAll)[0] == "wa"@);
    command::lemma_command_called(Fun::WriteAll, "write-all"@);
    command::lemma_command_called(Fun::WriteAll, "wa"@);
    assert(command::command_aliases(Fun::ForceWriteAll)[0] == "wa!"@);
    command::lemma_command_called(Fun::ForceWriteAll, "write-all!"@);
    command::lemma_command_called(Fun::ForceWriteAll, "wa!"@);
    assert(command::command_aliases(Fun::WriteAllQuit)[0] == "wqa"@);
    assert(command::command_aliases(Fun::WriteAllQuit)[1] == "xa"@);
    command::lemma_command_called(Fun::WriteAllQuit, "write-quit-all"@);
    command::lemma_command_called(Fun::WriteAllQuit, "wqa"@);
    command::lemma_command_called(Fun::WriteAllQuit, "xa"@);
    assert(command::command_aliases(Fun::ForceWriteAllQuit)[0] == "wqa!"@);
    assert(command::command_aliases(Fun::ForceWriteAllQuit)[1] == "xa!"@);
    command::lemma_command_called(Fun::ForceWriteAllQuit, "write-quit-all!"@);
    command::lemma_command_called(Fun::ForceWriteAllQuit, "wqa!"@);
    command::lemma_command_called(Fun::ForceWriteAllQuit, "xa!"@);
    assert(command::command_aliases(Fun::QuitAll)[0] == "qa"@);
    command::lemma_command_called(Fun::QuitAll, "quit-all"@);
    command::lemma_command_called(Fun::QuitAll, "qa"@);
    assert(command::command_aliases(Fun::ForceQuitAll)[0] == "qa!"@);
    command::lemma_command_called(Fun::ForceQuitAll, "quit-all!"@);
    command::lemma_command_called(Fun::ForceQuitAll, "qa!"@);
    assert(command::command_aliases(Fun::Cquit)[0] == "cq"@);
    command::lemma_command_called(Fun::Cquit, "cquit"@);
    command::lemma_command_called(Fun::Cquit, "cq"@);
    assert(command::command_aliases(Fun::ForceCquit)[0] == "cq!"@);
    command::lemma_command_called(Fun::ForceCquit, "cquit!"@);
    command::lemma_command_called(Fun::ForceCquit, "cq!"@);
}

/// The names of the commands for clipboards and directories.
pub proof fn lemma_names_of_clipboards()
    ensures
        command::command_called("theme"@) == Some(Fun::Theme),
        command::command_called("yank-join"@) == Some(Fun::YankJoined),
        command::command_called("clipboard-yank"@) == Some(Fun::YankMainSelectionToClipboard),
        command::command_called("clipboard-yank-join"@) == Some(Fun::YankJoinedToClipboard),
        command::command_called("primary-clipboard-yank"@) == Some(Fun::YankMainSelectionToPrimaryClipboard),
        command::command_called("primary-clipboard-yank-join"@) == Some(Fun::YankJoinedToPrimaryClipboard),
        command::command_called("clipboard-paste-after"@) == Some(Fun::PasteClipboardAfter),
        command::command_called("clipboard-paste-before"@) == Some(Fun::PasteClipboardBefore),
        command::command_called("clipboard-paste-replace"@) == Some(Fun::ReplaceSelectionsWithClipboard),
        command::command_called("primary-clipboard-paste-after"@) == Some(Fun::PastePrimaryClipboardAfter),
        command::command_called("primary-clipboard-paste-before"@) == Some(Fun::PastePrimaryClipboardBefore),
        command::command_called("primary-clipboard-paste-replace"@) == Some(Fun::ReplaceSelectionsWithPrimaryClipboard),
        command::command_called("show-clipboard-provider"@) == Some(Fun::ShowClipboardProvider),
        command::command_called("change-current-directory"@) == Some(Fun::ChangeCurrentDirectory),
        command::command_called("cd"@) == Some(Fun::ChangeCurrentDirectory),
        command::command_called("show-directory"@) == Some(Fun::ShowCurrentDirectory),
        command::command_called("pwd"@) == Some(Fun::ShowCurrentDirectory),
        command::command_called("encoding"@) == Some(Fun::SetEncoding),
        command::command_called("character-info"@) == Some(Fun::GetCharacterInfo),
        command::command_called("char"@) == Some(Fun::GetCharacterInfo),
{
    command::lemma_command_called(Fun::Theme, "theme"@);
    command::lemma_command_called(Fun::YankJoined, "yank-join"@);
    command::lemma_command_called(Fun::YankMainSelectionToClipboard, "clipboard-yank"@);
    command::lemma_command_called(Fun::YankJoinedToClipboard, "clipboard-yank-join"@);
    command::lemma_command_called(Fun::YankMainSelectionToPrimaryClipboard, "primary-clipboard-yank"@);
    command::lemma_command_called(Fun::YankJoinedToPrimaryClipboard, "primary-clipboard-yank-join"@);
    command::lemma_command_called(Fun::PasteClipboardAfter, "clipboard-paste-after"@);
    command::lemma_command_called(Fun::PasteClipboardBefore, "clipboard-paste-before"@);
    command::lemma_command_called(Fun::ReplaceSelectionsWithClipboard, "clipboard-paste-replace"@);
    command::lemma_command_called(Fun::PastePrimaryClipboardAfter, "primary-clipboard-paste-after"@);
    command::lemma_command_called(Fun::PastePrimaryClipboardBefore, "primary-clipboard-paste-before"@);
    command::lemma_command_called(Fun::ReplaceSelectionsWithPrimaryClipboard, "primary-clipboard-paste-replace"@);
    command::lemma_command_called(Fun::ShowClipboardProvider, "show-clipboard-provider"@);
    assert(command::command_aliases(Fun::ChangeCurrentDirectory)[0] == "cd"@);
    command::lemma_command_called(Fun::ChangeCurrentDirectory, "change-current-directory"@);
    command::lemma_command_called(Fun::ChangeCurrentDirectory, "cd"@);
    assert(command::command_aliases(Fun::ShowCurrentDirectory)[0] == "pwd"@);
    command::lemma_command_called(Fun::ShowCurrentDirectory, "show-directory"@);
    command::lemma_command_called(Fun::ShowCurrentDirectory, "pwd"@);
    command::lemma_command_called(Fun::SetEncoding, "encoding"@);
    assert(command::command_aliases(Fun::GetCharacterInfo)[0] == "char"@);
    command::lemma_command_called(Fun::GetCharacterInfo, "character-info"@);
    command::lemma_command_called(Fun::GetCharacterInfo, "char"@);
}

/// The names of the commands for documents and servers.
pub proof fn lemma_names_of_servers()
    ensures
        command::command_called("reload"@) == Some(Fun::Reload),
        command::command_called("rl"@) == Some(Fun::Reload),
        command::command_called("reload-all"@) == Some(Fun::ReloadAll),
        command::command_called("rla"@) == Some(Fun::ReloadAll),
        command::command_called("update"@) == Some(Fun::Update),
        command::command_called("u"@) == Some(Fun::Update),
        command::command_called("lsp-workspace-command"@) == Some(Fun::LspWorkspaceCommand),
        command::command_called("lsp-restart"@) == Some(Fun::LspRestart),
        command::command_called("lsp-stop"@) == Some(Fun::LspStop),
        command::command_called("tree-sitter-scopes"@) == Some(Fun::TreeSitterScopes),
        command::command_called("tree-sitter-highlight-name"@) == Some(Fun::TreeSitterHighlightName),
        command::command_called("debug-start"@) == Some(Fun::DebugStart),
        command::command_called("dbg"@) == Some(Fun::DebugStart),
        command::command_called("debug-remote"@) == Some(Fun::DebugRemote),
        command::command_called("dbg-tcp"@) == Some(Fun::DebugRemote),
        command::command_called("debug-eval"@) == Some(Fun::DebugEval),
        command::command_called("vsplit"@) == Some(Fun::Vsplit),
        command::command_called("vs"@) == Some(Fun::Vsplit),
        command::command_called("vsplit-new"@) == Some(Fun::VsplitNew),
        command::command_called("vnew"@) == Some(Fun::VsplitNew),
        command::command_called("hsplit"@) == Some(Fun::Hsplit),
        command::command_called("hs"@) == Some(Fun::Hsplit),
        command::command_called("sp"@) == Some(Fun::Hsplit),
        command::command_called("hsplit-new"@) == Some(Fun::HsplitNew),
        command::command_called("hnew"@) == Some(Fun::HsplitNew),
        command::command_called("tutor"@) == Some(Fun::Tutor),
        command::command_called("goto"@) == Some(Fun::GotoLineNumber),
        command::command_called("g"@) == Some(Fun::GotoLineNumber),
        command::command_called("set-language"@) == Some(Fun::Language),
        command::command_called("lang"@) == Some(Fun::Language),
{
    assert(command::command_aliases(Fun::Reload)[0] == "rl"@);
    command::lemma_command_called(Fun::Reload, "reload"@);
    command::lemma_command_called(Fun::Reload, "rl"@);
    assert(command::command_aliases(Fun::ReloadAll)[0] == "rla"@);
    command::lemma_command_called(Fun::ReloadAll, "reload-all"@);
    command::lemma_command_called(Fun::ReloadAll, "rla"@);
    assert(command::command_aliases(Fun::Update)[0] == "u"@);
    command::lemma_command_called(Fun::Update, "update"@);
    command::lemma_command_called(Fun::Update, "u"@);
    command::lemma_command_called(Fun::LspWorkspaceCommand, "lsp-workspace-command"@);
    command::lemma_command_called(Fun::LspRestart, "lsp-restart"@);
    command::lemma_command_called(Fun::LspStop, "lsp-stop"@);
    command::lemma_command_called(Fun::TreeSitterScopes, "tree-sitter-scopes"@);
    command::lemma_command_called(Fun::TreeSitterHighlightName, "tree-sitter-highlight-name"@);
    assert(command::command_aliases(Fun::DebugStart)[0] == "dbg"@);
    command::lemma_command_called(Fun::DebugStart, "debug-start"@);
    command::lemma_command_called(Fun::DebugStart, "dbg"@);
    assert(command::command_aliases(Fun::DebugRemote)[0] == "dbg-tcp"@);
    command::lemma_command_called(Fun::DebugRemote, "debug-remote"@);
    command::lemma_command_called(Fun::DebugRemote, "dbg-tcp"@);
    command::lemma_command_called(Fun::DebugEval, "debug-eval"@);
    assert(command::command_aliases(Fun::Vsplit)[0] == "vs"@);
    command::lemma_command_called(Fun::Vsplit, "vsplit"@);
    command::lemma_command_called(Fun::Vsplit, "vs"@);
    assert(command::command_aliases(Fun::VsplitNew)[0] == "vnew"@);
    command::lemma_command_called(Fun::VsplitNew, "vsplit-new"@);
    command::lemma_command_called(Fun::VsplitNew, "vnew"@);
    assert(command::command_aliases(Fun::Hsplit)[0] == "hs"@);
    assert(command::command_aliases(Fun::Hsplit)[1] == "sp"@);
    command::lemma_command_called(Fun::Hsplit, "hsplit"@);
    command::lemma_command_called(Fun::Hsplit, "hs"@);
    command::lemma_command_called(Fun::Hsplit, "sp"@);
    assert(command::command_aliases(Fun::HsplitNew)[0] == "hnew"@);
    command::lemma_command_called(Fun::HsplitNew, "hsplit-new"@);
    command::lemma_command_called(Fun::HsplitNew, "hnew"@);
    command::lemma_command_called(Fun::Tutor, "tutor"@);
    assert(command::command_aliases(Fun::GotoLineNumber)[0] == "g"@);
    command::lemma_command_called(Fun::GotoLineNumber, "goto"@);
    command::lemma_command_called(Fun::GotoLineNumber, "g"@);
    assert(command::command_aliases(Fun::Language)[0] == "lang"@);
    command::lemma_command_called(Fun::Language, "set-language"@);
    command::lemma_command_called(Fun::Language, "lang"@);
}

/// The names of the commands for options and selections.
pub proof fn lemma_names_of_options()
    ensures
        command::command_called("set-option"@) == Some(Fun::SetOption),
        command::command_called("set"@) == Some(Fun::SetOption),
        command::command_called("toggle-option"@) == Some(Fun::ToggleOption),
        command::command_called("toggle"@) == Some(Fun::ToggleOption),
        command::command_called("get-option"@) == Some(Fun::GetOption),
        command::command_called("get"@) == Some(Fun::GetOption),
        command::command_called("sort"@) == Some(Fun::Sort),
        command::command_called("rsort"@) == Some(Fun::SortReverse),
        command::command_called("reflow"@) == Some(Fun::Reflow),
        command::command_called("tree-sitter-subtree"@) == Some(Fun::TreeSitterSubtree),
        command::command_called("ts-subtree"@) == Some(Fun::TreeSitterSubtree),
        command::command_called("config-reload"@) == Some(Fun::RefreshConfig),
        command::command_called("config-open"@) == Some(Fun::OpenConfig),
        command::command_called("config-open-workspace"@) == Some(Fun::OpenWorkspaceConfig),
        command::command_called("log-open"@) == Some(Fun::OpenLog),
{
    assert(command::command_aliases(Fun::SetOption)[0] == "set"@);
    command::lemma_command_called(Fun::SetOption, "set-option"@);
    command::lemma_command_called(Fun::SetOption, "set"@);
    assert(command::command_aliases(Fun::ToggleOption)[0] == "toggle"@);
    command::lemma_command_called(Fun::ToggleOption, "toggle-option"@);
    command::lemma_command_called(Fun::ToggleOption, "toggle"@);
    assert(command::command_aliases(Fun::GetOption)[0] == "get"@);
    command::lemma_command_called(Fun::GetOption, "get-option"@);
    command::lemma_command_called(Fun::GetOption, "get"@);
    command::lemma_command_called(Fun::Sort, "sort"@);
    command::lemma_command_called(Fun::SortReverse, "rsort"@);
    command::lemma_command_called(Fun::Reflow, "reflow"@);
    assert(command::command_aliases(Fun::TreeSitterSubtree)[0] == "ts-subtree"@);
    command::lemma_command_called(Fun::TreeSitterSubtree, "tree-sitter-subtree"@);
    command::lemma_command_called(Fun::TreeSitterSubtree, "ts-subtree"@);
    command::lemma_command_called(Fun::RefreshConfig, "config-reload"@);
    command::lemma_command_called(Fun::OpenConfig, "config-open"@);
    command::lemma_command_called(Fun::OpenWorkspaceConfig, "config-open-workspace"@);
    command::lemma_command_called(Fun::OpenLog, "log-open"@);
}

/// The names of the commands for shell commands and the rest.
pub proof fn lemma_names_of_shell()
    ensures
        command::command_called("insert-output"@) == Some(Fun::InsertOutput),
        command::command_called("append-output"@) == Some(Fun::AppendOutput),
        command::command_called("pipe"@) == Some(Fun::Pipe),
        command::command_called("pipe-to"@) == Some(Fun::PipeTo),
        command::command_called("run-shell-command"@) == Some(Fun::RunShellCommand),
        command::command_called("sh"@) == Some(Fun::RunShellCommand),
        command::command_called("reset-diff-change"@) == Some(Fun::ResetDiffChange),
        command::command_called("diffget"@) == Some(Fun::ResetDiffChange),
        command::command_called("diffg"@) == Some(Fun::ResetDiffChange),
        command::command_called("clear-register"@) == Some(Fun::ClearRegister),
        command::command_called("redraw"@) == Some(Fun::Redraw),
        command::command_called("move"@) == Some(Fun::MoveBuffer),
        command::command_called("mv"@) == Some(Fun::MoveBuffer),
        command::command_called("yank-diagnostic"@) == Some(Fun::YankDiagnostic),
        command::command_called("read"@) == Some(Fun::Read),
        command::command_called("r"@) == Some(Fun::Read),
{
    command::lemma_command_called(Fun::InsertOutput, "insert-output"@);
    command::lemma_command_called(Fun::AppendOutput, "append-output"@);
    command::lemma_command_called(Fun::Pipe, "pipe"@);
    command::lemma_command_called(Fun::PipeTo, "pipe-to"@);
    assert(command::command_aliases(Fun::RunShellCommand)[0] == "sh"@);
    command::lemma_command_called(Fun::RunShellCommand, "run-shell-command"@);
    command::lemma_command_called(Fun::RunShellCommand, "sh"@);
    assert(command::command_aliases(Fun::ResetDiffChange)[0] == "diffget"@);
    assert(command::command_aliases(Fun::ResetDiffChange)[1] == "diffg"@);
    command::lemma_command_called(Fun::ResetDiffChange, "reset-diff-change"@);
    command::lemma_command_called(Fun::ResetDiffChange, "diffget"@);
    command::lemma_command_called(Fun::ResetDiffChange, "diffg"@);
    command::lemma_command_called(Fun::ClearRegister, "clear-register"@);
    command::lemma_command_called(Fun::Redraw, "redraw"@);
    assert(command::command_aliases(Fun::MoveBuffer)[0] == "mv"@);
    command::lemma_command_called(Fun::MoveBuffer, "move"@);
    command::lemma_command_called(Fun::MoveBuffer, "mv"@);
    command::lemma_command_called(Fun::YankDiagnostic, "yank-diagnostic"@);
    assert(command::command_aliases(Fun::Read)[0] == "r"@);
    command::lemma_command_called(Fun::Read, "read"@);
    command::lemma_command_called(Fun::Read, "r"@);
}

/// The order in which commands are listed.
pub proof fn lemma_order()
    ensures
        command::listed(0) == Fun::Quit,
        command::listed(1) == Fun::ForceQuit,
        command::listed(2) == Fun::Open,
        command::listed(3) == Fun::BufferClose,
        command::listed(4) == Fun::ForceBufferClose,
        command::listed(5) == Fun::BufferCloseOthers,
        command::listed(6) == Fun::ForceBufferCloseOthers,
        command::listed(7) == Fun::BufferCloseAll,
        command::listed(8) == Fun::ForceBufferCloseAll,
        command::listed(9) == Fun::BufferNext,
        command::listed(10) == Fun::BufferPrevious,
        command::listed(11) == Fun::Write,
        command::listed(12) == Fun::ForceWrite,
        command::listed(13) == Fun::WriteBufferClose,
        command::listed(14) == Fun::ForceWriteBufferClose,
        command::listed(15) == Fun::NewFile,
        command::listed(16) == Fun::Format,
        command::listed(17) == Fun::SetIndentStyle,
        command::listed(18) == Fun::SetLineEnding,
        command::listed(19) == Fun::Earlier,
        command::listed(20) == Fun::Later,
        command::listed(21) == Fun::WriteQuit,
        command::listed(22) == Fun::ForceWriteQuit,
        command::listed(23) == Fun::WriteAll,
        command::listed(24) == Fun::ForceWriteAll,
        command::listed(25) == Fun::WriteAllQuit,
        command::listed(26) == Fun::ForceWriteAllQuit,
        command::listed(27) == Fun::QuitAll,
        command::listed(28) == Fun::ForceQuitAll,
        command::listed(29) == Fun::Cquit,
        command::listed(30) == Fun::ForceCquit,
        command::listed(31) == Fun::Theme,
        command::listed(32) == Fun::YankJoined,
        command::listed(33) == Fun::YankMainSelectionToClipboard,
        command::listed(34) == Fun::YankJoinedToClipboard,
        command::listed(35) == Fun::YankMainSelectionToPrimaryClipboard,
        command::listed(36) == Fun::YankJoinedToPrimaryClipboard,
        command::listed(37) == Fun::PasteClipboardAfter,
        command::listed(38) == Fun::PasteClipboardBefore,
        command::listed(39) == Fun::ReplaceSelectionsWithClipboard,
        command::listed(40) == Fun::PastePrimaryClipboardAfter,
        command::listed(41) == Fun::PastePrimaryClipboardBefore,
        command::listed(42) == Fun::ReplaceSelectionsWithPrimaryClipboard,
        command::listed(43) == Fun::ShowClipboardProvider,
        command::listed(44) == Fun::ChangeCurrentDirectory,
        command::listed(45) == Fun::ShowCurrentDirectory,
        command::listed(46) == Fun::SetEncoding,
        command::listed(47) == Fun::GetCharacterInfo,
        command::listed(48) == Fun::Reload,
        command::listed(49) == Fun::ReloadAll,
        command::listed(50) == Fun::Update,
        command::listed(51) == Fun::LspWorkspaceCommand,
        command::listed(52) == Fun::LspRestart,
        command::listed(53) == Fun::LspStop,
        command::listed(54) == Fun::TreeSitterScopes,
        command::listed(55) == Fun::TreeSitterHighlightName,
        command::listed(56) == Fun::DebugStart,
        command::listed(57) == Fun::DebugRemote,
        command::listed(58) == Fun::DebugEval,
        command::listed(59) == Fun::Vsplit,
        command::listed(60) == Fun::VsplitNew,
        command::listed(61) == Fun::Hsplit,
        command::listed(62) == Fun::HsplitNew,
        command::listed(63) == Fun::Tutor,
        command::listed(64) == Fun::GotoLineNumber,
        command::listed(65) == Fun::Language,
        command::listed(66) == Fun::SetOption,
        command::listed(67) == Fun::ToggleOption,
        command::listed(68) == Fun::GetOption,
        command::listed(69) == Fun::Sort,
        command::listed(70) == Fun::SortReverse,
        command::listed(71) == Fun::Reflow,
        command::listed(72) == Fun::TreeSitterSubtree,
        command::listed(73) == Fun::RefreshConfig,
        command::listed(74) == Fun::OpenConfig,
        command::listed(75) == Fun::OpenWorkspaceConfig,
        command::listed(76) == Fun::OpenLog,
        command::listed(77) == Fun::InsertOutput,
        command::listed(78) == Fun::AppendOutput,
        command::listed(79) == Fun::Pipe,
        command::listed(80) == Fun::PipeTo,
        command::listed(81) == Fun::RunShellCommand,
        command::listed(82) == Fun::ResetDiffChange,
        command::listed(83) == Fun::ClearRegister,
        command::listed(84) == Fun::Redraw,
        command::listed(85) == Fun::MoveBuffer,
        command::listed(86) == Fun::YankDiagnostic,
        command::listed(87) == Fun::Read,
{
}

} // verus!
