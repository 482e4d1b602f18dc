//! The commands that can be typed at the prompt: their names and what is said about them.
use vstd::prelude::*;

use crate::text;

verus! {

/// How an argument is completed.
#[derive(Clone, Copy, Debug, PartialEq, Eq, Structural)]
pub enum Completer {
    /// Not at all.
    Nothing,
    /// By the names of files.
    Filename,
    /// By the names of open documents.
    Buffer,
    /// By the names of directories.
    Directory,
    /// By the names of themes.
    Theme,
    /// By the names of languages.
    Language,
    /// By the names of options.
    Setting,
    /// By the names of registers.
    Register,
    /// By the commands of the language servers.
    LspWorkspaceCommand,
}

/// What a typed command runs.
#[derive(Clone, Copy, Debug, PartialEq, Eq, Structural)]
pub enum Fun {
    /// `quit`.
    Quit,
    /// `quit!`.
    ForceQuit,
    /// `open`.
    Open,
    /// `buffer-close`.
    BufferClose,
    /// `buffer-close!`.
    ForceBufferClose,
    /// `buffer-close-others`.
    BufferCloseOthers,
    /// `buffer-close-others!`.
    ForceBufferCloseOthers,
    /// `buffer-close-all`.
    BufferCloseAll,
    /// `buffer-close-all!`.
    ForceBufferCloseAll,
    /// `buffer-next`.
    BufferNext,
    /// `buffer-previous`.
    BufferPrevious,
    /// `write`.
    Write,
    /// `write!`.
    ForceWrite,
    /// `write-buffer-close`.
    WriteBufferClose,
    /// `write-buffer-close!`.
    ForceWriteBufferClose,
    /// `new`.
    NewFile,
    /// `format`.
    Format,
    /// `indent-style`.
    SetIndentStyle,
    /// `line-ending`.
    SetLineEnding,
    /// `earlier`.
    Earlier,
    /// `later`.
    Later,
    /// `write-quit`.
    WriteQuit,
    /// `write-quit!`.
    ForceWriteQuit,
    /// `write-all`.
    WriteAll,
    /// `write-all!`.
    ForceWriteAll,
    /// `write-quit-all`.
    WriteAllQuit,
    /// `write-quit-all!`.
    ForceWriteAllQuit,
    /// `quit-all`.
    QuitAll,
    /// `quit-all!`.
    ForceQuitAll,
    /// `cquit`.
    Cquit,
    /// `cquit!`.
    ForceCquit,
    /// `theme`.
    Theme,
    /// `yank-join`.
    YankJoined,
    /// `clipboard-yank`.
    YankMainSelectionToClipboard,
    /// `clipboard-yank-join`.
    YankJoinedToClipboard,
    /// `primary-clipboard-yank`.
    YankMainSelectionToPrimaryClipboard,
    /// `primary-clipboard-yank-join`.
    YankJoinedToPrimaryClipboard,
    /// `clipboard-paste-after`.
    PasteClipboardAfter,
    /// `clipboard-paste-before`.
    PasteClipboardBefore,
    /// `clipboard-paste-replace`.
    ReplaceSelectionsWithClipboard,
    /// `primary-clipboard-paste-after`.
    PastePrimaryClipboardAfter,
    /// `primary-clipboard-paste-before`.
    PastePrimaryClipboardBefore,
    /// `primary-clipboard-paste-replace`.
    ReplaceSelectionsWithPrimaryClipboard,
    /// `show-clipboard-provider`.
    ShowClipboardProvider,
    /// `change-current-directory`.
    ChangeCurrentDirectory,
    /// `show-directory`.
    ShowCurrentDirectory,
    /// `encoding`.
    SetEncoding,
    /// `character-info`.
    GetCharacterInfo,
    /// `reload`.
    Reload,
    /// `reload-all`.
    ReloadAll,
    /// `update`.
    Update,
    /// `lsp-workspace-command`.
    LspWorkspaceCommand,
    /// `lsp-restart`.
    LspRestart,
    /// `lsp-stop`.
    LspStop,
    /// `tree-sitter-scopes`.
    TreeSitterScopes,
    /// `tree-sitter-highlight-name`.
    TreeSitterHighlightName,
    /// `debug-start`.
    DebugStart,
    /// `debug-remote`.
    DebugRemote,
    /// `debug-eval`.
    DebugEval,
    /// `vsplit`.
    Vsplit,
    /// `vsplit-new`.
    VsplitNew,
    /// `hsplit`.
    Hsplit,
    /// `hsplit-new`.
    HsplitNew,
    /// `tutor`.
    Tutor,
    /// `goto`.
    GotoLineNumber,
    /// `set-language`.
    Language,
    /// `set-option`.
    SetOption,
    /// `toggle-option`.
    ToggleOption,
    /// `get-option`.
    GetOption,
    /// `sort`.
    Sort,
    /// `rsort`.
    SortReverse,
    /// `reflow`.
    Reflow,
    /// `tree-sitter-subtree`.
    TreeSitterSubtree,
    /// `config-reload`.
    RefreshConfig,
    /// `config-open`.
    OpenConfig,
    /// `config-open-workspace`.
    OpenWorkspaceConfig,
    /// `log-open`.
    OpenLog,
    /// `insert-output`.
    InsertOutput,
    /// `append-output`.
    AppendOutput,
    /// `pipe`.
    Pipe,
    /// `pipe-to`.
    PipeTo,
    /// `run-shell-command`.
    RunShellCommand,
    /// `reset-diff-change`.
    ResetDiffChange,
    /// `clear-register`.
    ClearRegister,
    /// `redraw`.
    Redraw,
    /// `move`.
    MoveBuffer,
    /// `yank-diagnostic`.
    YankDiagnostic,
    /// `read`.
    Read,
}

/// How the arguments of a command are completed.
#[derive(Clone, Debug, PartialEq, Eq)]
pub struct CommandSignature {
    /// How the first arguments are completed, by their position.
    positional_args: Vec<Completer>,
    /// How all further arguments are completed.
    var_args: Completer,
}

/// How the arguments of a command are completed, as a mathematical value.
#[verifier::ext_equal]
pub struct SignatureView {
    /// How the first arguments are completed, by their position.
    pub positional_args: Seq<Completer>,
    /// How all further arguments are completed.
    pub var_args: Completer,
}

impl View for CommandSignature {
    type V = SignatureView;

    closed spec fn view(&self) -> SignatureView {
        SignatureView { positional_args: self.positional_args@, var_args: self.var_args }
    }
}

impl SignatureView {
    /// No argument is completed.
    pub open spec fn none() -> SignatureView {
        SignatureView { positional_args: Seq::empty(), var_args: Completer::Nothing }
    }

    /// The first arguments are completed by their position, and no others.
    pub open spec fn positional(completers: Seq<Completer>) -> SignatureView {
        SignatureView { positional_args: completers, var_args: Completer::Nothing }
    }

    /// All arguments are completed in the same way.
    pub open spec fn all(completer: Completer) -> SignatureView {
        SignatureView { positional_args: Seq::empty(), var_args: completer }
    }

    /// How the argument of a number, from zero, is completed.
    pub open spec fn completer(self, n: nat) -> Completer {
        if n < self.positional_args.len() {
            self.positional_args[n as int]
        } else {
            self.var_args
        }
    }
}

impl CommandSignature {
    /// No argument is completed.
    pub fn none() -> (r: CommandSignature)
        ensures
            r@ == SignatureView::none(),
    {
        CommandSignature { positional_args: Vec::new(), var_args: Completer::Nothing }
    }

    /// The first arguments are completed by their position, and no others.
    pub fn positional(completers: Vec<Completer>) -> (r: CommandSignature)
        ensures
            r@ == SignatureView::positional(completers@),
    {
        CommandSignature { positional_args: completers, var_args: Completer::Nothing }
    }

    /// All arguments are completed in the same way.
    pub fn all(completer: Completer) -> (r: CommandSignature)
        ensures
            r@ == SignatureView::all(completer),
    {
        CommandSignature { positional_args: Vec::new(), var_args: completer }
    }
}

/// A command that can be typed.
#[derive(Clone, Debug, PartialEq, Eq)]
pub struct TypableCommand {
    /// Its name.
    pub name: &'static str,
    /// Its further names.
    pub aliases: Vec<&'static str>,
    /// What is said about it.
    pub doc: &'static str,
    /// What it runs.
    pub fun: Fun,
    /// How its arguments are completed.
    pub signature: CommandSignature,
}

/// A command that can be typed, as a mathematical value.
#[verifier::ext_equal]
pub struct CommandView {
    /// Its name.
    pub name: Seq<char>,
    /// Its further names.
    pub aliases: Seq<Seq<char>>,
    /// What is said about it.
    pub doc: Seq<char>,
    /// What it runs.
    pub fun: Fun,
    /// How its arguments are completed.
    pub signature: SignatureView,
}

/// The views of names.
pub open spec fn name_views(names: Seq<&'static str>) -> Seq<Seq<char>> {
    names.map_values(|name: &'static str| name@)
}

impl View for TypableCommand {
    type V = CommandView;

    open spec fn view(&self) -> CommandView {
        CommandView {
            name: self.name@,
            aliases: name_views(self.aliases@),
            doc: self.doc@,
            fun: self.fun,
            signature: self.signature@,
        }
    }
}

impl TypableCommand {
    /// How the argument of a number, from zero, is completed.
    pub fn completer_for_argument_number(&self, n: usize) -> (r: &Completer)
        ensures
            *r == self@.signature.completer(n as nat),
    {
        if n < self.signature.positional_args.len() {
            &self.signature.positional_args[n]
        } else {
            &self.signature.var_args
        }
    }
}

/// The name of a command.
pub open spec fn command_name(fun: Fun) -> Seq<char> {
    match fun {
        Fun::Quit => "quit"@,
        Fun::ForceQuit => "quit!"@,
        Fun::Open => "open"@,
        Fun::BufferClose => "buffer-close"@,
        Fun::ForceBufferClose => "buffer-close!"@,
        Fun::BufferCloseOthers => "buffer-close-others"@,
        Fun::ForceBufferCloseOthers => "buffer-close-others!"@,
        Fun::BufferCloseAll => "buffer-close-all"@,
        Fun::ForceBufferCloseAll => "buffer-close-all!"@,
        Fun::BufferNext => "buffer-next"@,
        Fun::BufferPrevious => "buffer-previous"@,
        Fun::Write => "write"@,
        Fun::ForceWrite => "write!"@,
        Fun::WriteBufferClose => "write-buffer-close"@,
        Fun::ForceWriteBufferClose => "write-buffer-close!"@,
        Fun::NewFile => "new"@,
        Fun::Format => "format"@,
        Fun::SetIndentStyle => "indent-style"@,
        Fun::SetLineEnding => "line-ending"@,
        Fun::Earlier => "earlier"@,
        Fun::Later => "later"@,
        Fun::WriteQuit => "write-quit"@,
        Fun::ForceWriteQuit => "write-quit!"@,
        Fun::WriteAll => "write-all"@,
        Fun::ForceWriteAll => "write-all!"@,
        Fun::WriteAllQuit => "write-quit-all"@,
        Fun::ForceWriteAllQuit => "write-quit-all!"@,
        Fun::QuitAll => "quit-all"@,
        Fun::ForceQuitAll => "quit-all!"@,
        Fun::Cquit => "cquit"@,
        Fun::ForceCquit => "cquit!"@,
        Fun::Theme => "theme"@,
        Fun::YankJoined => "yank-join"@,
        Fun::YankMainSelectionToClipboard => "clipboard-yank"@,
        Fun::YankJoinedToClipboard => "clipboard-yank-join"@,
        Fun::YankMainSelectionToPrimaryClipboard => "primary-clipboard-yank"@,
        Fun::YankJoinedToPrimaryClipboard => "primary-clipboard-yank-join"@,
        Fun::PasteClipboardAfter => "clipboard-paste-after"@,
        Fun::PasteClipboardBefore => "clipboard-paste-before"@,
        Fun::ReplaceSelectionsWithClipboard => "clipboard-paste-replace"@,
        Fun::PastePrimaryClipboardAfter => "primary-clipboard-paste-after"@,
        Fun::PastePrimaryClipboardBefore => "primary-clipboard-paste-before"@,
        Fun::ReplaceSelectionsWithPrimaryClipboard => "primary-clipboard-paste-replace"@,
        Fun::ShowClipboardProvider => "show-clipboard-provider"@,
        Fun::ChangeCurrentDirectory => "change-current-directory"@,
        Fun::ShowCurrentDirectory => "show-directory"@,
        Fun::SetEncoding => "encoding"@,
        Fun::GetCharacterInfo => "character-info"@,
        Fun::Reload => "reload"@,
        Fun::ReloadAll => "reload-all"@,
        Fun::Update => "update"@,
        Fun::LspWorkspaceCommand => "lsp-workspace-command"@,
        Fun::LspRestart => "lsp-restart"@,
        Fun::LspStop => "lsp-stop"@,
        Fun::TreeSitterScopes => "tree-sitter-scopes"@,
        Fun::TreeSitterHighlightName => "tree-sitter-highlight-name"@,
        Fun::DebugStart => "debug-start"@,
        Fun::DebugRemote => "debug-remote"@,
        Fun::DebugEval => "debug-eval"@,
        Fun::Vsplit => "vsplit"@,
        Fun::VsplitNew => "vsplit-new"@,
        Fun::Hsplit => "hsplit"@,
        Fun::HsplitNew => "hsplit-new"@,
        Fun::Tutor => "tutor"@,
        Fun::GotoLineNumber => "goto"@,
        Fun::Language => "set-language"@,
        Fun::SetOption => "set-option"@,
        Fun::ToggleOption => "toggle-option"@,
        Fun::GetOption => "get-option"@,
        Fun::Sort => "sort"@,
        Fun::SortReverse => "rsort"@,
        Fun::Reflow => "reflow"@,
        Fun::TreeSitterSubtree => "tree-sitter-subtree"@,
        Fun::RefreshConfig => "config-reload"@,
        Fun::OpenConfig => "config-open"@,
        Fun::OpenWorkspaceConfig => "config-open-workspace"@,
        Fun::OpenLog => "log-open"@,
        Fun::InsertOutput => "insert-output"@,
        Fun::AppendOutput => "append-output"@,
        Fun::Pipe => "pipe"@,
        Fun::PipeTo => "pipe-to"@,
        Fun::RunShellCommand => "run-shell-command"@,
        Fun::ResetDiffChange => "reset-diff-change"@,
        Fun::ClearRegister => "clear-register"@,
        Fun::Redraw => "redraw"@,
        Fun::MoveBuffer => "move"@,
        Fun::YankDiagnostic => "yank-diagnostic"@,
        Fun::Read => "read"@,
    }
}

/// The further names of a command.
pub open spec fn command_aliases(fun: Fun) -> Seq<Seq<char>> {
    match fun {
        Fun::Quit => seq!["q"@],
        Fun::ForceQuit => seq!["q!"@],
        Fun::Open => seq!["o"@, "edit"@, "e"@],
        Fun::BufferClose => seq!["bc"@, "bclose"@],
        Fun::ForceBufferClose => seq!["bc!"@, "bclose!"@],
        Fun::BufferCloseOthers => seq!["bco"@, "bcloseother"@],
        Fun::ForceBufferCloseOthers => seq!["bco!"@, "bcloseother!"@],
        Fun::BufferCloseAll => seq!["bca"@, "bcloseall"@],
        Fun::ForceBufferCloseAll => seq!["bca!"@, "bcloseall!"@],
        Fun::BufferNext => seq!["bn"@, "bnext"@],
        Fun::BufferPrevious => seq!["bp"@, "bprev"@],
        Fun::Write => seq!["w"@],
        Fun::ForceWrite => seq!["w!"@],
        Fun::WriteBufferClose => seq!["wbc"@],
        Fun::ForceWriteBufferClose => seq!["wbc!"@],
        Fun::NewFile => seq!["n"@],
        Fun::Format => seq!["fmt"@],
        Fun::Earlier => seq!["ear"@],
        Fun::Later => seq!["lat"@],
        Fun::WriteQuit => seq!["wq"@, "x"@],
        Fun::ForceWriteQuit => seq!["wq!"@, "x!"@],
        Fun::WriteAll => seq!["wa"@],
        Fun::ForceWriteAll => seq!["wa!"@],
        Fun::WriteAllQuit => seq!["wqa"@, "xa"@],
        Fun::ForceWriteAllQuit => seq!["wqa!"@, "xa!"@],
        Fun::QuitAll => seq!["qa"@],
        Fun::ForceQuitAll => seq!["qa!"@],
        Fun::Cquit => seq!["cq"@],
        Fun::ForceCquit => seq!["cq!"@],
        Fun::ChangeCurrentDirectory => seq!["cd"@],
        Fun::ShowCurrentDirectory => seq!["pwd"@],
        Fun::GetCharacterInfo => seq!["char"@],
        Fun::Reload => seq!["rl"@],
        Fun::ReloadAll => seq!["rla"@],
        Fun::Update => seq!["u"@],
        Fun::DebugStart => seq!["dbg"@],
        Fun::DebugRemote => seq!["dbg-tcp"@],
        Fun::Vsplit => seq!["vs"@],
        Fun::VsplitNew => seq!["vnew"@],
        Fun::Hsplit => seq!["hs"@, "sp"@],
        Fun::HsplitNew => seq!["hnew"@],
        Fun::GotoLineNumber => seq!["g"@],
        Fun::Language => seq!["lang"@],
        Fun::SetOption => seq!["set"@],
        Fun::ToggleOption => seq!["toggle"@],
        Fun::GetOption => seq!["get"@],
        Fun::TreeSitterSubtree => seq!["ts-subtree"@],
        Fun::RunShellCommand => seq!["sh"@],
        Fun::ResetDiffChange => seq!["diffget"@, "diffg"@],
        Fun::MoveBuffer => seq!["mv"@],
        Fun::Read => seq!["r"@],
        _ => Seq::empty(),
    }
}

/// What is said about a command. What is said about line endings depends on which of them count.
pub open spec fn command_doc(fun: Fun, unicode_lines: bool) -> Seq<char> {
    match fun {
        Fun::Quit => "Close the current view."@,
        Fun::ForceQuit => "Force close the current view, ignoring unsaved changes."@,
        Fun::Open => "Open a file from disk into the current view."@,
        Fun::BufferClose => "Close the current buffer."@,
        Fun::ForceBufferClose => "Close the current buffer forcefully, ignoring unsaved changes."@,
        Fun::BufferCloseOthers => "Close all buffers but the currently focused one."@,
        Fun::ForceBufferCloseOthers => "Force close all buffers but the currently focused one."@,
        Fun::BufferCloseAll => "Close all buffers without quitting."@,
        Fun::ForceBufferCloseAll => "Force close all buffers ignoring unsaved changes without quitting."@,
        Fun::BufferNext => "Goto next buffer."@,
        Fun::BufferPrevious => "Goto previous buffer."@,
        Fun::Write => "Write changes to disk. Accepts an optional path (:write some/path.txt)"@,
        Fun::ForceWrite => "Force write changes to disk creating necessary subdirectories. Accepts an optional path (:write! some/path.txt)"@,
        Fun::WriteBufferClose => "Write changes to disk and closes the buffer. Accepts an optional path (:write-buffer-close some/path.txt)"@,
        Fun::ForceWriteBufferClose => "Force write changes to disk creating necessary subdirectories and closes the buffer. Accepts an optional path (:write-buffer-close! some/path.txt)"@,
        Fun::NewFile => "Create a new scratch buffer."@,
        Fun::Format => "Format the file using an external formatter or language server."@,
        Fun::SetIndentStyle => "Set the indentation style for editing. ('t' for tabs or 1-16 for number of spaces.)"@,
        Fun::SetLineEnding => if unicode_lines {
            "Set the document's default line ending. Options: crlf, lf, cr, ff, nel."@
        } else {
            "Set the document's default line ending. Options: crlf, lf."@
        },
        Fun::Earlier => "Jump back to an earlier point in edit history. Accepts a number of steps or a time span."@,
        Fun::Later => "Jump to a later point in edit history. Accepts a number of steps or a time span."@,
        Fun::WriteQuit => "Write changes to disk and close the current view. Accepts an optional path (:wq some/path.txt)"@,
        Fun::ForceWriteQuit => "Write changes to disk and close the current view forcefully. Accepts an optional path (:wq! some/path.txt)"@,
        Fun::WriteAll => "Write changes from all buffers to disk."@,
        Fun::ForceWriteAll => "Forcefully write changes from all buffers to disk creating necessary subdirectories."@,
        Fun::WriteAllQuit => "Write changes from all buffers to disk and close all views."@,
        Fun::ForceWriteAllQuit => "Write changes from all buffers to disk and close all views forcefully (ignoring unsaved changes)."@,
        Fun::QuitAll => "Close all views."@,
        Fun::ForceQuitAll => "Force close all views ignoring unsaved changes."@,
        Fun::Cquit => "Quit with exit code (default 1). Accepts an optional integer exit code (:cq 2)."@,
        Fun::ForceCquit => "Force quit with exit code (default 1) ignoring unsaved changes. Accepts an optional integer exit code (:cq! 2)."@,
        Fun::Theme => "Change the editor theme (show current theme if no name specified)."@,
        Fun::YankJoined => "Yank joined selections. A separator can be provided as first argument. Default value is newline."@,
        Fun::YankMainSelectionToClipboard => "Yank main selection into system clipboard."@,
        Fun::YankJoinedToClipboard => "Yank joined selections into system clipboard. A separator can be provided as first argument. Default value is newline."@,
        Fun::YankMainSelectionToPrimaryClipboard => "Yank main selection into system primary clipboard."@,
        Fun::YankJoinedToPrimaryClipboard => "Yank joined selections into system primary clipboard. A separator can be provided as first argument. Default value is newline."@,
        Fun::PasteClipboardAfter => "Paste system clipboard after selections."@,
        Fun::PasteClipboardBefore => "Paste system clipboard before selections."@,
        Fun::ReplaceSelectionsWithClipboard => "Replace selections with content of system clipboard."@,
        Fun::PastePrimaryClipboardAfter => "Paste primary clipboard after selections."@,
        Fun::PastePrimaryClipboardBefore => "Paste primary clipboard before selections."@,
        Fun::ReplaceSelectionsWithPrimaryClipboard => "Replace selections with content of system primary clipboard."@,
        Fun::ShowClipboardProvider => "Show clipboard provider name in status bar."@,
        Fun::ChangeCurrentDirectory => "Change the current working directory."@,
        Fun::ShowCurrentDirectory => "Show the current working directory."@,
        Fun::SetEncoding => "Set encoding. Based on `https://encoding.spec.whatwg.org`."@,
        Fun::GetCharacterInfo => "Get info about the character under the primary cursor."@,
        Fun::Reload => "Discard changes and reload from the source file."@,
        Fun::ReloadAll => "Discard changes and reload all documents from the source files."@,
        Fun::Update => "Write changes only if the file has been modified."@,
        Fun::LspWorkspaceCommand => "Open workspace command picker"@,
        Fun::LspRestart => "Restarts the language servers used by the current doc"@,
        Fun::LspStop => "Stops the language servers that are used by the current doc"@,
        Fun::TreeSitterScopes => "Display tree sitter scopes, primarily for theming and development."@,
        Fun::TreeSitterHighlightName => "Display name of tree-sitter highlight scope under the cursor."@,
        Fun::DebugStart => "Start a debug session from a given template with given parameters."@,
        Fun::DebugRemote => "Connect to a debug adapter by TCP address and start a debugging session from a given template with given parameters."@,
        Fun::DebugEval => "Evaluate expression in current debug context."@,
        Fun::Vsplit => "Open the file in a vertical split."@,
        Fun::VsplitNew => "Open a scratch buffer in a vertical split."@,
        Fun::Hsplit => "Open the file in a horizontal split."@,
        Fun::HsplitNew => "Open a scratch buffer in a horizontal split."@,
        Fun::Tutor => "Open the tutorial."@,
        Fun::GotoLineNumber => "Goto line number."@,
        Fun::Language => "Set the language of current buffer (show current language if no value specified)."@,
        Fun::SetOption => "Set a config option at runtime.\nFor example to disable smart case search, use `:set search.smart-case false`."@,
        Fun::ToggleOption => "Toggle a boolean config option at runtime.\nFor example to toggle smart case search, use `:toggle search.smart-case`."@,
        Fun::GetOption => "Get the current value of a config option."@,
        Fun::Sort => "Sort ranges in selection."@,
        Fun::SortReverse => "Sort ranges in selection in reverse order."@,
        Fun::Reflow => "Hard-wrap the current selection of lines to a given width."@,
        Fun::TreeSitterSubtree => "Display the smallest tree-sitter subtree that spans the primary selection, primarily for debugging queries."@,
        Fun::RefreshConfig => "Refresh user config."@,
        Fun::OpenConfig => "Open the user config.toml file."@,
        Fun::OpenWorkspaceConfig => "Open the workspace config.toml file."@,
        Fun::OpenLog => "Open the helix log file."@,
        Fun::InsertOutput => "Run shell command, inserting output before each selection."@,
        Fun::AppendOutput => "Run shell command, appending output after each selection."@,
        Fun::Pipe => "Pipe each selection to the shell command."@,
        Fun::PipeTo => "Pipe each selection to the shell command, ignoring output."@,
        Fun::RunShellCommand => "Run a shell command"@,
        Fun::ResetDiffChange => "Reset the diff change at the cursor position."@,
        Fun::ClearRegister => "Clear given register. If no argument is provided, clear all registers."@,
        Fun::Redraw => "Clear and re-render the whole UI"@,
        Fun::MoveBuffer => "Move the current buffer and its corresponding file to a different path"@,
        Fun::YankDiagnostic => "Yank diagnostic(s) under primary cursor to register, or clipboard by default"@,
        Fun::Read => "Load a file into buffer"@,
    }
}

/// How the arguments of a command are completed.
pub open spec fn command_signature(fun: Fun) -> SignatureView {
    match fun {
        Fun::Open => SignatureView::all(Completer::Filename),
        Fun::BufferClose => SignatureView::all(Completer::Buffer),
        Fun::ForceBufferClose => SignatureView::all(Completer::Buffer),
        Fun::Write => SignatureView::positional(seq![Completer::Filename]),
        Fun::ForceWrite => SignatureView::positional(seq![Completer::Filename]),
        Fun::WriteBufferClose => SignatureView::positional(seq![Completer::Filename]),
        Fun::ForceWriteBufferClose => SignatureView::positional(seq![Completer::Filename]),
        Fun::WriteQuit => SignatureView::positional(seq![Completer::Filename]),
        Fun::ForceWriteQuit => SignatureView::positional(seq![Completer::Filename]),
        Fun::Theme => SignatureView::positional(seq![Completer::Theme]),
        Fun::ChangeCurrentDirectory => SignatureView::positional(seq![Completer::Directory]),
        Fun::LspWorkspaceCommand => SignatureView::positional(seq![Completer::LspWorkspaceCommand]),
        Fun::Vsplit => SignatureView::all(Completer::Filename),
        Fun::Hsplit => SignatureView::all(Completer::Filename),
        Fun::Language => SignatureView::positional(seq![Completer::Language]),
        Fun::SetOption => SignatureView::positional(seq![Completer::Setting]),
        Fun::ToggleOption => SignatureView::positional(seq![Completer::Setting]),
        Fun::GetOption => SignatureView::positional(seq![Completer::Setting]),
        Fun::RunShellCommand => SignatureView::all(Completer::Filename),
        Fun::ClearRegister => SignatureView::all(Completer::Register),
        Fun::MoveBuffer => SignatureView::positional(seq![Completer::Filename]),
        Fun::YankDiagnostic => SignatureView::all(Completer::Register),
        Fun::Read => SignatureView::positional(seq![Completer::Filename]),
        _ => SignatureView::none(),
    }
}

/// A command.
pub open spec fn command_spec(fun: Fun, unicode_lines: bool) -> CommandView {
    CommandView {
        name: command_name(fun),
        aliases: command_aliases(fun),
        doc: command_doc(fun, unicode_lines),
        fun,
        signature: command_signature(fun),
    }
}

fn name_of(fun: Fun) -> (r: &'static str)
    ensures
        r@ == command_name(fun),
{
    match fun {
        Fun::Quit => "quit",
        Fun::ForceQuit => "quit!",
        Fun::Open => "open",
        Fun::BufferClose => "buffer-close",
        Fun::ForceBufferClose => "buffer-close!",
        Fun::BufferCloseOthers => "buffer-close-others",
        Fun::ForceBufferCloseOthers => "buffer-close-others!",
        Fun::BufferCloseAll => "buffer-close-all",
        Fun::ForceBufferCloseAll => "buffer-close-all!",
        Fun::BufferNext => "buffer-next",
        Fun::BufferPrevious => "buffer-previous",
        Fun::Write => "write",
        Fun::ForceWrite => "write!",
        Fun::WriteBufferClose => "write-buffer-close",
        Fun::ForceWriteBufferClose => "write-buffer-close!",
        Fun::NewFile => "new",
        Fun::Format => "format",
        Fun::SetIndentStyle => "indent-style",
        Fun::SetLineEnding => "line-ending",
        Fun::Earlier => "earlier",
        Fun::Later => "later",
        Fun::WriteQuit => "write-quit",
        Fun::ForceWriteQuit => "write-quit!",
        Fun::WriteAll => "write-all",
        Fun::ForceWriteAll => "write-all!",
        Fun::WriteAllQuit => "write-quit-all",
        Fun::ForceWriteAllQuit => "write-quit-all!",
        Fun::QuitAll => "quit-all",
        Fun::ForceQuitAll => "quit-all!",
        Fun::Cquit => "cquit",
        Fun::ForceCquit => "cquit!",
        Fun::Theme => "theme",
        Fun::YankJoined => "yank-join",
        Fun::YankMainSelectionToClipboard => "clipboard-yank",
        Fun::YankJoinedToClipboard => "clipboard-yank-join",
        Fun::YankMainSelectionToPrimaryClipboard => "primary-clipboard-yank",
        Fun::YankJoinedToPrimaryClipboard => "primary-clipboard-yank-join",
        Fun::PasteClipboardAfter => "clipboard-paste-after",
        Fun::PasteClipboardBefore => "clipboard-paste-before",
        Fun::ReplaceSelectionsWithClipboard => "clipboard-paste-replace",
        Fun::PastePrimaryClipboardAfter => "primary-clipboard-paste-after",
        Fun::PastePrimaryClipboardBefore => "primary-clipboard-paste-before",
        Fun::ReplaceSelectionsWithPrimaryClipboard => "primary-clipboard-paste-replace",
        Fun::ShowClipboardProvider => "show-clipboard-provider",
        Fun::ChangeCurrentDirectory => "change-current-directory",
        Fun::ShowCurrentDirectory => "show-directory",
        Fun::SetEncoding => "encoding",
        Fun::GetCharacterInfo => "character-info",
        Fun::Reload => "reload",
        Fun::ReloadAll => "reload-all",
        Fun::Update => "update",
        Fun::LspWorkspaceCommand => "lsp-workspace-command",
        Fun::LspRestart => "lsp-restart",
        Fun::LspStop => "lsp-stop",
        Fun::TreeSitterScopes => "tree-sitter-scopes",
        Fun::TreeSitterHighlightName => "tree-sitter-highlight-name",
        Fun::DebugStart => "debug-start",
        Fun::DebugRemote => "debug-remote",
        Fun::DebugEval => "debug-eval",
        Fun::Vsplit => "vsplit",
        Fun::VsplitNew => "vsplit-new",
        Fun::Hsplit => "hsplit",
        Fun::HsplitNew => "hsplit-new",
        Fun::Tutor => "tutor",
        Fun::GotoLineNumber => "goto",
        Fun::Language => "set-language",
        Fun::SetOption => "set-option",
        Fun::ToggleOption => "toggle-option",
        Fun::GetOption => "get-option",
        Fun::Sort => "sort",
        Fun::SortReverse => "rsort",
        Fun::Reflow => "reflow",
        Fun::TreeSitterSubtree => "tree-sitter-subtree",
        Fun::RefreshConfig => "config-reload",
        Fun::OpenConfig => "config-open",
        Fun::OpenWorkspaceConfig => "config-open-workspace",
        Fun::OpenLog => "log-open",
        Fun::InsertOutput => "insert-output",
        Fun::AppendOutput => "append-output",
        Fun::Pipe => "pipe",
        Fun::PipeTo => "pipe-to",
        Fun::RunShellCommand => "run-shell-command",
        Fun::ResetDiffChange => "reset-diff-change",
        Fun::ClearRegister => "clear-register",
        Fun::Redraw => "redraw",
        Fun::MoveBuffer => "move",
        Fun::YankDiagnostic => "yank-diagnostic",
        Fun::Read => "read",
    }
}

fn aliases_of(fun: Fun) -> (r: Vec<&'static str>)
    ensures
        name_views(r@) == command_aliases(fun),
{
    let aliases: Vec<&'static str> = match fun {
        Fun::Quit => vec!["q"],
        Fun::ForceQuit => vec!["q!"],
        Fun::Open => vec!["o", "edit", "e"],
        Fun::BufferClose => vec!["bc", "bclose"],
        Fun::ForceBufferClose => vec!["bc!", "bclose!"],
        Fun::BufferCloseOthers => vec!["bco", "bcloseother"],
        Fun::ForceBufferCloseOthers => vec!["bco!", "bcloseother!"],
        Fun::BufferCloseAll => vec!["bca", "bcloseall"],
        Fun::ForceBufferCloseAll => vec!["bca!", "bcloseall!"],
        Fun::BufferNext => vec!["bn", "bnext"],
        Fun::BufferPrevious => vec!["bp", "bprev"],
        Fun::Write => vec!["w"],
        Fun::ForceWrite => vec!["w!"],
        Fun::WriteBufferClose => vec!["wbc"],
        Fun::ForceWriteBufferClose => vec!["wbc!"],
        Fun::NewFile => vec!["n"],
        Fun::Format => vec!["fmt"],
        Fun::Earlier => vec!["ear"],
        Fun::Later => vec!["lat"],
        Fun::WriteQuit => vec!["wq", "x"],
        Fun::ForceWriteQuit => vec!["wq!", "x!"],
        Fun::WriteAll => vec!["wa"],
        Fun::ForceWriteAll => vec!["wa!"],
        Fun::WriteAllQuit => vec!["wqa", "xa"],
        Fun::ForceWriteAllQuit => vec!["wqa!", "xa!"],
        Fun::QuitAll => vec!["qa"],
        Fun::ForceQuitAll => vec!["qa!"],
        Fun::Cquit => vec!["cq"],
        Fun::ForceCquit => vec!["cq!"],
        Fun::ChangeCurrentDirectory => vec!["cd"],
        Fun::ShowCurrentDirectory => vec!["pwd"],
        Fun::GetCharacterInfo => vec!["char"],
        Fun::Reload => vec!["rl"],
        Fun::ReloadAll => vec!["rla"],
        Fun::Update => vec!["u"],
        Fun::DebugStart => vec!["dbg"],
        Fun::DebugRemote => vec!["dbg-tcp"],
        Fun::Vsplit => vec!["vs"],
        Fun::VsplitNew => vec!["vnew"],
        Fun::Hsplit => vec!["hs", "sp"],
        Fun::HsplitNew => vec!["hnew"],
        Fun::GotoLineNumber => vec!["g"],
        Fun::Language => vec!["lang"],
        Fun::SetOption => vec!["set"],
        Fun::ToggleOption => vec!["toggle"],
        Fun::GetOption => vec!["get"],
        Fun::TreeSitterSubtree => vec!["ts-subtree"],
        Fun::RunShellCommand => vec!["sh"],
        Fun::ResetDiffChange => vec!["diffget", "diffg"],
        Fun::MoveBuffer => vec!["mv"],
        Fun::Read => vec!["r"],
        _ => Vec::new(),
    };
    assert(name_views(aliases@) =~= command_aliases(fun));
    aliases
}

fn doc_of(fun: Fun, unicode_lines: bool) -> (r: &'static str)
    ensures
        r@ == command_doc(fun, unicode_lines),
{
    match fun {
        Fun::Quit => "Close the current view.",
        Fun::ForceQuit => "Force close the current view, ignoring unsaved changes.",
        Fun::Open => "Open a file from disk into the current view.",
        Fun::BufferClose => "Close the current buffer.",
        Fun::ForceBufferClose => "Close the current buffer forcefully, ignoring unsaved changes.",
        Fun::BufferCloseOthers => "Close all buffers but the currently focused one.",
        Fun::ForceBufferCloseOthers => "Force close all buffers but the currently focused one.",
        Fun::BufferCloseAll => "Close all buffers without quitting.",
        Fun::ForceBufferCloseAll => "Force close all buffers ignoring unsaved changes without quitting.",
        Fun::BufferNext => "Goto next buffer.",
        Fun::BufferPrevious => "Goto previous buffer.",
        Fun::Write => "Write changes to disk. Accepts an optional path (:write some/path.txt)",
        Fun::ForceWrite => "Force write changes to disk creating necessary subdirectories. Accepts an optional path (:write! some/path.txt)",
        Fun::WriteBufferClose => "Write changes to disk and closes the buffer. Accepts an optional path (:write-buffer-close some/path.txt)",
        Fun::ForceWriteBufferClose => "Force write changes to disk creating necessary subdirectories and closes the buffer. Accepts an optional path (:write-buffer-close! some/path.txt)",
        Fun::NewFile => "Create a new scratch buffer.",
        Fun::Format => "Format the file using an external formatter or language server.",
        Fun::SetIndentStyle => "Set the indentation style for editing. ('t' for tabs or 1-16 for number of spaces.)",
        Fun::SetLineEnding => if unicode_lines {
            "Set the document's default line ending. Options: crlf, lf, cr, ff, nel."
        } else {
            "Set the document's default line ending. Options: crlf, lf."
        },
        Fun::Earlier => "Jump back to an earlier point in edit history. Accepts a number of steps or a time span.",
        Fun::Later => "Jump to a later point in edit history. Accepts a number of steps or a time span.",
        Fun::WriteQuit => "Write changes to disk and close the current view. Accepts an optional path (:wq some/path.txt)",
        Fun::ForceWriteQuit => "Write changes to disk and close the current view forcefully. Accepts an optional path (:wq! some/path.txt)",
        Fun::WriteAll => "Write changes from all buffers to disk.",
        Fun::ForceWriteAll => "Forcefully write changes from all buffers to disk creating necessary subdirectories.",
        Fun::WriteAllQuit => "Write changes from all buffers to disk and close all views.",
        Fun::ForceWriteAllQuit => "Write changes from all buffers to disk and close all views forcefully (ignoring unsaved changes).",
        Fun::QuitAll => "Close all views.",
        Fun::ForceQuitAll => "Force close all views ignoring unsaved changes.",
        Fun::Cquit => "Quit with exit code (default 1). Accepts an optional integer exit code (:cq 2).",
        Fun::ForceCquit => "Force quit with exit code (default 1) ignoring unsaved changes. Accepts an optional integer exit code (:cq! 2).",
        Fun::Theme => "Change the editor theme (show current theme if no name specified).",
        Fun::YankJoined => "Yank joined selections. A separator can be provided as first argument. Default value is newline.",
        Fun::YankMainSelectionToClipboard => "Yank main selection into system clipboard.",
        Fun::YankJoinedToClipboard => "Yank joined selections into system clipboard. A separator can be provided as first argument. Default value is newline.",
        Fun::YankMainSelectionToPrimaryClipboard => "Yank main selection into system primary clipboard.",
        Fun::YankJoinedToPrimaryClipboard => "Yank joined selections into system primary clipboard. A separator can be provided as first argument. Default value is newline.",
        Fun::PasteClipboardAfter => "Paste system clipboard after selections.",
        Fun::PasteClipboardBefore => "Paste system clipboard before selections.",
        Fun::ReplaceSelectionsWithClipboard => "Replace selections with content of system clipboard.",
        Fun::PastePrimaryClipboardAfter => "Paste primary clipboard after selections.",
        Fun::PastePrimaryClipboardBefore => "Paste primary clipboard before selections.",
        Fun::ReplaceSelectionsWithPrimaryClipboard => "Replace selections with content of system primary clipboard.",
        Fun::ShowClipboardProvider => "Show clipboard provider name in status bar.",
        Fun::ChangeCurrentDirectory => "Change the current working directory.",
        Fun::ShowCurrentDirectory => "Show the current working directory.",
        Fun::SetEncoding => "Set encoding. Based on `https://encoding.spec.whatwg.org`.",
        Fun::GetCharacterInfo => "Get info about the character under the primary cursor.",
        Fun::Reload => "Discard changes and reload from the source file.",
        Fun::ReloadAll => "Discard changes and reload all documents from the source files.",
        Fun::Update => "Write changes only if the file has been modified.",
        Fun::LspWorkspaceCommand => "Open workspace command picker",
        Fun::LspRestart => "Restarts the language servers used by the current doc",
        Fun::LspStop => "Stops the language servers that are used by the current doc",
        Fun::TreeSitterScopes => "Display tree sitter scopes, primarily for theming and development.",
        Fun::TreeSitterHighlightName => "Display name of tree-sitter highlight scope under the cursor.",
        Fun::DebugStart => "Start a debug session from a given template with given parameters.",
        Fun::DebugRemote => "Connect to a debug adapter by TCP address and start a debugging session from a given template with given parameters.",
        Fun::DebugEval => "Evaluate expression in current debug context.",
        Fun::Vsplit => "Open the file in a vertical split.",
        Fun::VsplitNew => "Open a scratch buffer in a vertical split.",
        Fun::Hsplit => "Open the file in a horizontal split.",
        Fun::HsplitNew => "Open a scratch buffer in a horizontal split.",
        Fun::Tutor => "Open the tutorial.",
        Fun::GotoLineNumber => "Goto line number.",
        Fun::Language => "Set the language of current buffer (show current language if no value specified).",
        Fun::SetOption => "Set a config option at runtime.\nFor example to disable smart case search, use `:set search.smart-case false`.",
        Fun::ToggleOption => "Toggle a boolean config option at runtime.\nFor example to toggle smart case search, use `:toggle search.smart-case`.",
        Fun::GetOption => "Get the current value of a config option.",
        Fun::Sort => "Sort ranges in selection.",
        Fun::SortReverse => "Sort ranges in selection in reverse order.",
        Fun::Reflow => "Hard-wrap the current selection of lines to a given width.",
        Fun::TreeSitterSubtree => "Display the smallest tree-sitter subtree that spans the primary selection, primarily for debugging queries.",
        Fun::RefreshConfig => "Refresh user config.",
        Fun::OpenConfig => "Open the user config.toml file.",
        Fun::OpenWorkspaceConfig => "Open the workspace config.toml file.",
        Fun::OpenLog => "Open the helix log file.",
        Fun::InsertOutput => "Run shell command, inserting output before each selection.",
        Fun::AppendOutput => "Run shell command, appending output after each selection.",
        Fun::Pipe => "Pipe each selection to the shell command.",
        Fun::PipeTo => "Pipe each selection to the shell command, ignoring output.",
        Fun::RunShellCommand => "Run a shell command",
        Fun::ResetDiffChange => "Reset the diff change at the cursor position.",
        Fun::ClearRegister => "Clear given register. If no argument is provided, clear all registers.",
        Fun::Redraw => "Clear and re-render the whole UI",
        Fun::MoveBuffer => "Move the current buffer and its corresponding file to a different path",
        Fun::YankDiagnostic => "Yank diagnostic(s) under primary cursor to register, or clipboard by default",
        Fun::Read => "Load a file into buffer",
    }
}

fn signature_of(fun: Fun) -> (r: CommandSignature)
    ensures
        r@ == command_signature(fun),
{
    match fun {
        Fun::Open => CommandSignature::all(Completer::Filename),
        Fun::BufferClose => CommandSignature::all(Completer::Buffer),
        Fun::ForceBufferClose => CommandSignature::all(Completer::Buffer),
        Fun::Write => CommandSignature::positional(vec![Completer::Filename]),
        Fun::ForceWrite => CommandSignature::positional(vec![Completer::Filename]),
        Fun::WriteBufferClose => CommandSignature::positional(vec![Completer::Filename]),
        Fun::ForceWriteBufferClose => CommandSignature::positional(vec![Completer::Filename]),
        Fun::WriteQuit => CommandSignature::positional(vec![Completer::Filename]),
        Fun::ForceWriteQuit => CommandSignature::positional(vec![Completer::Filename]),
        Fun::Theme => CommandSignature::positional(vec![Completer::Theme]),
        Fun::ChangeCurrentDirectory => CommandSignature::positional(vec![Completer::Directory]),
        Fun::LspWorkspaceCommand => CommandSignature::positional(vec![Completer::LspWorkspaceCommand]),
        Fun::Vsplit => CommandSignature::all(Completer::Filename),
        Fun::Hsplit => CommandSignature::all(Completer::Filename),
        Fun::Language => CommandSignature::positional(vec![Completer::Language]),
        Fun::SetOption => CommandSignature::positional(vec![Completer::Setting]),
        Fun::ToggleOption => CommandSignature::positional(vec![Completer::Setting]),
        Fun::GetOption => CommandSignature::positional(vec![Completer::Setting]),
        Fun::RunShellCommand => CommandSignature::all(Completer::Filename),
        Fun::ClearRegister => CommandSignature::all(Completer::Register),
        Fun::MoveBuffer => CommandSignature::positional(vec![Completer::Filename]),
        Fun::YankDiagnostic => CommandSignature::all(Completer::Register),
        Fun::Read => CommandSignature::positional(vec![Completer::Filename]),
        _ => CommandSignature::none(),
    }
}

/// What is known about a command.
pub fn command(fun: Fun, unicode_lines: bool) -> (r: TypableCommand)
    ensures
        r@ == command_spec(fun, unicode_lines),
{
    TypableCommand {
        name: name_of(fun),
        aliases: aliases_of(fun),
        doc: doc_of(fun, unicode_lines),
        fun,
        signature: signature_of(fun),
    }
}

/// The number of commands.
pub const COMMANDS: usize = 88;

/// The commands in the order in which they are listed.
pub open spec fn listed(i: int) -> Fun {
    if i == 0 {
        Fun::Quit
    } else if i == 1 {
        Fun::ForceQuit
    } else if i == 2 {
        Fun::Open
    } else if i == 3 {
        Fun::BufferClose
    } else if i == 4 {
        Fun::ForceBufferClose
    } else if i == 5 {
        Fun::BufferCloseOthers
    } else if i == 6 {
        Fun::ForceBufferCloseOthers
    } else if i == 7 {
        Fun::BufferCloseAll
    } else if i == 8 {
        Fun::ForceBufferCloseAll
    } else if i == 9 {
        Fun::BufferNext
    } else if i == 10 {
        Fun::BufferPrevious
    } else if i == 11 {
        Fun::Write
    } else if i == 12 {
        Fun::ForceWrite
    } else if i == 13 {
        Fun::WriteBufferClose
    } else if i == 14 {
        Fun::ForceWriteBufferClose
    } else if i == 15 {
        Fun::NewFile
    } else if i == 16 {
        Fun::Format
    } else if i == 17 {
        Fun::SetIndentStyle
    } else if i == 18 {
        Fun::SetLineEnding
    } else if i == 19 {
        Fun::Earlier
    } else if i == 20 {
        Fun::Later
    } else if i == 21 {
        Fun::WriteQuit
    } else if i == 22 {
        Fun::ForceWriteQuit
    } else if i == 23 {
        Fun::WriteAll
    } else if i == 24 {
        Fun::ForceWriteAll
    } else if i == 25 {
        Fun::WriteAllQuit
    } else if i == 26 {
        Fun::ForceWriteAllQuit
    } else if i == 27 {
        Fun::QuitAll
    } else if i == 28 {
        Fun::ForceQuitAll
    } else if i == 29 {
        Fun::Cquit
    } else if i == 30 {
        Fun::ForceCquit
    } else if i == 31 {
        Fun::Theme
    } else if i == 32 {
        Fun::YankJoined
    } else if i == 33 {
        Fun::YankMainSelectionToClipboard
    } else if i == 34 {
        Fun::YankJoinedToClipboard
    } else if i == 35 {
        Fun::YankMainSelectionToPrimaryClipboard
    } else if i == 36 {
        Fun::YankJoinedToPrimaryClipboard
    } else if i == 37 {
        Fun::PasteClipboardAfter
    } else if i == 38 {
        Fun::PasteClipboardBefore
    } else if i == 39 {
        Fun::ReplaceSelectionsWithClipboard
    } else if i == 40 {
        Fun::PastePrimaryClipboardAfter
    } else if i == 41 {
        Fun::PastePrimaryClipboardBefore
    } else if i == 42 {
        Fun::ReplaceSelectionsWithPrimaryClipboard
    } else if i == 43 {
        Fun::ShowClipboardProvider
    } else if i == 44 {
        Fun::ChangeCurrentDirectory
    } else if i == 45 {
        Fun::ShowCurrentDirectory
    } else if i == 46 {
        Fun::SetEncoding
    } else if i == 47 {
        Fun::GetCharacterInfo
    } else if i == 48 {
        Fun::Reload
    } else if i == 49 {
        Fun::ReloadAll
    } else if i == 50 {
        Fun::Update
    } else if i == 51 {
        Fun::LspWorkspaceCommand
    } else if i == 52 {
        Fun::LspRestart
    } else if i == 53 {
        Fun::LspStop
    } else if i == 54 {
        Fun::TreeSitterScopes
    } else if i == 55 {
        Fun::TreeSitterHighlightName
    } else if i == 56 {
        Fun::DebugStart
    } else if i == 57 {
        Fun::DebugRemote
    } else if i == 58 {
        Fun::DebugEval
    } else if i == 59 {
        Fun::Vsplit
    } else if i == 60 {
        Fun::VsplitNew
    } else if i == 61 {
        Fun::Hsplit
    } else if i == 62 {
        Fun::HsplitNew
    } else if i == 63 {
        Fun::Tutor
    } else if i == 64 {
        Fun::GotoLineNumber
    } else if i == 65 {
        Fun::Language
    } else if i == 66 {
        Fun::SetOption
    } else if i == 67 {
        Fun::ToggleOption
    } else if i == 68 {
        Fun::GetOption
    } else if i == 69 {
        Fun::Sort
    } else if i == 70 {
        Fun::SortReverse
    } else if i == 71 {
        Fun::Reflow
    } else if i == 72 {
        Fun::TreeSitterSubtree
    } else if i == 73 {
        Fun::RefreshConfig
    } else if i == 74 {
        Fun::OpenConfig
    } else if i == 75 {
        Fun::OpenWorkspaceConfig
    } else if i == 76 {
        Fun::OpenLog
    } else if i == 77 {
        Fun::InsertOutput
    } else if i == 78 {
        Fun::AppendOutput
    } else if i == 79 {
        Fun::Pipe
    } else if i == 80 {
        Fun::PipeTo
    } else if i == 81 {
        Fun::RunShellCommand
    } else if i == 82 {
        Fun::ResetDiffChange
    } else if i == 83 {
        Fun::ClearRegister
    } else if i == 84 {
        Fun::Redraw
    } else if i == 85 {
        Fun::MoveBuffer
    } else if i == 86 {
        Fun::YankDiagnostic
    } else {
        Fun::Read
    }
}

fn listed_at(i: usize) -> (r: Fun)
    requires
        i < COMMANDS,
    ensures
        r == listed(i as int),
{
    if i == 0 {
        Fun::Quit
    } else if i == 1 {
        Fun::ForceQuit
    } else if i == 2 {
        Fun::Open
    } else if i == 3 {
        Fun::BufferClose
    } else if i == 4 {
        Fun::ForceBufferClose
    } else if i == 5 {
        Fun::BufferCloseOthers
    } else if i == 6 {
        Fun::ForceBufferCloseOthers
    } else if i == 7 {
        Fun::BufferCloseAll
    } else if i == 8 {
        Fun::ForceBufferCloseAll
    } else if i == 9 {
        Fun::BufferNext
    } else if i == 10 {
        Fun::BufferPrevious
    } else if i == 11 {
        Fun::Write
    } else if i == 12 {
        Fun::ForceWrite
    } else if i == 13 {
        Fun::WriteBufferClose
    } else if i == 14 {
        Fun::ForceWriteBufferClose
    } else if i == 15 {
        Fun::NewFile
    } else if i == 16 {
        Fun::Format
    } else if i == 17 {
        Fun::SetIndentStyle
    } else if i == 18 {
        Fun::SetLineEnding
    } else if i == 19 {
        Fun::Earlier
    } else if i == 20 {
        Fun::Later
    } else if i == 21 {
        Fun::WriteQuit
    } else if i == 22 {
        Fun::ForceWriteQuit
    } else if i == 23 {
        Fun::WriteAll
    } else if i == 24 {
        Fun::ForceWriteAll
    } else if i == 25 {
        Fun::WriteAllQuit
    } else if i == 26 {
        Fun::ForceWriteAllQuit
    } else if i == 27 {
        Fun::QuitAll
    } else if i == 28 {
        Fun::ForceQuitAll
    } else if i == 29 {
        Fun::Cquit
    } else if i == 30 {
        Fun::ForceCquit
    } else if i == 31 {
        Fun::Theme
    } else if i == 32 {
        Fun::YankJoined
    } else if i == 33 {
        Fun::YankMainSelectionToClipboard
    } else if i == 34 {
        Fun::YankJoinedToClipboard
    } else if i == 35 {
        Fun::YankMainSelectionToPrimaryClipboard
    } else if i == 36 {
        Fun::YankJoinedToPrimaryClipboard
    } else if i == 37 {
        Fun::PasteClipboardAfter
    } else if i == 38 {
        Fun::PasteClipboardBefore
    } else if i == 39 {
        Fun::ReplaceSelectionsWithClipboard
    } else if i == 40 {
        Fun::PastePrimaryClipboardAfter
    } else if i == 41 {
        Fun::PastePrimaryClipboardBefore
    } else if i == 42 {
        Fun::ReplaceSelectionsWithPrimaryClipboard
    } else if i == 43 {
        Fun::ShowClipboardProvider
    } else if i == 44 {
        Fun::ChangeCurrentDirectory
    } else if i == 45 {
        Fun::ShowCurrentDirectory
    } else if i == 46 {
        Fun::SetEncoding
    } else if i == 47 {
        Fun::GetCharacterInfo
    } else if i == 48 {
        Fun::Reload
    } else if i == 49 {
        Fun::ReloadAll
    } else if i == 50 {
        Fun::Update
    } else if i == 51 {
        Fun::LspWorkspaceCommand
    } else if i == 52 {
        Fun::LspRestart
    } else if i == 53 {
        Fun::LspStop
    } else if i == 54 {
        Fun::TreeSitterScopes
    } else if i == 55 {
        Fun::TreeSitterHighlightName
    } else if i == 56 {
        Fun::DebugStart
    } else if i == 57 {
        Fun::DebugRemote
    } else if i == 58 {
        Fun::DebugEval
    } else if i == 59 {
        Fun::Vsplit
    } else if i == 60 {
        Fun::VsplitNew
    } else if i == 61 {
        Fun::Hsplit
    } else if i == 62 {
        Fun::HsplitNew
    } else if i == 63 {
        Fun::Tutor
    } else if i == 64 {
        Fun::GotoLineNumber
    } else if i == 65 {
        Fun::Language
    } else if i == 66 {
        Fun::SetOption
    } else if i == 67 {
        Fun::ToggleOption
    } else if i == 68 {
        Fun::GetOption
    } else if i == 69 {
        Fun::Sort
    } else if i == 70 {
        Fun::SortReverse
    } else if i == 71 {
        Fun::Reflow
    } else if i == 72 {
        Fun::TreeSitterSubtree
    } else if i == 73 {
        Fun::RefreshConfig
    } else if i == 74 {
        Fun::OpenConfig
    } else if i == 75 {
        Fun::OpenWorkspaceConfig
    } else if i == 76 {
        Fun::OpenLog
    } else if i == 77 {
        Fun::InsertOutput
    } else if i == 78 {
        Fun::AppendOutput
    } else if i == 79 {
        Fun::Pipe
    } else if i == 80 {
        Fun::PipeTo
    } else if i == 81 {
        Fun::RunShellCommand
    } else if i == 82 {
        Fun::ResetDiffChange
    } else if i == 83 {
        Fun::ClearRegister
    } else if i == 84 {
        Fun::Redraw
    } else if i == 85 {
        Fun::MoveBuffer
    } else if i == 86 {
        Fun::YankDiagnostic
    } else {
        Fun::Read
    }
}

/// The place of a command in the list.
pub open spec fn place_in_list(fun: Fun) -> int {
    match fun {
        Fun::Quit => 0,
        Fun::ForceQuit => 1,
        Fun::Open => 2,
        Fun::BufferClose => 3,
        Fun::ForceBufferClose => 4,
        Fun::BufferCloseOthers => 5,
        Fun::ForceBufferCloseOthers => 6,
        Fun::BufferCloseAll => 7,
        Fun::ForceBufferCloseAll => 8,
        Fun::BufferNext => 9,
        Fun::BufferPrevious => 10,
        Fun::Write => 11,
        Fun::ForceWrite => 12,
        Fun::WriteBufferClose => 13,
        Fun::ForceWriteBufferClose => 14,
        Fun::NewFile => 15,
        Fun::Format => 16,
        Fun::SetIndentStyle => 17,
        Fun::SetLineEnding => 18,
        Fun::Earlier => 19,
        Fun::Later => 20,
        Fun::WriteQuit => 21,
        Fun::ForceWriteQuit => 22,
        Fun::WriteAll => 23,
        Fun::ForceWriteAll => 24,
        Fun::WriteAllQuit => 25,
        Fun::ForceWriteAllQuit => 26,
        Fun::QuitAll => 27,
        Fun::ForceQuitAll => 28,
        Fun::Cquit => 29,
        Fun::ForceCquit => 30,
        Fun::Theme => 31,
        Fun::YankJoined => 32,
        Fun::YankMainSelectionToClipboard => 33,
        Fun::YankJoinedToClipboard => 34,
        Fun::YankMainSelectionToPrimaryClipboard => 35,
        Fun::YankJoinedToPrimaryClipboard => 36,
        Fun::PasteClipboardAfter => 37,
        Fun::PasteClipboardBefore => 38,
        Fun::ReplaceSelectionsWithClipboard => 39,
        Fun::PastePrimaryClipboardAfter => 40,
        Fun::PastePrimaryClipboardBefore => 41,
        Fun::ReplaceSelectionsWithPrimaryClipboard => 42,
        Fun::ShowClipboardProvider => 43,
        Fun::ChangeCurrentDirectory => 44,
        Fun::ShowCurrentDirectory => 45,
        Fun::SetEncoding => 46,
        Fun::GetCharacterInfo => 47,
        Fun::Reload => 48,
        Fun::ReloadAll => 49,
        Fun::Update => 50,
        Fun::LspWorkspaceCommand => 51,
        Fun::LspRestart => 52,
        Fun::LspStop => 53,
        Fun::TreeSitterScopes => 54,
        Fun::TreeSitterHighlightName => 55,
        Fun::DebugStart => 56,
        Fun::DebugRemote => 57,
        Fun::DebugEval => 58,
        Fun::Vsplit => 59,
        Fun::VsplitNew => 60,
        Fun::Hsplit => 61,
        Fun::HsplitNew => 62,
        Fun::Tutor => 63,
        Fun::GotoLineNumber => 64,
        Fun::Language => 65,
        Fun::SetOption => 66,
        Fun::ToggleOption => 67,
        Fun::GetOption => 68,
        Fun::Sort => 69,
        Fun::SortReverse => 70,
        Fun::Reflow => 71,
        Fun::TreeSitterSubtree => 72,
        Fun::RefreshConfig => 73,
        Fun::OpenConfig => 74,
        Fun::OpenWorkspaceConfig => 75,
        Fun::OpenLog => 76,
        Fun::InsertOutput => 77,
        Fun::AppendOutput => 78,
        Fun::Pipe => 79,
        Fun::PipeTo => 80,
        Fun::RunShellCommand => 81,
        Fun::ResetDiffChange => 82,
        Fun::ClearRegister => 83,
        Fun::Redraw => 84,
        Fun::MoveBuffer => 85,
        Fun::YankDiagnostic => 86,
        Fun::Read => 87,
    }
}

/// Every command is in the list, once.
pub proof fn lemma_listed(fun: Fun, i: int)
    requires
        0 <= i < COMMANDS,
    ensures
        0 <= place_in_list(fun) < COMMANDS,
        listed(place_in_list(fun)) == fun,
        place_in_list(listed(i)) == i,
{
}

/// Lists all commands.
pub fn typable_command_list(unicode_lines: bool) -> (r: Vec<TypableCommand>)
    ensures
        r@.len() == COMMANDS,
        forall|i: int|
            0 <= i < COMMANDS ==> (#[trigger] r@[i])@ == command_spec(listed(i), unicode_lines),
{
    let mut list: Vec<TypableCommand> = Vec::new();
    let mut i: usize = 0;
    while i < COMMANDS
        invariant
            i <= COMMANDS,
            list.len() == i,
            forall|j: int|
                0 <= j < i ==> (#[trigger] list@[j])@ == command_spec(listed(j), unicode_lines),
        decreases COMMANDS - i,
    {
        list.push(command(listed_at(i), unicode_lines));
        i = i + 1;
    }
    list
}

/// Whether a text is one of the names of a command.
pub open spec fn is_called(fun: Fun, name: Seq<char>) -> bool {
    name == command_name(fun) || command_aliases(fun).contains(name)
}

fn has_name(fun: Fun, name: &str) -> (r: bool)
    ensures
        r == is_called(fun, name@),
{
    if text::same(name, name_of(fun)) {
        return true;
    }
    let aliases = aliases_of(fun);
    let mut i: usize = 0;
    while i < aliases.len()
        invariant
            i <= aliases.len(),
            name_views(aliases@) == command_aliases(fun),
            forall|j: int| 0 <= j < i ==> command_aliases(fun)[j] != name@,
        decreases aliases.len() - i,
    {
        assert(command_aliases(fun)[i as int] == aliases@[i as int]@);
        if text::same(name, aliases[i]) {
            return true;
        }
        i = i + 1;
    }
    false
}

/// The first command of that name among those from a place in the list on.
pub open spec fn called_from(name: Seq<char>, i: int) -> Option<Fun>
    decreases COMMANDS - i,
{
    if i >= COMMANDS {
        None
    } else if is_called(listed(i), name) {
        Some(listed(i))
    } else {
        called_from(name, i + 1)
    }
}

/// The command of a name, if there is one.
pub open spec fn command_called(name: Seq<char>) -> Option<Fun> {
    called_from(name, 0)
}

/// Finds the command of a name.
pub fn find_command(name: &str) -> (r: Option<Fun>)
    ensures
        r == command_called(name@),
{
    let mut i: usize = 0;
    while i < COMMANDS
        invariant
            i <= COMMANDS,
            called_from(name@, i as int) == command_called(name@),
        decreases COMMANDS - i,
    {
        let fun = listed_at(i);
        if has_name(fun, name) {
            return Some(fun);
        }
        i = i + 1;
    }
    None
}

/// The number of a character of a text, or zero behind its end.
spec fn char_number(text: Seq<char>, i: int) -> int {
    if i < text.len() {
        text[i] as int
    } else {
        0
    }
}

/// A number that differs between any two names of commands.
spec fn name_key(name: Seq<char>) -> int {
    5 * name.len() + 6 * char_number(name, 0) + 7 * char_number(name, 1) + 6 * char_number(name, 2)
        + 8 * char_number(name, 6)
}

/// The command whose names have a number.
spec fn key_owner(key: int) -> int {
    if key == 2147 || key == 683 {
        0
    } else if key == 2152 || key == 919 {
        1
    } else if key == 2076 || key == 671 || key == 1956 || key == 611 {
        2
    } else if key == 2439 || key == 1291 || key == 1959 {
        3
    } else if key == 2444 || key == 1494 || key == 2228 {
        4
    } else if key == 2474 || key == 1962 || key == 2872 {
        5
    } else if key == 2479 || key == 1967 || key == 2877 {
        6
    } else if key == 2459 || key == 1878 || key == 2750 {
        7
    } else if key == 2464 || key == 1883 || key == 2755 {
        8
    } else if key == 2434 || key == 1368 || key == 1989 {
        9
    } else if key == 2454 || key == 1382 || key == 2081 {
        10
    } else if key == 2167 || key == 719 {
        11
    } else if key == 2172 || key == 955 {
        12
    } else if key == 3016 || key == 2009 {
        13
    } else if key == 3021 || key == 2014 {
        14
    } else if key == 2096 || key == 665 {
        15
    } else if key == 2103 || key == 2086 {
        16
    } else if key == 2420 {
        17
    } else if key == 2978 {
        18
    } else if key == 2916 || key == 1984 {
        19
    } else if key == 2048 || key == 2038 {
        20
    } else if key == 3096 || key == 1515 || key == 725 {
        21
    } else if key == 3101 || key == 1718 || key == 961 {
        22
    } else if key == 2963 || key == 1403 {
        23
    } else if key == 2968 || key == 1606 {
        24
    } else if key == 3116 || key == 2102 || key == 1409 {
        25
    } else if key == 3121 || key == 2107 || key == 1612 {
        26
    } else if key == 3031 || key == 1367 {
        27
    } else if key == 3036 || key == 1570 {
        28
    } else if key == 2112 || key == 1395 {
        29
    } else if key == 2117 || key == 1598 {
        30
    } else if key == 2055 {
        31
    } else if key == 2998 {
        32
    } else if key == 2826 {
        33
    } else if key == 2851 {
        34
    } else if key == 3178 {
        35
    } else if key == 3203 {
        36
    } else if key == 2861 {
        37
    } else if key == 2866 {
        38
    } else if key == 2871 {
        39
    } else if key == 3213 {
        40
    } else if key == 3218 {
        41
    } else if key == 3223 {
        42
    } else if key == 3063 {
        43
    } else if key == 2384 || key == 1304 {
        44
    } else if key == 2994 || key == 2120 {
        45
    } else if key == 2890 {
        46
    } else if key == 2902 || key == 1924 {
        47
    } else if key == 2069 || key == 1450 {
        48
    } else if key == 2449 || key == 2037 {
        49
    } else if key == 2116 || key == 707 {
        50
    } else if key == 3142 {
        51
    } else if key == 3100 {
        52
    } else if key == 3053 {
        53
    } else if key == 3030 {
        54
    } else if key == 3070 {
        55
    } else if key == 2870 || key == 1919 {
        56
    } else if key == 2867 || key == 2835 {
        57
    } else if key == 2753 {
        58
    } else if key == 2215 || key == 1523 {
        59
    } else if key == 2595 || key == 2104 {
        60
    } else if key == 2131 || key == 1439 || key == 1484 {
        61
    } else if key == 2511 || key == 2020 {
        62
    } else if key == 2236 {
        63
    } else if key == 2111 || key == 623 {
        64
    } else if key == 3033 || key == 2007 {
        65
    } else if key == 3071 || key == 2108 {
        66
    } else if key == 2516 || key == 2121 {
        67
    } else if key == 2999 || key == 2036 {
        68
    } else if key == 2171 {
        69
    } else if key == 2180 {
        70
    } else if key == 2033 {
        71
    } else if key == 3035 || key == 2749 {
        72
    } else if key == 2456 {
        73
    } else if key == 2446 {
        74
    } else if key == 2496 {
        75
    } else if key == 2891 {
        76
    } else if key == 2515 {
        77
    } else if key == 2463 {
        78
    } else if key == 2099 {
        79
    } else if key == 3002 {
        80
    } else if key == 3056 || key == 1428 {
        81
    } else if key == 2966 || key == 2910 || key == 1972 {
        82
    } else if key == 2938 {
        83
    } else if key == 2021 {
        84
    } else if key == 2159 || key == 1490 {
        85
    } else if key == 2980 {
        86
    } else if key == 1993 || key == 689 {
        87
    } else {
        -1
    }
}

proof fn lemma_keys_from_0(fun: Fun, name: Seq<char>)
    requires
        0 <= place_in_list(fun) < 11,
        is_called(fun, name),
    ensures
        key_owner(name_key(name)) == place_in_list(fun),
{
    match fun {
        Fun::Quit => {
            reveal_strlit("quit");
            reveal_strlit("q");
        },
        Fun::ForceQuit => {
            reveal_strlit("quit!");
            reveal_strlit("q!");
        },
        Fun::Open => {
            reveal_strlit("open");
            reveal_strlit("o");
            reveal_strlit("edit");
            reveal_strlit("e");
        },
        Fun::BufferClose => {
            reveal_strlit("buffer-close");
            reveal_strlit("bc");
            reveal_strlit("bclose");
        },
        Fun::ForceBufferClose => {
            reveal_strlit("buffer-close!");
            reveal_strlit("bc!");
            reveal_strlit("bclose!");
        },
        Fun::BufferCloseOthers => {
            reveal_strlit("buffer-close-others");
            reveal_strlit("bco");
            reveal_strlit("bcloseother");
        },
        Fun::ForceBufferCloseOthers => {
            reveal_strlit("buffer-close-others!");
            reveal_strlit("bco!");
            reveal_strlit("bcloseother!");
        },
        Fun::BufferCloseAll => {
            reveal_strlit("buffer-close-all");
            reveal_strlit("bca");
            reveal_strlit("bcloseall");
        },
        Fun::ForceBufferCloseAll => {
            reveal_strlit("buffer-close-all!");
            reveal_strlit("bca!");
            reveal_strlit("bcloseall!");
        },
        Fun::BufferNext => {
            reveal_strlit("buffer-next");
            reveal_strlit("bn");
            reveal_strlit("bnext");
        },
        Fun::BufferPrevious => {
            reveal_strlit("buffer-previous");
            reveal_strlit("bp");
            reveal_strlit("bprev");
        },
        _ => {},
    }
}

proof fn lemma_keys_from_11(fun: Fun, name: Seq<char>)
    requires
        11 <= place_in_list(fun) < 22,
        is_called(fun, name),
    ensures
        key_owner(name_key(name)) == place_in_list(fun),
{
    match fun {
        Fun::Write => {
            reveal_strlit("write");
            reveal_strlit("w");
        },
        Fun::ForceWrite => {
            reveal_strlit("write!");
            reveal_strlit("w!");
        },
        Fun::WriteBufferClose => {
            reveal_strlit("write-buffer-close");
            reveal_strlit("wbc");
        },
        Fun::ForceWriteBufferClose => {
            reveal_strlit("write-buffer-close!");
            reveal_strlit("wbc!");
        },
        Fun::NewFile => {
            reveal_strlit("new");
            reveal_strlit("n");
        },
        Fun::Format => {
            reveal_strlit("format");
            reveal_strlit("fmt");
        },
        Fun::SetIndentStyle => {
            reveal_strlit("indent-style");
        },
        Fun::SetLineEnding => {
            reveal_strlit("line-ending");
        },
        Fun::Earlier => {
            reveal_strlit("earlier");
            reveal_strlit("ear");
        },
        Fun::Later => {
            reveal_strlit("later");
            reveal_strlit("lat");
        },
        Fun::WriteQuit => {
            reveal_strlit("write-quit");
            reveal_strlit("wq");
            reveal_strlit("x");
        },
        _ => {},
    }
}

proof fn lemma_keys_from_22(fun: Fun, name: Seq<char>)
    requires
        22 <= place_in_list(fun) < 33,
        is_called(fun, name),
    ensures
        key_owner(name_key(name)) == place_in_list(fun),
{
    match fun {
        Fun::ForceWriteQuit => {
            reveal_strlit("write-quit!");
            reveal_strlit("wq!");
            reveal_strlit("x!");
        },
        Fun::WriteAll => {
            reveal_strlit("write-all");
            reveal_strlit("wa");
        },
        Fun::ForceWriteAll => {
            reveal_strlit("write-all!");
            reveal_strlit("wa!");
        },
        Fun::WriteAllQuit => {
            reveal_strlit("write-quit-all");
            reveal_strlit("wqa");
            reveal_strlit("xa");
        },
        Fun::ForceWriteAllQuit => {
            reveal_strlit("write-quit-all!");
            reveal_strlit("wqa!");
            reveal_strlit("xa!");
        },
        Fun::QuitAll => {
            reveal_strlit("quit-all");
            reveal_strlit("qa");
        },
        Fun::ForceQuitAll => {
            reveal_strlit("quit-all!");
            reveal_strlit("qa!");
        },
        Fun::Cquit => {
            reveal_strlit("cquit");
            reveal_strlit("cq");
        },
        Fun::ForceCquit => {
            reveal_strlit("cquit!");
            reveal_strlit("cq!");
        },
        Fun::Theme => {
            reveal_strlit("theme");
        },
        Fun::YankJoined => {
            reveal_strlit("yank-join");
        },
        _ => {},
    }
}

proof fn lemma_keys_from_33(fun: Fun, name: Seq<char>)
    requires
        33 <= place_in_list(fun) < 44,
        is_called(fun, name),
    ensures
        key_owner(name_key(name)) == place_in_list(fun),
{
    match fun {
        Fun::YankMainSelectionToClipboard => {
            reveal_strlit("clipboard-yank");
        },
        Fun::YankJoinedToClipboard => {
            reveal_strlit("clipboard-yank-join");
        },
        Fun::YankMainSelectionToPrimaryClipboard => {
            reveal_strlit("primary-clipboard-yank");
        },
        Fun::YankJoinedToPrimaryClipboard => {
            reveal_strlit("primary-clipboard-yank-join");
        },
        Fun::PasteClipboardAfter => {
            reveal_strlit("clipboard-paste-after");
        },
        Fun::PasteClipboardBefore => {
            reveal_strlit("clipboard-paste-before");
        },
        Fun::ReplaceSelectionsWithClipboard => {
            reveal_strlit("clipboard-paste-replace");
        },
        Fun::PastePrimaryClipboardAfter => {
            reveal_strlit("primary-clipboard-paste-after");
        },
        Fun::PastePrimaryClipboardBefore => {
            reveal_strlit("primary-clipboard-paste-before");
        },
        Fun::ReplaceSelectionsWithPrimaryClipboard => {
            reveal_strlit("primary-clipboard-paste-replace");
        },
        Fun::ShowClipboardProvider => {
            reveal_strlit("show-clipboard-provider");
        },
        _ => {},
    }
}

proof fn lemma_keys_from_44(fun: Fun, name: Seq<char>)
    requires
        44 <= place_in_list(fun) < 55,
        is_called(fun, name),
    ensures
        key_owner(name_key(name)) == place_in_list(fun),
{
    match fun {
        Fun::ChangeCurrentDirectory => {
            reveal_strlit("change-current-directory");
            reveal_strlit("cd");
        },
        Fun::ShowCurrentDirectory => {
            reveal_strlit("show-directory");
            reveal_strlit("pwd");
        },
        Fun::SetEncoding => {
            reveal_strlit("encoding");
        },
        Fun::GetCharacterInfo => {
            reveal_strlit("character-info");
            reveal_strlit("char");
        },
        Fun::Reload => {
            reveal_strlit("reload");
            reveal_strlit("rl");
        },
        Fun::ReloadAll => {
            reveal_strlit("reload-all");
            reveal_strlit("rla");
        },
        Fun::Update => {
            reveal_strlit("update");
            reveal_strlit("u");
        },
        Fun::LspWorkspaceCommand => {
            reveal_strlit("lsp-workspace-command");
        },
        Fun::LspRestart => {
            reveal_strlit("lsp-restart");
        },
        Fun::LspStop => {
            reveal_strlit("lsp-stop");
        },
        Fun::TreeSitterScopes => {
            reveal_strlit("tree-sitter-scopes");
        },
        _ => {},
    }
}

proof fn lemma_keys_from_55(fun: Fun, name: Seq<char>)
    requires
        55 <= place_in_list(fun) < 66,
        is_called(fun, name),
    ensures
        key_owner(name_key(name)) == place_in_list(fun),
{
    match fun {
        Fun::TreeSitterHighlightName => {
            reveal_strlit("tree-sitter-highlight-name");
        },
        Fun::DebugStart => {
            reveal_strlit("debug-start");
            reveal_strlit("dbg");
        },
        Fun::DebugRemote => {
            reveal_strlit("debug-remote");
            reveal_strlit("dbg-tcp");
        },
        Fun::DebugEval => {
            reveal_strlit("debug-eval");
        },
        Fun::Vsplit => {
            reveal_strlit("vsplit");
            reveal_strlit("vs");
        },
        Fun::VsplitNew => {
            reveal_strlit("vsplit-new");
            reveal_strlit("vnew");
        },
        Fun::Hsplit => {
            reveal_strlit("hsplit");
            reveal_strlit("hs");
            reveal_strlit("sp");
        },
        Fun::HsplitNew => {
            reveal_strlit("hsplit-new");
            reveal_strlit("hnew");
        },
        Fun::Tutor => {
            reveal_strlit("tutor");
        },
        Fun::GotoLineNumber => {
            reveal_strlit("goto");
            reveal_strlit("g");
        },
        Fun::Language => {
            reveal_strlit("set-language");
            reveal_strlit("lang");
        },
        _ => {},
    }
}

proof fn lemma_keys_from_66(fun: Fun, name: Seq<char>)
    requires
        66 <= place_in_list(fun) < 77,
        is_called(fun, name),
    ensures
        key_owner(name_key(name)) == place_in_list(fun),
{
    match fun {
        Fun::SetOption => {
            reveal_strlit("set-option");
            reveal_strlit("set");
        },
        Fun::ToggleOption => {
            reveal_strlit("toggle-option");
            reveal_strlit("toggle");
        },
        Fun::GetOption => {
            reveal_strlit("get-option");
            reveal_strlit("get");
        },
        Fun::Sort => {
            reveal_strlit("sort");
        },
        Fun::SortReverse => {
            reveal_strlit("rsort");
        },
        Fun::Reflow => {
            reveal_strlit("reflow");
        },
        Fun::TreeSitterSubtree => {
            reveal_strlit("tree-sitter-subtree");
            reveal_strlit("ts-subtree");
        },
        Fun::RefreshConfig => {
            reveal_strlit("config-reload");
        },
        Fun::OpenConfig => {
            reveal_strlit("config-open");
        },
        Fun::OpenWorkspaceConfig => {
            reveal_strlit("config-open-workspace");
        },
        Fun::OpenLog => {
            reveal_strlit("log-open");
        },
        _ => {},
    }
}

proof fn lemma_keys_from_77(fun: Fun, name: Seq<char>)
    requires
        77 <= place_in_list(fun) < 88,
        is_called(fun, name),
    ensures
        key_owner(name_key(name)) == place_in_list(fun),
{
    match fun {
        Fun::InsertOutput => {
            reveal_strlit("insert-output");
        },
        Fun::AppendOutput => {
            reveal_strlit("append-output");
        },
        Fun::Pipe => {
            reveal_strlit("pipe");
        },
        Fun::PipeTo => {
            reveal_strlit("pipe-to");
        },
        Fun::RunShellCommand => {
            reveal_strlit("run-shell-command");
            reveal_strlit("sh");
        },
        Fun::ResetDiffChange => {
            reveal_strlit("reset-diff-change");
            reveal_strlit("diffget");
            reveal_strlit("diffg");
        },
        Fun::ClearRegister => {
            reveal_strlit("clear-register");
        },
        Fun::Redraw => {
            reveal_strlit("redraw");
        },
        Fun::MoveBuffer => {
            reveal_strlit("move");
            reveal_strlit("mv");
        },
        Fun::YankDiagnostic => {
            reveal_strlit("yank-diagnostic");
        },
        Fun::Read => {
            reveal_strlit("read");
            reveal_strlit("r");
        },
        _ => {},
    }
}

proof fn lemma_key_owner(fun: Fun, name: Seq<char>)
    requires
        is_called(fun, name),
    ensures
        key_owner(name_key(name)) == place_in_list(fun),
{
    let place = place_in_list(fun);
    lemma_listed(fun, 0);
    if place < 11 {
        lemma_keys_from_0(fun, name);
    } else if place < 22 {
        lemma_keys_from_11(fun, name);
    } else if place < 33 {
        lemma_keys_from_22(fun, name);
    } else if place < 44 {
        lemma_keys_from_33(fun, name);
    } else if place < 55 {
        lemma_keys_from_44(fun, name);
    } else if place < 66 {
        lemma_keys_from_55(fun, name);
    } else if place < 77 {
        lemma_keys_from_66(fun, name);
    } else {
        lemma_keys_from_77(fun, name);
    }
}

/// No two commands have a name in common.
pub proof fn lemma_names_distinct(a: Fun, b: Fun, name: Seq<char>)
    requires
        is_called(a, name),
        is_called(b, name),
    ensures
        a == b,
{
    lemma_key_owner(a, name);
    lemma_key_owner(b, name);
    lemma_listed(a, 0);
    lemma_listed(b, 0);
}

proof fn lemma_called_from(fun: Fun, name: Seq<char>, i: int)
    requires
        is_called(fun, name),
        0 <= i <= place_in_list(fun),
    ensures
        called_from(name, i) == Some(fun),
    decreases COMMANDS - i,
{
    lemma_listed(fun, 0);
    if is_called(listed(i), name) {
        lemma_names_distinct(listed(i), fun, name);
    } else {
        lemma_called_from(fun, name, i + 1);
    }
}

/// Every name of a command finds that command.
pub proof fn lemma_command_called(fun: Fun, name: Seq<char>)
    requires
        is_called(fun, name),
    ensures
        command_called(name) == Some(fun),
{
    lemma_listed(fun, 0);
    lemma_called_from(fun, name, 0);
}

proof fn lemma_found_from(name: Seq<char>, i: int)
    ensures
        called_from(name, i) is Some ==> is_called(called_from(name, i)->0, name),
    decreases COMMANDS - i,
{
    if i < COMMANDS && !is_called(listed(i), name) {
        lemma_found_from(name, i + 1);
    }
}

/// A command that was found by a name has that name.
pub proof fn lemma_found_is_called(name: Seq<char>)
    ensures
        command_called(name) is Some ==> is_called(command_called(name)->0, name),
{
    lemma_found_from(name, 0);
}

} // verus!
