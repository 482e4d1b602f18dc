//! What a command asks of the editor.
use vstd::prelude::*;

use crate::change;
use crate::change::{Change, LineEnding};
use crate::editor::{DocumentId, IndentStyle, Place, ServerId, ViewId};
use crate::text;

verus! {

/// Where a document is opened.
#[derive(Clone, Copy, Debug, PartialEq, Eq, Structural)]
pub enum Split {
    /// In the view in focus.
    Replace,
    /// In a view beside it.
    Vertical,
    /// In a view below it.
    Horizontal,
}

/// Which way to go.
#[derive(Clone, Copy, Debug, PartialEq, Eq, Structural)]
pub enum Direction {
    /// To what follows.
    Forward,
    /// To what comes before.
    Backward,
}

/// On which side of a selection something is pasted.
#[derive(Clone, Copy, Debug, PartialEq, Eq, Structural)]
pub enum Paste {
    /// Before it.
    Before,
    /// After it.
    After,
}

/// What becomes of the output of a shell command that is given the selections.
#[derive(Clone, Copy, Debug, PartialEq, Eq, Structural)]
pub enum ShellBehavior {
    /// It replaces each selection.
    Replace,
    /// It is dropped.
    Ignore,
    /// It is put before each selection.
    Insert,
    /// It is put after each selection.
    Append,
}

/// A file whose place the editor knows.
#[derive(Clone, Copy, Debug, PartialEq, Eq, Structural)]
pub enum KnownFile {
    /// The user's configuration.
    Config,
    /// The workspace's configuration.
    WorkspaceConfig,
    /// The log.
    Log,
    /// The tutorial.
    Tutor,
}

/// A position on the screen.
#[derive(Clone, Copy, Debug, PartialEq, Eq, Structural)]
pub struct Position {
    /// The row.
    pub row: usize,
    /// The column.
    pub column: usize,
}

/// A directory to change to.
#[derive(Debug, PartialEq, Eq)]
pub enum Directory<S> {
    /// The directory of that path.
    Path(S),
    /// The directory of that path, in which a leading tilde stands for the home directory.
    Tilde(S),
    /// The home directory.
    Home,
}

/// Something that the editor is asked to do and that takes no text.
#[derive(Clone, Copy, Debug, PartialEq, Eq, Structural)]
pub enum Op {
    /// Wait until all writes are done; fails when one of them failed.
    FlushWrites,
    /// Close the view in focus.
    CloseCurrentView,
    /// Close a view.
    CloseView(ViewId),
    /// Close a document; keep what came of it for [`Op::ReportUnclosed`].
    CloseDocument { id: DocumentId, force: bool },
    /// Go on with `closed`, given what came of closing the documents.
    ReportUnclosed,
    /// Show a document in the view in focus.
    Switch(DocumentId),
    /// Go to a neighboring document.
    GotoBuffer { direction: Direction, count: usize },
    /// Open an empty document.
    NewFile(Split),
    /// Show the document in focus in one more view.
    SplitView(Split),
    /// Put the cursor at a row and column.
    PlaceCursor { row: usize, column: usize },
    /// Move the view so that the cursor is in its middle.
    AlignCenter,
    /// Go on with `insert_final_newline` on the document's text, and apply the change.
    InsertFinalNewline(Place),
    /// Make the changes so far a step of the document's history.
    CommitChanges(Place),
    /// Find a view of the document and bring it up to date.
    SyncView(DocumentId),
    /// Format a document.
    Format(Place),
    /// Set how the lines of the document in focus are indented.
    SetIndentStyle(IndentStyle),
    /// Set how the lines of the document in focus end.
    SetLineEnding(LineEnding),
    /// Go on with `line_ending_changes` on the lines of the document in focus, and apply the
    /// changes.
    ConvertLineEndings(LineEnding),
    /// Go on with `quit`, without arguments.
    Quit,
    /// Go on with `quit_views`.
    QuitViews { force: bool },
    /// Go on with `write_all_impl`, forced and with scratch documents, and ignore its failure.
    TryWriteAll,
    /// Set the exit code of the editor.
    SetExitCode(i32),
    /// Take back the preview of a theme.
    UnsetThemePreview,
    /// Preview the theme that was loaded.
    SetThemePreview,
    /// Set the theme that was loaded.
    SetTheme,
    /// Yank the primary selection to a register.
    YankPrimary(char),
    /// Paste from a register.
    Paste { register: char, side: Paste, count: usize },
    /// Replace the selections with what a register holds.
    ReplaceWithYanked { register: char, count: usize },
    /// Go on with `show_directory`.
    ShowDirectory,
    /// Go on with `character_info` on the grapheme under the primary cursor.
    InspectCharacter,
    /// Read a document again from its file.
    Reload(Place),
    /// Bring a view up to date with the document's history.
    SyncChanges(Place),
    /// Read a document again from its file; go on with `reloaded`, given what came of it and
    /// which of the open documents it is.
    TryReload { place: Place, index: usize },
    /// Give a document a selection in a view.
    EnsureViewInit(Place),
    /// Scroll so that the cursor is seen.
    EnsureCursorInView(Place),
    /// Tell the language servers that the document's file has changed.
    NotifyFileChanged(DocumentId),
    /// Let the user pick one of what `offered_commands` gives; go on with `command_picked` when one
    /// is picked.
    PickWorkspaceCommand,
    /// Start the language servers of the document in focus anew.
    RestartServers,
    /// Connect a document with its language servers anew.
    RefreshServers(DocumentId),
    /// Clear the diagnostics that a language server has given.
    ClearDiagnostics { doc: DocumentId, server: ServerId },
    /// Remove the inlay hints of a document.
    ResetInlayHints(DocumentId),
    /// Mark the inlay hints of a document as out of date.
    OutdateInlayHints(DocumentId),
    /// Go on with `scopes_shown` on the syntax scopes under the primary cursor.
    ShowScopes,
    /// Go on with `highlight_lines`, `highlight_at` and `highlight_shown`.
    ShowHighlight,
    /// Go on with `subtree_shown` on the syntax tree of the primary selection.
    ShowSubtree,
    /// Open a file whose place the editor knows.
    OpenKnown(KnownFile),
    /// Let the document in focus belong to no file.
    UnsetPath,
    /// Keep the selection.
    KeepSelection,
    /// Set the selection that was kept, and keep none.
    RestoreSelection,
    /// Add the selection that was kept to the jump list, and keep none.
    JumpFromSelection,
    /// Go to a line, counted from one.
    GotoLine(Option<usize>),
    /// Put the changed options into effect. The editor has to find out whether they are valid,
    /// and panics when they are not.
    SendOptions,
    /// Put the changed options into effect; fails when they are not valid.
    SendCheckedOptions,
    /// Let the document in focus have no language.
    ClearLanguage,
    /// Find out how the lines of the document in focus are indented and end.
    DetectIndentAndLineEnding,
    /// Show the diagnostics of the document in focus.
    RefreshDiagnostics,
    /// Go on with `sort_changes` on the selections, and apply the changes.
    SortSelections { reverse: bool },
    /// Wrap what `selected_texts` gives for the selections to a width; go on with
    /// `reflow_changes`, and apply the changes.
    ReflowSelections { width: usize },
    /// Read the configuration again.
    RefreshConfig,
    /// Go on with `diff_reset`.
    ResetDiff,
    /// Clear all registers.
    ClearRegisters,
    /// Clear a register; go on with `register_cleared`, given whether there was one.
    ClearRegister(char),
    /// Draw everything anew.
    Redraw,
    /// Go on with `diagnostics_yanked` on the diagnostics of the document in focus.
    YankDiagnostics(char),
}

/// Something that the editor is asked to do. `S` stands for a text, `L` for a list of texts and
/// `C` for a list of changes.
#[allow(inconsistent_fields)]
#[derive(Debug, PartialEq, Eq)]
pub enum Action<S, L, C> {
    /// Something that takes no text.
    Do(Op),
    /// Show a status message.
    SetStatus(S),
    /// Show an error message.
    SetError(S),
    /// Find the file and the position that an argument names; go on with `located`.
    LocateFile(S),
    /// Open a file.
    Open { path: S, split: Split },
    /// Let the user pick a file in a directory.
    OpenPicker(S),
    /// Save a document, under another path if one is given.
    Save { doc: DocumentId, path: Option<S>, force: bool },
    /// Format a document, and then save it.
    FormatAndSave { place: Place, path: Option<S>, force: bool },
    /// Go back in history by a number of steps or a time; go on with `traveled`.
    Earlier(S),
    /// Go forward in history by a number of steps or a time; go on with `traveled`.
    Later(S),
    /// Load a theme; go on with `theme_previewed`.
    PreviewTheme(S),
    /// Load a theme; go on with `theme_chosen`.
    ChooseTheme(S),
    /// Yank the selections, joined, to a register.
    YankJoined { separator: S, register: char },
    /// Change the working directory; go on with `directory_changed`.
    ChangeDirectory(Directory<S>),
    /// Set the encoding of the document in focus.
    SetEncoding(S),
    /// Let a language server execute a command.
    ExecuteCommand { server: ServerId, command: S },
    /// Stop a language server.
    StopServer(S),
    /// Disconnect a document from a language server; go on with `server_detached`.
    DetachServer { doc: DocumentId, name: S },
    /// Show a text in a popup, at a position if one is given.
    Popup { id: S, contents: S, position: Option<Position> },
    /// Evaluate an expression in a stack frame, and show the result as status.
    DebugEval { thread: i64, frame: usize, expression: S },
    /// Start a debug session, at an address if one is given.
    DebugStart { template: Option<S>, address: Option<S>, params: L },
    /// Set the language of the document in focus.
    SetLanguage(S),
    /// Give the selections to a shell command, in whose text escapes are to be resolved.
    Shell { command: S, behavior: ShellBehavior },
    /// Run a shell command, in whose text escapes are to be resolved; go on with `shell_ran`.
    RunShell(S),
    /// Move the file of the document in focus; go on with `moved`.
    MoveTo(S),
    /// Write texts to a register.
    WriteRegister { register: char, values: L },
    /// Read a file; go on with `file_read`.
    ReadFile(S),
    /// Insert a text before each selection.
    InsertText(S),
    /// Change a document.
    Apply { place: Place, changes: C },
}

/// Something that the editor is asked to do.
pub type Step = Action<String, Vec<String>, Vec<Change<String>>>;

/// Something that the editor is asked to do, as a mathematical value.
pub type StepView = Action<Seq<char>, Seq<Seq<char>>, Seq<Change<Seq<char>>>>;

/// A text that may be missing, as a mathematical value.
pub open spec fn maybe(text: Option<String>) -> Option<Seq<char>> {
    match text {
        Some(t) => Some(t@),
        None => None,
    }
}

impl View for Directory<String> {
    type V = Directory<Seq<char>>;

    open spec fn view(&self) -> Directory<Seq<char>> {
        match self {
            Directory::Path(p) => Directory::Path(p@),
            Directory::Tilde(p) => Directory::Tilde(p@),
            Directory::Home => Directory::Home,
        }
    }
}

impl View for Action<String, Vec<String>, Vec<Change<String>>> {
    type V = StepView;

    open spec fn view(&self) -> StepView {
        match *self {
            Action::Do(op) => Action::Do(op),
            Action::SetStatus(s) => Action::SetStatus(s@),
            Action::SetError(s) => Action::SetError(s@),
            Action::LocateFile(s) => Action::LocateFile(s@),
            Action::Open { path, split } => Action::Open { path: path@, split },
            Action::OpenPicker(s) => Action::OpenPicker(s@),
            Action::Save { doc, path, force } => Action::Save { doc, path: maybe(path), force },
            Action::FormatAndSave { place, path, force } => Action::FormatAndSave {
                place,
                path: maybe(path),
                force,
            },
            Action::Earlier(s) => Action::Earlier(s@),
            Action::Later(s) => Action::Later(s@),
            Action::PreviewTheme(s) => Action::PreviewTheme(s@),
            Action::ChooseTheme(s) => Action::ChooseTheme(s@),
            Action::YankJoined { separator, register } => Action::YankJoined {
                separator: separator@,
                register,
            },
            Action::ChangeDirectory(d) => Action::ChangeDirectory(d@),
            Action::SetEncoding(s) => Action::SetEncoding(s@),
            Action::ExecuteCommand { server, command } => Action::ExecuteCommand {
                server,
                command: command@,
            },
            Action::StopServer(s) => Action::StopServer(s@),
            Action::DetachServer { doc, name } => Action::DetachServer { doc, name: name@ },
            Action::Popup { id, contents, position } => Action::Popup {
                id: id@,
                contents: contents@,
                position,
            },
            Action::DebugEval { thread, frame, expression } => Action::DebugEval {
                thread,
                frame,
                expression: expression@,
            },
            Action::DebugStart { template, address, params } => Action::DebugStart {
                template: maybe(template),
                address: maybe(address),
                params: text::views(params@),
            },
            Action::SetLanguage(s) => Action::SetLanguage(s@),
            Action::Shell { command, behavior } => Action::Shell { command: command@, behavior },
            Action::RunShell(s) => Action::RunShell(s@),
            Action::MoveTo(s) => Action::MoveTo(s@),
            Action::WriteRegister { register, values } => Action::WriteRegister {
                register,
                values: text::views(values@),
            },
            Action::ReadFile(s) => Action::ReadFile(s@),
            Action::InsertText(s) => Action::InsertText(s@),
            Action::Apply { place, changes } => Action::Apply {
                place,
                changes: change::change_views(changes@),
            },
        }
    }
}

/// What a command asks of the editor: steps, to be done in turn until one of them fails, and
/// after them an error if the command fails by itself. [`next_step`] says what comes next.
#[derive(Debug, PartialEq, Eq)]
pub struct Plan {
    /// The steps.
    pub steps: Vec<Step>,
    /// The error that the command ends with.
    pub error: Option<String>,
}

/// What a command asks of the editor, as a mathematical value.
#[verifier::ext_equal]
pub struct PlanView {
    /// The steps.
    pub steps: Seq<StepView>,
    /// The error that the command ends with.
    pub error: Option<Seq<char>>,
}

/// The views of a vector of steps.
pub open spec fn step_views(steps: Seq<Step>) -> Seq<StepView> {
    steps.map_values(|s: Step| s@)
}

impl View for Plan {
    type V = PlanView;

    open spec fn view(&self) -> PlanView {
        PlanView { steps: step_views(self.steps@), error: maybe(self.error) }
    }
}

impl PlanView {
    /// Nothing is to be done.
    pub open spec fn nothing() -> PlanView {
        PlanView { steps: Seq::empty(), error: None }
    }

    /// Steps, and no error.
    pub open spec fn of(steps: Seq<StepView>) -> PlanView {
        PlanView { steps, error: None }
    }

    /// A single step that takes no text, and no error.
    pub open spec fn doing(op: Op) -> PlanView {
        PlanView::of(seq![Action::Do(op)])
    }

    /// An error, and no steps.
    pub open spec fn failing(message: Seq<char>) -> PlanView {
        PlanView { steps: Seq::empty(), error: Some(message) }
    }

    /// A status message, and nothing else.
    pub open spec fn status(message: Seq<char>) -> PlanView {
        PlanView::of(seq![Action::SetStatus(message)])
    }

    /// One plan and, unless it ends with an error, another.
    pub open spec fn followed_by(self, next: PlanView) -> PlanView {
        if self.error is Some {
            self
        } else {
            PlanView { steps: self.steps + next.steps, error: next.error }
        }
    }
}

impl Plan {
    /// Nothing is to be done.
    pub fn nothing() -> (r: Plan)
        ensures
            r@ == PlanView::nothing(),
    {
        Plan { steps: Vec::new(), error: None }
    }

    /// Steps, and no error.
    pub fn of(steps: Vec<Step>) -> (r: Plan)
        ensures
            r@ == PlanView::of(step_views(steps@)),
    {
        Plan { steps, error: None }
    }

    /// A single step, and no error.
    pub fn one(step: Step) -> (r: Plan)
        ensures
            r@ == PlanView::of(seq![step@]),
    {
        let plan = Plan { steps: vec![step], error: None };
        assert(plan@.steps =~= seq![step@]);
        plan
    }

    /// A single step that takes no text, and no error.
    pub fn doing(op: Op) -> (r: Plan)
        ensures
            r@ == PlanView::doing(op),
    {
        Plan::one(Action::Do(op))
    }

    /// An error, and no steps.
    pub fn failing(message: &str) -> (r: Plan)
        ensures
            r@ == PlanView::failing(message@),
    {
        Plan { steps: Vec::new(), error: Some(message.to_owned()) }
    }

    /// A status message, and nothing else.
    pub fn status(message: &str) -> (r: Plan)
        ensures
            r@ == PlanView::status(message@),
    {
        Plan::one(Action::SetStatus(message.to_owned()))
    }

    /// Adds a step at the end.
    pub fn push(&mut self, step: Step)
        ensures
            final(self)@ == (PlanView { steps: old(self)@.steps.push(step@), ..old(self)@ }),
    {
        let ghost before = self@;
        self.steps.push(step);
        assert(self@.steps =~= before.steps.push(step@));
    }

    /// One plan and, unless it ends with an error, another.
    pub fn followed_by(self, next: Plan) -> (r: Plan)
        ensures
            r@ == self@.followed_by(next@),
    {
        if self.error.is_some() {
            return self;
        }
        let ghost first = self@;
        let ghost second = next@;
        let mut steps = self.steps;
        let mut more = next.steps;
        steps.append(&mut more);
        let plan = Plan { steps, error: next.error };
        assert(plan@.steps =~= first.steps + second.steps);
        plan
    }
}

/// What comes next of some items that are done in turn. `T` stands for an item, `S` for a text.
#[derive(Debug, PartialEq, Eq)]
pub enum Next<T, S> {
    /// The next item is to be done.
    Do(T),
    /// Nothing more is to be done, for that error.
    Failed(S),
    /// Nothing more is to be done.
    Done,
}

/// What comes next when `done` items have been done, given the error with which the last of them
/// failed, if it did. After a failure nothing more is done. At the end there is the error that
/// the whole ends with, if there is one.
pub open spec fn next_of<T>(
    items: Seq<T>,
    error: Option<Seq<char>>,
    done: nat,
    failure: Option<Seq<char>>,
) -> Next<T, Seq<char>> {
    match failure {
        Some(message) => Next::Failed(message),
        None => if done < items.len() {
            Next::Do(items[done as int])
        } else {
            match error {
                Some(message) => Next::Failed(message),
                None => Next::Done,
            }
        },
    }
}

/// What comes next of a plan when `done` of its steps have been done, given the error with which
/// the last of them failed, if it did.
pub open spec fn next(plan: PlanView, done: nat, failure: Option<Seq<char>>) -> Next<
    StepView,
    Seq<char>,
> {
    next_of(plan.steps, plan.error, done, failure)
}

impl<'a> View for Next<&'a Step, String> {
    type V = Next<StepView, Seq<char>>;

    open spec fn view(&self) -> Next<StepView, Seq<char>> {
        match *self {
            Next::Do(step) => Next::Do(step@),
            Next::Failed(message) => Next::Failed(message@),
            Next::Done => Next::Done,
        }
    }
}

/// Says what comes next of a plan when `done` of its steps have been done, given the error with
/// which the last of them failed, if it did. A step that goes on with a plan of its own fails when
/// that plan fails.
pub fn next_step<'a>(plan: &'a Plan, done: usize, failure: Option<String>) -> (r: Next<
    &'a Step,
    String,
>)
    requires
        done <= plan.steps.len(),
    ensures
        r@ == next(plan@, done as nat, maybe(failure)),
{
    match failure {
        Some(message) => Next::Failed(message),
        None => if done < plan.steps.len() {
            Next::Do(&plan.steps[done])
        } else {
            match &plan.error {
                Some(message) => Next::Failed(message.clone()),
                None => Next::Done,
            }
        },
    }
}

/// How far items that are done in turn have come in the end, and with which error.
#[verifier::ext_equal]
pub struct Course {
    /// How many items have been done; the last of them may have failed.
    pub done: nat,
    /// The error that comes of it all.
    pub error: Option<Seq<char>>,
}

/// The course of items that are done in turn from a place on, given the error with which each of
/// them would fail, if it would: [`next_of`] is asked after each of them what comes next.
pub open spec fn course_from<T>(
    items: Seq<T>,
    error: Option<Seq<char>>,
    failures: spec_fn(nat) -> Option<Seq<char>>,
    done: nat,
) -> Course
    decreases items.len() - done,
{
    let failure = if done == 0 {
        None
    } else {
        failures((done - 1) as nat)
    };
    match next_of(items, error, done, failure) {
        Next::Do(_) => course_from(items, error, failures, done + 1),
        Next::Failed(message) => Course { done, error: Some(message) },
        Next::Done => Course { done, error: None },
    }
}

/// The course of a plan, given the error with which each of its steps would fail, if it would.
pub open spec fn course(plan: PlanView, failures: spec_fn(nat) -> Option<Seq<char>>) -> Course {
    course_from(plan.steps, plan.error, failures, 0)
}

/// When an item fails and none before it does, nothing behind it is done, and its error is what
/// comes of it all.
pub proof fn lemma_first_failure_ends<T>(
    items: Seq<T>,
    error: Option<Seq<char>>,
    failures: spec_fn(nat) -> Option<Seq<char>>,
    done: nat,
    failing: nat,
)
    requires
        done <= failing < items.len(),
        done == 0 || failures((done - 1) as nat) is None,
        forall|i: nat| done <= i < failing ==> #[trigger] failures(i) is None,
        failures(failing) is Some,
    ensures
        course_from(items, error, failures, done) == (Course {
            done: failing + 1,
            error: failures(failing),
        }),
    decreases failing - done,
{
    if done < failing {
        assert(failures(done) is None);
        lemma_first_failure_ends(items, error, failures, done + 1, failing);
    } else {
        reveal_with_fuel(course_from, 2);
    }
}

/// When no step of a plan fails, all of them are done, and what comes of it is the plan's own
/// error, if it has one.
pub proof fn lemma_all_done<T>(
    items: Seq<T>,
    error: Option<Seq<char>>,
    failures: spec_fn(nat) -> Option<Seq<char>>,
    done: nat,
)
    requires
        done <= items.len(),
        done == 0 || failures((done - 1) as nat) is None,
        forall|i: nat| done <= i < items.len() ==> #[trigger] failures(i) is None,
    ensures
        course_from(items, error, failures, done) == (Course { done: items.len(), error }),
    decreases items.len() - done,
{
    if done < items.len() {
        assert(failures(done) is None);
        lemma_all_done(items, error, failures, done + 1);
    }
}

/// What comes next in a plan: a failure ends it, otherwise its steps come in their order and then
/// its own error, if it has one.
pub proof fn lemma_next(plan: PlanView, done: nat, message: Seq<char>)
    ensures
        next(plan, done, Some(message)) == Next::<StepView, Seq<char>>::Failed(message),
        done < plan.steps.len() ==> next(plan, done, None) == Next::<StepView, Seq<char>>::Do(
            plan.steps[done as int],
        ),
        done >= plan.steps.len() && plan.error == Some(message) ==> next(plan, done, None)
            == Next::<StepView, Seq<char>>::Failed(message),
        done >= plan.steps.len() && plan.error is None ==> next(plan, done, None) == Next::<
            StepView,
            Seq<char>,
        >::Done,
{
}

/// A plan that fails is not followed by another; one that does not is, step behind step, and fails
/// as the other does.
pub proof fn lemma_followed_by(first: PlanView, second: PlanView, k: int)
    ensures
        first.error is Some ==> first.followed_by(second) == first,
        first.error is None ==> {
            let both = first.followed_by(second);
            &&& both.error == second.error
            &&& both.steps.len() == first.steps.len() + second.steps.len()
            &&& 0 <= k < first.steps.len() ==> both.steps[k] == first.steps[k]
            &&& 0 <= k < second.steps.len() ==> both.steps[first.steps.len() + k]
                == second.steps[k]
        },
{
}

/// Whether two texts are the same, or neither is there.
pub open spec fn same_text(a: Option<String>, b: Option<String>) -> bool {
    match (a, b) {
        (Some(s), Some(t)) => s@ == t@,
        (None, None) => true,
        _ => false,
    }
}

/// Whether texts are the same, one by one.
pub open spec fn same_texts(a: Seq<String>, b: Seq<String>) -> bool {
    a.len() == b.len() && forall|i: int| 0 <= i < a.len() ==> (#[trigger] a[i])@ == b[i]@
}

/// The view of a step tells all there is to the step: steps with the same view do the same to the
/// same things.
pub proof fn lemma_step_views_tell(a: Step, b: Step)
    requires
        a@ == b@,
    ensures
        a is Do ==> b is Do
            && a->Do_0 == b->Do_0,
        a is SetStatus ==> b is SetStatus
            && a->SetStatus_0@ == b->SetStatus_0@,
        a is SetError ==> b is SetError
            && a->SetError_0@ == b->SetError_0@,
        a is LocateFile ==> b is LocateFile
            && a->LocateFile_0@ == b->LocateFile_0@,
        a is Open ==> b is Open
            && a->Open_path@ == b->Open_path@
            && a->Open_split == b->Open_split,
        a is OpenPicker ==> b is OpenPicker
            && a->OpenPicker_0@ == b->OpenPicker_0@,
        a is Save ==> b is Save
            && a->Save_doc == b->Save_doc
            && same_text(a->Save_path, b->Save_path)
            && a->Save_force == b->Save_force,
        a is FormatAndSave ==> b is FormatAndSave
            && a->FormatAndSave_place == b->FormatAndSave_place
            && same_text(a->FormatAndSave_path, b->FormatAndSave_path)
            && a->FormatAndSave_force == b->FormatAndSave_force,
        a is Earlier ==> b is Earlier
            && a->Earlier_0@ == b->Earlier_0@,
        a is Later ==> b is Later
            && a->Later_0@ == b->Later_0@,
        a is PreviewTheme ==> b is PreviewTheme
            && a->PreviewTheme_0@ == b->PreviewTheme_0@,
        a is ChooseTheme ==> b is ChooseTheme
            && a->ChooseTheme_0@ == b->ChooseTheme_0@,
        a is YankJoined ==> b is YankJoined
            && a->YankJoined_separator@ == b->YankJoined_separator@
            && a->YankJoined_register == b->YankJoined_register,
        a is SetEncoding ==> b is SetEncoding
            && a->SetEncoding_0@ == b->SetEncoding_0@,
        a is ExecuteCommand ==> b is ExecuteCommand
            && a->ExecuteCommand_server == b->ExecuteCommand_server
            && a->ExecuteCommand_command@ == b->ExecuteCommand_command@,
        a is StopServer ==> b is StopServer
            && a->StopServer_0@ == b->StopServer_0@,
        a is DetachServer ==> b is DetachServer
            && a->DetachServer_doc == b->DetachServer_doc
            && a->DetachServer_name@ == b->DetachServer_name@,
        a is Popup ==> b is Popup
            && a->Popup_id@ == b->Popup_id@
            && a->Popup_contents@ == b->Popup_contents@
            && a->Popup_position == b->Popup_position,
        a is DebugEval ==> b is DebugEval
            && a->DebugEval_thread == b->DebugEval_thread
            && a->DebugEval_frame == b->DebugEval_frame
            && a->DebugEval_expression@ == b->DebugEval_expression@,
        a is DebugStart ==> b is DebugStart
            && same_text(a->DebugStart_template, b->DebugStart_template)
            && same_text(a->DebugStart_address, b->DebugStart_address)
            && same_texts(a->DebugStart_params@, b->DebugStart_params@),
        a is SetLanguage ==> b is SetLanguage
            && a->SetLanguage_0@ == b->SetLanguage_0@,
        a is Shell ==> b is Shell
            && a->Shell_command@ == b->Shell_command@
            && a->Shell_behavior == b->Shell_behavior,
        a is RunShell ==> b is RunShell
            && a->RunShell_0@ == b->RunShell_0@,
        a is MoveTo ==> b is MoveTo
            && a->MoveTo_0@ == b->MoveTo_0@,
        a is WriteRegister ==> b is WriteRegister
            && a->WriteRegister_register == b->WriteRegister_register
            && same_texts(a->WriteRegister_values@, b->WriteRegister_values@),
        a is ReadFile ==> b is ReadFile
            && a->ReadFile_0@ == b->ReadFile_0@,
        a is InsertText ==> b is InsertText
            && a->InsertText_0@ == b->InsertText_0@,
        a is Apply ==> b is Apply
            && a->Apply_place == b->Apply_place,
        a is ChangeDirectory ==> b is ChangeDirectory && match (
            a->ChangeDirectory_0,
            b->ChangeDirectory_0,
        ) {
            (Directory::Path(p), Directory::Path(q)) => p@ == q@,
            (Directory::Tilde(p), Directory::Tilde(q)) => p@ == q@,
            (Directory::Home, Directory::Home) => true,
            _ => false,
        },
        a is Apply ==> a->Apply_changes.len() == b->Apply_changes.len() && forall|i: int|
            0 <= i < a->Apply_changes.len() ==> (#[trigger] a->Apply_changes@[i]).from
                == b->Apply_changes@[i].from && a->Apply_changes@[i].to == b->Apply_changes@[i].to
                && same_text(a->Apply_changes@[i].text, b->Apply_changes@[i].text),
{
    match a {
        Action::DebugStart { params, .. } => {
            lemma_views_tell(params@, b->DebugStart_params@);
        },
        Action::WriteRegister { values, .. } => {
            lemma_views_tell(values@, b->WriteRegister_values@);
        },
        Action::Apply { changes, .. } => {
            let others = b->Apply_changes@;
            let seen = change::change_views(changes@);
            assert(seen == change::change_views(others));
            assert(seen.len() == changes.len() && seen.len() == others.len());
            assert forall|i: int| 0 <= i < changes.len() implies (#[trigger] changes@[i]).from
                == others[i].from && changes@[i].to == others[i].to && same_text(
                changes@[i].text,
                others[i].text,
            ) by {
                assert(seen[i] == changes@[i]@ && seen[i] == others[i]@);
            }
        },
        _ => {},
    }
}

proof fn lemma_views_tell(a: Seq<String>, b: Seq<String>)
    requires
        text::views(a) == text::views(b),
    ensures
        same_texts(a, b),
{
    assert(text::views(a).len() == a.len() && text::views(b).len() == b.len());
    assert forall|i: int| 0 <= i < a.len() implies (#[trigger] a[i])@ == b[i]@ by {
        assert(text::views(a)[i] == a[i]@ && text::views(b)[i] == b[i]@);
    }
}

/// The view of a plan tells all of its steps, in their order, and its error.
pub proof fn lemma_plan_views_tell(a: Plan, b: Plan, k: int)
    requires
        a@ == b@,
    ensures
        a.steps.len() == b.steps.len(),
        0 <= k < a.steps.len() ==> a.steps[k]@ == b.steps[k]@,
        same_text(a.error, b.error),
{
    assert(step_views(a.steps@).len() == a.steps.len());
    assert(step_views(b.steps@).len() == b.steps.len());
    if 0 <= k < a.steps.len() {
        assert(step_views(a.steps@)[k] == a.steps[k]@);
        assert(step_views(b.steps@)[k] == b.steps[k]@);
    }
}

} // verus!
