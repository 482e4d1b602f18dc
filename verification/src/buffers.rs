//! Opening, writing and closing documents and views.
use vstd::prelude::*;

use crate::args;
use crate::args::{Args, ArgsView, PromptEvent};
use crate::editor::{Document, DocumentId, Editor};
use crate::plan;
use crate::plan::{Action, Course, Direction, Op, Plan, PlanView, Split, Step, StepView};
use crate::text;

verus! {

/// A plan that is due only when the input is confirmed.
pub open spec fn on_validate(event: PromptEvent, plan: PlanView) -> PlanView {
    if event == PromptEvent::Validate {
        plan
    } else {
        PlanView::nothing()
    }
}

/// What is said about documents with changes that are not saved.
pub open spec fn unsaved_message(names: Seq<Seq<char>>) -> Seq<char> {
    text::decimal(names.len()) + " unsaved buffer"@ + text::plural(names.len()) + " remaining: "@
        + text::debug_list(names)
}

/// What is done about documents with changes that are not saved: when the document in focus is
/// none of them, the first of them comes into focus.
pub open spec fn unsaved_plan(
    ids: Seq<DocumentId>,
    names: Seq<Seq<char>>,
    current: DocumentId,
) -> PlanView {
    if ids.len() == 0 {
        PlanView::nothing()
    } else {
        PlanView {
            steps: if ids.contains(current) {
                Seq::empty()
            } else {
                seq![Action::Do(Op::Switch(ids[0]))]
            },
            error: Some(unsaved_message(names)),
        }
    }
}

fn unsaved(ids: &Vec<DocumentId>, names: &Vec<String>, current: DocumentId) -> (r: Plan)
    ensures
        r@ == unsaved_plan(ids@, text::views(names@), current),
{
    if ids.len() == 0 {
        return Plan::nothing();
    }
    let mut message = text::to_decimal(names.len());
    message.append(" unsaved buffer");
    message.append(text::plural_ending(names.len()));
    message.append(" remaining: ");
    message.append(text::to_debug_list(names).as_str());
    assert(message@ == unsaved_message(text::views(names@)));
    let mut plan = Plan::failing(message.as_str());
    if !contains(ids, current) {
        plan.push(Action::Do(Op::Switch(ids[0])));
        assert(plan@.steps =~= seq![Action::Do(Op::Switch(ids@[0]))]);
    }
    plan
}

fn contains(ids: &Vec<DocumentId>, id: DocumentId) -> (r: bool)
    ensures
        r == ids@.contains(id),
{
    let mut i: usize = 0;
    while i < ids.len()
        invariant
            i <= ids.len(),
            forall|j: int| 0 <= j < i ==> ids@[j] != id,
        decreases ids.len() - i,
    {
        if ids[i] == id {
            assert(ids@[i as int] == id);
            return true;
        }
        i = i + 1;
    }
    false
}

/// The documents with changes that are not saved.
pub open spec fn modified(documents: Seq<Document>) -> Seq<Document> {
    documents.filter(|d: Document| d.modified)
}

/// The numbers of documents.
pub open spec fn ids_of(documents: Seq<Document>) -> Seq<DocumentId> {
    documents.map_values(|d: Document| d.id)
}

/// The names under which documents are shown.
pub open spec fn names_of(documents: Seq<Document>) -> Seq<Seq<char>> {
    documents.map_values(|d: Document| d.display_name@)
}

/// A plan that shows the error that it ends with, if there is one.
pub open spec fn showing_error(plan: PlanView) -> PlanView {
    match plan.error {
        Some(message) => PlanView {
            steps: plan.steps.push(Action::SetError(message)),
            error: plan.error,
        },
        None => plan,
    }
}

fn show_error(plan: Plan) -> (r: Plan)
    ensures
        r@ == showing_error(plan@),
{
    let mut plan = plan;
    if let Some(message) = &plan.error {
        let message = message.clone();
        plan.push(Action::SetError(message));
    }
    plan
}

/// What is done when documents have changes that are not saved.
pub open spec fn remaining_plan(editor: Editor) -> PlanView {
    showing_error(
        unsaved_plan(
            ids_of(modified(editor.documents@)),
            names_of(modified(editor.documents@)),
            editor.doc_spec().id,
        ),
    )
}

/// Results in an error if there are modified documents, and shows it as the editor's error. If
/// the document in focus is unmodified, and there are modified documents, brings the first of
/// them into focus.
pub fn buffers_remaining_impl(editor: &Editor) -> (r: Plan)
    requires
        editor.wf(),
    ensures
        r@ == remaining_plan(*editor),
{
    let ghost docs = editor.documents@;
    let mut ids: Vec<DocumentId> = Vec::new();
    let mut names: Vec<String> = Vec::new();
    let mut i: usize = 0;
    while i < editor.documents.len()
        invariant
            docs == editor.documents@,
            i <= docs.len(),
            ids@ == ids_of(modified(docs.take(i as int))),
            text::views(names@) == names_of(modified(docs.take(i as int))),
        decreases docs.len() - i,
    {
        let ghost before = modified(docs.take(i as int));
        let ghost names_before = names@;
        proof {
            reveal(Seq::filter);
            assert(docs.take(i + 1).drop_last() =~= docs.take(i as int));
        }
        let doc = &editor.documents[i];
        if doc.modified {
            ids.push(doc.id);
            names.push(doc.display_name.clone());
            assert(modified(docs.take(i + 1)) == before.push(docs[i as int]));
            assert(ids@ =~= ids_of(before.push(docs[i as int])));
            assert(text::views(names@) =~= text::views(names_before).push(
                docs[i as int].display_name@,
            ));
            assert(text::views(names@) =~= names_of(before.push(docs[i as int])));
        } else {
            assert(modified(docs.take(i + 1)) == before);
        }
        i = i + 1;
    }
    assert(docs.take(i as int) =~= docs);
    show_error(unsaved(&ids, &names, editor.doc().id))
}

/// What `quit` does.
pub open spec fn quit_plan(editor: Editor, args: ArgsView, event: PromptEvent) -> PlanView {
    on_validate(
        event,
        if !args.is_empty() {
            PlanView::failing(":quit takes no arguments"@)
        } else {
            let close = PlanView::of(
                seq![Action::Do(Op::FlushWrites), Action::Do(Op::CloseCurrentView)],
            );
            if editor.views.len() == 1 {
                remaining_plan(editor).followed_by(close)
            } else {
                close
            }
        },
    )
}

/// Closes the view in focus, unless it is the last one and there are changes that are not saved.
pub fn quit(editor: &Editor, args: Args, event: PromptEvent) -> (r: Plan)
    requires
        editor.wf(),
    ensures
        r@ == quit_plan(*editor, args@, event),
{
    if event != PromptEvent::Validate {
        return Plan::nothing();
    }
    if !args.is_empty() {
        return Plan::failing(":quit takes no arguments");
    }
    let close = flush_and_close();
    // last view and we have unsaved changes
    if editor.views.len() == 1 {
        buffers_remaining_impl(editor).followed_by(close)
    } else {
        close
    }
}

fn flush_and_close() -> (r: Plan)
    ensures
        r@ == PlanView::of(seq![Action::Do(Op::FlushWrites), Action::Do(Op::CloseCurrentView)]),
{
    let mut plan = Plan::doing(Op::FlushWrites);
    plan.push(Action::Do(Op::CloseCurrentView));
    assert(plan@.steps =~= seq![Action::Do(Op::FlushWrites), Action::Do(Op::CloseCurrentView)]);
    plan
}

/// What `quit!` does.
pub open spec fn force_quit_plan(args: ArgsView, event: PromptEvent) -> PlanView {
    on_validate(
        event,
        if !args.is_empty() {
            PlanView::failing(":quit! takes no arguments"@)
        } else {
            PlanView::of(seq![Action::Do(Op::FlushWrites), Action::Do(Op::CloseCurrentView)])
        },
    )
}

/// Closes the view in focus whatever is not saved.
pub fn force_quit(_editor: &Editor, args: Args, event: PromptEvent) -> (r: Plan)
    ensures
        r@ == force_quit_plan(args@, event),
{
    if event != PromptEvent::Validate {
        return Plan::nothing();
    }
    if !args.is_empty() {
        return Plan::failing(":quit! takes no arguments");
    }
    flush_and_close()
}

/// What `open` does.
pub open spec fn open_plan(args: ArgsView, event: PromptEvent) -> PlanView {
    on_validate(
        event,
        if args.is_empty() {
            PlanView::failing(":open needs at least one argument"@)
        } else {
            PlanView::of(
                args::texts(args.left()).map_values(|t: Seq<char>| Action::LocateFile(t)),
            )
        },
    )
}

/// Opens files from disk in the view in focus.
pub fn open(_editor: &Editor, args: Args, event: PromptEvent) -> (r: Plan)
    requires
        args@.wf(),
    ensures
        r@ == open_plan(args@, event),
{
    if event != PromptEvent::Validate {
        return Plan::nothing();
    }
    if args.is_empty() {
        return Plan::failing(":open needs at least one argument");
    }
    let names = args.remaining();
    let mut steps: Vec<Step> = Vec::new();
    let mut i: usize = 0;
    while i < names.len()
        invariant
            i <= names.len(),
            steps.len() == i,
            forall|j: int|
                0 <= j < i ==> (#[trigger] steps@[j])@ == (Action::LocateFile::<
                    Seq<char>,
                    Seq<Seq<char>>,
                    Seq<crate::change::Change<Seq<char>>>,
                >(names@[j]@)),
        decreases names.len() - i,
    {
        steps.push(Action::LocateFile(names[i].clone()));
        i = i + 1;
    }
    assert forall|j: int| 0 <= j < names.len() implies (#[trigger] names@[j])@ == args::texts(
        args@.left(),
    )[j] by {
        assert(text::views(names@)[j] == names@[j]@);
    }
    let plan = Plan::of(steps);
    assert(plan@.steps =~= args::texts(args@.left()).map_values(
        |t: Seq<char>| Action::LocateFile(t),
    ));
    plan
}

/// What is done with the file that an argument of `open` names: a directory is offered to pick a
/// file from, and anything else is opened.
pub open spec fn located_plan(path: Seq<char>, is_dir: bool, row: usize, column: usize) -> PlanView {
    if is_dir {
        PlanView::of(seq![Action::OpenPicker(path)])
    } else {
        PlanView::of(
            seq![
                Action::Open { path, split: Split::Replace },
                Action::Do(Op::PlaceCursor { row, column }),
                Action::Do(Op::AlignCenter),
            ],
        )
    }
}

/// Goes on with `open` when the file and the position that an argument names are known.
pub fn located(path: &str, is_dir: bool, row: usize, column: usize) -> (r: Plan)
    ensures
        r@ == located_plan(path@, is_dir, row, column),
{
    if is_dir {
        return Plan::one(Action::OpenPicker(path.to_owned()));
    }
    let mut plan = Plan::one(Action::Open { path: path.to_owned(), split: Split::Replace });
    plan.push(Action::Do(Op::PlaceCursor { row, column }));
    plan.push(Action::Do(Op::AlignCenter));
    assert(plan@.steps =~= located_plan(path@, is_dir, row, column).steps);
    plan
}

/// The steps that close documents.
pub open spec fn close_steps(ids: Seq<DocumentId>, force: bool) -> Seq<StepView> {
    ids.map_values(|id: DocumentId| Action::Do(Op::CloseDocument { id, force }))
}

/// What is done to close documents.
pub open spec fn close_plan(ids: Seq<DocumentId>, force: bool) -> PlanView {
    PlanView::of(
        seq![Action::Do(Op::FlushWrites)] + close_steps(ids, force) + seq![
            Action::Do(Op::ReportUnclosed),
        ],
    )
}

/// Closes documents.
pub fn buffer_close_by_ids_impl(doc_ids: &Vec<DocumentId>, force: bool) -> (r: Plan)
    ensures
        r@ == close_plan(doc_ids@, force),
{
    let mut plan = Plan::doing(Op::FlushWrites);
    let mut i: usize = 0;
    assert(plan@.steps =~= seq![Action::Do(Op::FlushWrites)] + close_steps(
        doc_ids@.take(0),
        force,
    ));
    while i < doc_ids.len()
        invariant
            i <= doc_ids.len(),
            plan@ == PlanView::of(
                seq![Action::Do(Op::FlushWrites)] + close_steps(doc_ids@.take(i as int), force),
            ),
        decreases doc_ids.len() - i,
    {
        plan.push(Action::Do(Op::CloseDocument { id: doc_ids[i], force }));
        i = i + 1;
        assert(plan@.steps =~= seq![Action::Do(Op::FlushWrites)] + close_steps(
            doc_ids@.take(i as int),
            force,
        ));
    }
    assert(doc_ids@.take(i as int) =~= doc_ids@);
    plan.push(Action::Do(Op::ReportUnclosed));
    assert(plan@.steps =~= close_plan(doc_ids@, force).steps);
    plan
}

/// What came of closing a document.
#[derive(Debug, PartialEq, Eq)]
pub enum CloseOutcome {
    /// It is closed.
    Closed,
    /// It has changes that are not saved, and is still open; its name.
    BufferModified(String),
    /// There is no such document.
    DoesNotExist,
    /// It could not be saved.
    SaveError,
}

/// A document that was to be closed, and what came of it.
#[derive(Debug, PartialEq, Eq)]
pub struct Closing {
    /// The document.
    pub id: DocumentId,
    /// What came of it.
    pub outcome: CloseOutcome,
}

/// The documents that are still open for changes that are not saved.
pub open spec fn refused(closings: Seq<Closing>) -> Seq<Closing> {
    closings.filter(|c: Closing| c.outcome is BufferModified)
}

/// The numbers of documents that were to be closed.
pub open spec fn closing_ids(closings: Seq<Closing>) -> Seq<DocumentId> {
    closings.map_values(|c: Closing| c.id)
}

/// The names of documents that are still open.
pub open spec fn closing_names(closings: Seq<Closing>) -> Seq<Seq<char>> {
    closings.map_values(|c: Closing| c.outcome->BufferModified_0@)
}

/// What is done when documents were to be closed.
pub open spec fn closed_plan(closings: Seq<Closing>, current: DocumentId) -> PlanView {
    unsaved_plan(closing_ids(refused(closings)), closing_names(refused(closings)), current)
}

/// Goes on with `buffer_close_by_ids_impl` when it is known what came of closing the documents.
pub fn closed(closings: &Vec<Closing>, current: DocumentId) -> (r: Plan)
    ensures
        r@ == closed_plan(closings@, current),
{
    let mut ids: Vec<DocumentId> = Vec::new();
    let mut names: Vec<String> = Vec::new();
    let mut i: usize = 0;
    while i < closings.len()
        invariant
            i <= closings.len(),
            ids@ == closing_ids(refused(closings@.take(i as int))),
            text::views(names@) == closing_names(refused(closings@.take(i as int))),
        decreases closings.len() - i,
    {
        let ghost before = refused(closings@.take(i as int));
        let ghost names_before = names@;
        let ghost this = closings@[i as int];
        proof {
            reveal(Seq::filter);
            assert(closings@.take(i + 1).drop_last() =~= closings@.take(i as int));
        }
        match &closings[i].outcome {
            CloseOutcome::BufferModified(name) => {
                ids.push(closings[i].id);
                names.push(name.clone());
                assert(refused(closings@.take(i + 1)) == before.push(this));
                assert(ids@ =~= closing_ids(before.push(this)));
                assert(text::views(names@) =~= text::views(names_before).push(name@));
                assert(text::views(names@) =~= closing_names(before.push(this)));
            },
            _ => {
                assert(refused(closings@.take(i + 1)) == before);
            },
        }
        i = i + 1;
    }
    assert(closings@.take(i as int) =~= closings@);
    unsaved(&ids, &names, current)
}

/// Whether a path is the given one.
pub open spec fn path_is(path: Option<Vec<String>>, wanted: Seq<Seq<char>>) -> bool {
    path is Some && text::views(path->0@) == wanted
}

/// The first document whose path, in full or seen from the working directory, is the given one.
pub open spec fn found(documents: Seq<Document>, wanted: Seq<Seq<char>>) -> Option<DocumentId>
    decreases documents.len(),
{
    if documents.len() == 0 {
        None
    } else if path_is(documents[0].path, wanted) || path_is(documents[0].relative_path, wanted) {
        Some(documents[0].id)
    } else {
        found(documents.skip(1), wanted)
    }
}

/// The documents that arguments name, in the order of the arguments.
pub open spec fn named_documents(
    documents: Seq<Document>,
    words: Seq<args::WordView>,
) -> Seq<DocumentId>
    decreases words.len(),
{
    if words.len() == 0 {
        Seq::empty()
    } else {
        let first = named_documents(documents, words.drop_last());
        match found(documents, words.last().path) {
            Some(id) => first.push(id),
            None => first,
        }
    }
}

/// The arguments that name no document, each in quotes.
pub open spec fn nonexistent(documents: Seq<Document>, words: Seq<args::WordView>) -> Seq<
    Seq<char>,
>
    decreases words.len(),
{
    if words.len() == 0 {
        Seq::empty()
    } else {
        let first = nonexistent(documents, words.drop_last());
        match found(documents, words.last().path) {
            Some(_) => first,
            None => first.push("'"@ + words.last().text + "'"@),
        }
    }
}

/// The documents that arguments name. No arguments imply the document in focus.
pub open spec fn gathered_ids(editor: Editor, args: ArgsView) -> Seq<DocumentId> {
    if args.left().len() == 0 {
        seq![editor.doc_spec().id]
    } else {
        named_documents(editor.documents@, args.left())
    }
}

/// What is said about arguments that name no document.
pub open spec fn gathered_error(editor: Editor, args: ArgsView) -> Option<Seq<char>> {
    let missing = nonexistent(editor.documents@, args.left());
    if missing.len() == 0 {
        None
    } else {
        Some("cannot close non-existent buffers: "@ + text::joined(missing, ", "@))
    }
}

/// Documents that arguments name, and what is to be said about the other arguments.
#[derive(Debug, PartialEq, Eq)]
pub struct Gathered {
    /// The documents.
    pub ids: Vec<DocumentId>,
    /// What is to be said about arguments that name no document.
    pub error: Option<String>,
}

fn is_path(path: &Option<Vec<String>>, wanted: &Vec<String>) -> (r: bool)
    ensures
        r == path_is(*path, text::views(wanted@)),
{
    match path {
        Some(parts) => {
            if parts.len() != wanted.len() {
                assert(text::views(parts@).len() != text::views(wanted@).len());
                return false;
            }
            let mut i: usize = 0;
            while i < parts.len()
                invariant
                    *path == Some(*parts),
                    i <= parts.len(),
                    parts.len() == wanted.len(),
                    forall|j: int| 0 <= j < i ==> (#[trigger] parts@[j])@ == wanted@[j]@,
                decreases parts.len() - i,
            {
                if parts[i] != wanted[i] {
                    assert(text::views(parts@)[i as int] != text::views(wanted@)[i as int]);
                    return false;
                }
                i = i + 1;
            }
            assert(text::views(parts@) =~= text::views(wanted@));
            true
        },
        None => false,
    }
}

fn find(documents: &Vec<Document>, wanted: &Vec<String>) -> (r: Option<DocumentId>)
    ensures
        r == found(documents@, text::views(wanted@)),
{
    let mut i: usize = 0;
    assert(documents@.skip(0) =~= documents@);
    while i < documents.len()
        invariant
            i <= documents.len(),
            found(documents@, text::views(wanted@)) == found(
                documents@.skip(i as int),
                text::views(wanted@),
            ),
        decreases documents.len() - i,
    {
        if is_path(&documents[i].path, wanted) || is_path(&documents[i].relative_path, wanted) {
            return Some(documents[i].id);
        }
        assert(documents@.skip(i as int).skip(1) =~= documents@.skip(i + 1));
        i = i + 1;
    }
    None
}

/// Finds the documents that arguments name. No arguments imply the document in focus.
pub fn buffer_gather_paths_impl(editor: &Editor, args: &Args) -> (r: Gathered)
    requires
        editor.wf(),
        args@.wf(),
    ensures
        r.ids@ == gathered_ids(*editor, args@),
        match r.error {
            Some(message) => gathered_error(*editor, args@) == Some(message@),
            None => gathered_error(*editor, args@) is None,
        },
{
    let ghost words = args@.left();
    if args.taken == args.words.len() {
        let ids = vec![editor.doc().id];
        assert(ids@ =~= seq![editor.doc_spec().id]);
        return Gathered { ids, error: None };
    }
    let mut missing: Vec<String> = Vec::new();
    let mut ids: Vec<DocumentId> = Vec::new();
    let mut i: usize = args.taken;
    assert(text::views(missing@) =~= nonexistent(editor.documents@, words.take(0)));
    while i < args.words.len()
        invariant
            args.taken <= i <= args.words.len(),
            words == args@.left(),
            ids@ == named_documents(editor.documents@, words.take(i - args.taken)),
            text::views(missing@) == nonexistent(editor.documents@, words.take(i - args.taken)),
        decreases args.words.len() - i,
    {
        let ghost k = i - args.taken;
        let ghost before = missing@;
        assert(words.take(k + 1).drop_last() =~= words.take(k));
        assert(words[k] == args.words@[i as int]@);
        let word = &args.words[i];
        match find(&editor.documents, &word.path) {
            Some(id) => ids.push(id),
            None => {
                let mut quoted = "'".to_owned();
                quoted.append(word.text.as_str());
                quoted.append("'");
                missing.push(quoted);
                assert(text::views(missing@) =~= text::views(before).push(quoted@));
            },
        }
        i = i + 1;
    }
    assert(words.take(i - args.taken) =~= words);
    assert(text::views(missing@).len() == missing.len());
    let error = if missing.len() > 0 {
        let mut message = "cannot close non-existent buffers: ".to_owned();
        message.append(text::join(&missing, ", ").as_str());
        Some(message)
    } else {
        None
    };
    Gathered { ids, error }
}

/// What is done to close the documents that arguments name.
pub open spec fn close_named_plan(editor: Editor, args: ArgsView, force: bool) -> PlanView {
    let report = match gathered_error(editor, args) {
        Some(message) => PlanView::of(seq![Action::SetError(message)]),
        None => PlanView::nothing(),
    };
    report.followed_by(close_plan(gathered_ids(editor, args), force))
}

pub(crate) fn close_named(editor: &Editor, args: &Args, force: bool) -> (r: Plan)
    requires
        editor.wf(),
        args@.wf(),
    ensures
        r@ == close_named_plan(*editor, args@, force),
{
    let gathered = buffer_gather_paths_impl(editor, args);
    let close = buffer_close_by_ids_impl(&gathered.ids, force);
    match gathered.error {
        Some(message) => Plan::one(Action::SetError(message)).followed_by(close),
        None => Plan::nothing().followed_by(close),
    }
}

/// What `buffer-close` does.
pub open spec fn buffer_close_plan(
    editor: Editor,
    args: ArgsView,
    event: PromptEvent,
    force: bool,
) -> PlanView {
    on_validate(event, close_named_plan(editor, args, force))
}

/// Closes documents.
pub fn buffer_close(editor: &Editor, args: Args, event: PromptEvent) -> (r: Plan)
    requires
        editor.wf(),
        args@.wf(),
    ensures
        r@ == buffer_close_plan(*editor, args@, event, false),
{
    if event != PromptEvent::Validate {
        return Plan::nothing();
    }
    close_named(editor, &args, false)
}

/// Closes documents whatever is not saved.
pub fn force_buffer_close(editor: &Editor, args: Args, event: PromptEvent) -> (r: Plan)
    requires
        editor.wf(),
        args@.wf(),
    ensures
        r@ == buffer_close_plan(*editor, args@, event, true),
{
    if event != PromptEvent::Validate {
        return Plan::nothing();
    }
    close_named(editor, &args, true)
}

/// All documents but the one in focus.
pub open spec fn others(editor: Editor) -> Seq<DocumentId> {
    ids_of(editor.documents@).filter(|id: DocumentId| id != editor.doc_spec().id)
}

/// All documents but the one in focus.
pub fn buffer_gather_others_impl(editor: &Editor) -> (r: Vec<DocumentId>)
    requires
        editor.wf(),
    ensures
        r@ == others(*editor),
{
    let ghost ids = ids_of(editor.documents@);
    let ghost other = |id: DocumentId| id != editor.doc_spec().id;
    let current_document = editor.doc().id;
    let mut out: Vec<DocumentId> = Vec::new();
    let mut i: usize = 0;
    while i < editor.documents.len()
        invariant
            i <= editor.documents.len(),
            ids == ids_of(editor.documents@),
            current_document == editor.doc_spec().id,
            other == (|id: DocumentId| id != editor.doc_spec().id),
            out@ == ids.take(i as int).filter(other),
        decreases editor.documents.len() - i,
    {
        proof {
            reveal(Seq::filter);
            assert(ids.take(i + 1).drop_last() =~= ids.take(i as int));
        }
        let id = editor.documents[i].id;
        if id != current_document {
            out.push(id);
        }
        i = i + 1;
    }
    assert(ids.take(i as int) =~= ids);
    out
}

/// What `buffer-close-others` does.
pub open spec fn close_others_plan(editor: Editor, event: PromptEvent, force: bool) -> PlanView {
    on_validate(event, close_plan(others(editor), force))
}

/// Closes all documents but the one in focus.
pub fn buffer_close_others(editor: &Editor, _args: Args, event: PromptEvent) -> (r: Plan)
    requires
        editor.wf(),
    ensures
        r@ == close_others_plan(*editor, event, false),
{
    if event != PromptEvent::Validate {
        return Plan::nothing();
    }
    buffer_close_by_ids_impl(&buffer_gather_others_impl(editor), false)
}

/// Closes all documents but the one in focus whatever is not saved.
pub fn force_buffer_close_others(editor: &Editor, _args: Args, event: PromptEvent) -> (r: Plan)
    requires
        editor.wf(),
    ensures
        r@ == close_others_plan(*editor, event, true),
{
    if event != PromptEvent::Validate {
        return Plan::nothing();
    }
    buffer_close_by_ids_impl(&buffer_gather_others_impl(editor), true)
}

/// All documents.
pub fn buffer_gather_all_impl(editor: &Editor) -> (r: Vec<DocumentId>)
    ensures
        r@ == ids_of(editor.documents@),
{
    let mut out: Vec<DocumentId> = Vec::new();
    let mut i: usize = 0;
    while i < editor.documents.len()
        invariant
            i <= editor.documents.len(),
            out@ == ids_of(editor.documents@).take(i as int),
        decreases editor.documents.len() - i,
    {
        out.push(editor.documents[i].id);
        i = i + 1;
        assert(out@ =~= ids_of(editor.documents@).take(i as int));
    }
    assert(out@ =~= ids_of(editor.documents@));
    out
}

/// What `buffer-close-all` does.
pub open spec fn close_all_plan(editor: Editor, event: PromptEvent, force: bool) -> PlanView {
    on_validate(event, close_plan(ids_of(editor.documents@), force))
}

/// Closes all documents.
pub fn buffer_close_all(editor: &Editor, _args: Args, event: PromptEvent) -> (r: Plan)
    ensures
        r@ == close_all_plan(*editor, event, false),
{
    if event != PromptEvent::Validate {
        return Plan::nothing();
    }
    buffer_close_by_ids_impl(&buffer_gather_all_impl(editor), false)
}

/// Closes all documents whatever is not saved.
pub fn force_buffer_close_all(editor: &Editor, _args: Args, event: PromptEvent) -> (r: Plan)
    ensures
        r@ == close_all_plan(*editor, event, true),
{
    if event != PromptEvent::Validate {
        return Plan::nothing();
    }
    buffer_close_by_ids_impl(&buffer_gather_all_impl(editor), true)
}

/// What `buffer-next` and `buffer-previous` do.
pub open spec fn goto_buffer_plan(event: PromptEvent, direction: Direction) -> PlanView {
    on_validate(event, PlanView::doing(Op::GotoBuffer { direction, count: 1 }))
}

/// Goes to the next document.
pub fn buffer_next(_editor: &Editor, _args: Args, event: PromptEvent) -> (r: Plan)
    ensures
        r@ == goto_buffer_plan(event, Direction::Forward),
{
    if event != PromptEvent::Validate {
        return Plan::nothing();
    }
    Plan::doing(Op::GotoBuffer { direction: Direction::Forward, count: 1 })
}

/// Goes to the previous document.
pub fn buffer_previous(_editor: &Editor, _args: Args, event: PromptEvent) -> (r: Plan)
    ensures
        r@ == goto_buffer_plan(event, Direction::Backward),
{
    if event != PromptEvent::Validate {
        return Plan::nothing();
    }
    Plan::doing(Op::GotoBuffer { direction: Direction::Backward, count: 1 })
}

/// What a filter keeps was there before.
pub(crate) proof fn lemma_filter_member<A>(items: Seq<A>, pred: spec_fn(A) -> bool, i: int)
    requires
        0 <= i < items.filter(pred).len(),
    ensures
        items.contains(items.filter(pred)[i]),
        pred(items.filter(pred)[i]),
    decreases items.len(),
{
    reveal(Seq::filter);
    let shorter = items.drop_last();
    if pred(items.last()) && i == items.filter(pred).len() - 1 {
        assert(items[items.len() - 1] == items.last());
    } else {
        lemma_filter_member(shorter, pred, i);
        let k = choose|k: int| 0 <= k < shorter.len() && shorter[k] == shorter.filter(pred)[i];
        assert(items[k] == items.filter(pred)[i]);
    }
}

/// Whether a document has changes that are not saved.
pub open spec fn any_modified(documents: Seq<Document>) -> bool {
    exists|i: int| 0 <= i < documents.len() && (#[trigger] documents[i]).modified
}

/// What is said about all documents with changes that are not saved.
pub open spec fn remaining_message(editor: Editor) -> Seq<char> {
    unsaved_message(names_of(modified(editor.documents@)))
}

/// There is an error if and only if a document has changes that are not saved, and then it is
/// shown. The focus changes only if the document in focus has none, and then to a document that
/// has some.
pub proof fn lemma_remaining(editor: Editor)
    requires
        editor.wf(),
    ensures
        remaining_plan(editor).error == (if any_modified(editor.documents@) {
            Some(remaining_message(editor))
        } else {
            None
        }),
        !any_modified(editor.documents@) ==> remaining_plan(editor).steps.len() == 0,
        editor.doc_spec().modified ==> remaining_plan(editor).steps == seq![
            StepView::SetError(remaining_message(editor)),
        ],
        any_modified(editor.documents@) && !editor.doc_spec().modified ==> exists|i: int|
            {
                &&& 0 <= i < editor.documents.len()
                &&& (#[trigger] editor.documents[i]).modified
                &&& remaining_plan(editor).steps == seq![
                    StepView::Do(Op::Switch(editor.documents[i].id)),
                    StepView::SetError(remaining_message(editor)),
                ]
            },
{
    let docs = editor.documents@;
    let pred = |d: Document| d.modified;
    let kept = modified(docs);
    let ids = ids_of(kept);
    if any_modified(docs) {
        let i = choose|i: int| 0 <= i < docs.len() && (#[trigger] docs[i]).modified;
        docs.lemma_filter_contains(pred, i);
        lemma_filter_member(docs, pred, 0);
        let first = choose|k: int| 0 <= k < docs.len() && docs[k] == kept[0];
        assert(editor.documents[first].modified);
        assert(ids[0] == docs[first].id);
        let current = editor.current as int;
        if docs[current].modified {
            docs.lemma_filter_contains(pred, current);
            let k = choose|k: int| 0 <= k < kept.len() && kept[k] == docs[current];
            assert(ids[k] == docs[current].id);
            assert(remaining_plan(editor).steps =~= seq![
                StepView::SetError(remaining_message(editor)),
            ]);
        } else if ids.contains(docs[current].id) {
            let k = choose|k: int| 0 <= k < ids.len() && ids[k] == docs[current].id;
            lemma_filter_member(docs, pred, k);
            let j = choose|j: int| 0 <= j < docs.len() && docs[j] == kept[k];
            assert(docs[j].id == docs[current].id);
        } else {
            assert(remaining_plan(editor).steps =~= seq![
                StepView::Do(Op::Switch(editor.documents[first].id)),
                StepView::SetError(remaining_message(editor)),
            ]);
        }
    } else if kept.len() > 0 {
        lemma_filter_member(docs, pred, 0);
        let k = choose|k: int| 0 <= k < docs.len() && docs[k] == kept[0];
        assert(docs[k].modified);
    } else {
        assert(!editor.documents[editor.current as int].modified);
    }
}

/// The view in focus is closed without force only if it is not the last one or all changes are
/// saved.
pub proof fn lemma_quit_keeps_changes(editor: Editor, args: ArgsView, event: PromptEvent)
    requires
        editor.wf(),
        quit_plan(editor, args, event).steps.contains(Action::Do(Op::CloseCurrentView)),
    ensures
        editor.views.len() != 1 || !any_modified(editor.documents@),
{
    lemma_remaining(editor);
    if editor.views.len() == 1 && any_modified(editor.documents@) {
        let steps = quit_plan(editor, args, event).steps;
        let close: StepView = Action::Do(Op::CloseCurrentView);
        let k = choose|k: int| 0 <= k < steps.len() && steps[k] == close;
        assert(steps[k] == close);
        assert(steps == remaining_plan(editor).steps);
    }
}

/// The documents that are closed with `buffer-close-others` are all but the one in focus.
pub proof fn lemma_others(editor: Editor, i: int)
    requires
        editor.wf(),
        0 <= i < editor.documents.len(),
    ensures
        others(editor).contains(editor.documents[i].id) <==> editor.documents[i].id
            != editor.doc_spec().id,
{
    let ids = ids_of(editor.documents@);
    let pred = |id: DocumentId| id != editor.doc_spec().id;
    let id = editor.documents[i].id;
    assert(ids[i] == id);
    if id != editor.doc_spec().id {
        ids.lemma_filter_contains(pred, i);
    } else if others(editor).contains(id) {
        let k = choose|k: int| 0 <= k < others(editor).len() && others(editor)[k] == id;
        lemma_filter_member(ids, pred, k);
    }
}

proof fn lemma_filter_all<A>(items: Seq<A>, pred: spec_fn(A) -> bool)
    requires
        forall|i: int| 0 <= i < items.len() ==> pred(#[trigger] items[i]),
    ensures
        items.filter(pred) == items,
    decreases items.len(),
{
    reveal(Seq::filter);
    if items.len() > 0 {
        lemma_filter_all(items.drop_last(), pred);
        assert(items.drop_last().push(items.last()) =~= items);
    }
}

/// The other documents are all documents, in the same order, without the one in focus. There are
/// none if and only if no other document is open.
pub proof fn lemma_others_are_all_but_current(editor: Editor)
    requires
        editor.wf(),
    ensures
        others(editor) == ids_of(editor.documents@).remove(editor.current as int),
        others(editor).len() + 1 == editor.documents.len(),
        others(editor).len() == 0 <==> editor.documents.len() == 1,
{
    reveal(Seq::filter);
    let docs = editor.documents@;
    let ids = ids_of(docs);
    let current = editor.current as int;
    let pred = |id: DocumentId| id != editor.doc_spec().id;
    let before = ids.take(current);
    let behind = ids.skip(current + 1);
    assert(ids =~= before + seq![ids[current]] + behind);
    assert forall|i: int| 0 <= i < before.len() implies pred(#[trigger] before[i]) by {
        assert(docs[i].id == before[i] && docs[current].id == editor.doc_spec().id);
    }
    assert forall|i: int| 0 <= i < behind.len() implies pred(#[trigger] behind[i]) by {
        assert(docs[current + 1 + i].id == behind[i] && docs[current].id
            == editor.doc_spec().id);
    }
    lemma_filter_all(before, pred);
    lemma_filter_all(behind, pred);
    let one = seq![ids[current]];
    assert(one.drop_last() =~= Seq::<DocumentId>::empty());
    assert(one.filter(pred) =~= Seq::<DocumentId>::empty()) by {
        assert(Seq::<DocumentId>::empty().filter(pred) =~= Seq::<DocumentId>::empty());
    }
    Seq::filter_distributes_over_add(before, one, pred);
    Seq::filter_distributes_over_add(before + one, behind, pred);
    assert(others(editor) =~= ids.remove(current));
}

/// When documents were to be closed, there is an error if and only if one of them is still open
/// for changes that are not saved. If the document in focus is one of those, it stays in focus.
pub proof fn lemma_closed(closings: Seq<Closing>, current: DocumentId)
    ensures
        closed_plan(closings, current).error is Some <==> exists|i: int|
            0 <= i < closings.len() && (#[trigger] closings[i]).outcome is BufferModified,
        closing_ids(refused(closings)).contains(current) ==> closed_plan(
            closings,
            current,
        ).steps.len() == 0,
{
    let pred = |c: Closing| c.outcome is BufferModified;
    let kept = refused(closings);
    if exists|i: int|
        0 <= i < closings.len() && (#[trigger] closings[i]).outcome is BufferModified {
        let i = choose|i: int|
            0 <= i < closings.len() && (#[trigger] closings[i]).outcome is BufferModified;
        closings.lemma_filter_contains(pred, i);
    } else if kept.len() > 0 {
        lemma_filter_member(closings, pred, 0);
        let k = choose|k: int| 0 <= k < closings.len() && closings[k] == kept[0];
        assert(closings[k].outcome is BufferModified);
    }
}

/// When the writes that are waited for have failed, that is the error, and no document is closed.
pub proof fn lemma_failed_flush_closes_nothing(
    ids: Seq<DocumentId>,
    force: bool,
    failures: spec_fn(nat) -> Option<Seq<char>>,
)
    requires
        failures(0) is Some,
    ensures
        close_plan(ids, force).steps[0] == StepView::Do(Op::FlushWrites),
        plan::course(close_plan(ids, force), failures) == (Course { done: 1, error: failures(0) }),
{
    let plan = close_plan(ids, force);
    plan::lemma_first_failure_ends(plan.steps, plan.error, failures, 0, 0);
}

} // verus!
