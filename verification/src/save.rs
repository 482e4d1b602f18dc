//! Writing documents to disk, reading them again, and leaving the editor.
use vstd::prelude::*;

use crate::args::{Args, ArgsView, PromptEvent};
use crate::buffers;
use crate::change;
use crate::editor::{Document, DocumentId, Editor, Place, ViewId, ViewInfo, ViewRef};
use crate::number;
use crate::plan;
use crate::plan::{Action, Course, Op, Plan, PlanView, StepView};
use crate::text;

verus! {

/// The steps that write a document: a final line ending if it is configured and missing, a step
/// of the history, and then saving, after formatting if that is configured and possible.
pub open spec fn save_steps(
    editor: Editor,
    place: Place,
    auto_formatter: bool,
    path: Option<Seq<char>>,
    force: bool,
) -> Seq<StepView> {
    let newline: Seq<StepView> = if editor.insert_final_newline {
        seq![Action::Do(Op::InsertFinalNewline(place))]
    } else {
        Seq::empty()
    };
    let save: StepView = if editor.auto_format && auto_formatter {
        Action::FormatAndSave { place, path, force }
    } else {
        Action::Save { doc: place.doc, path, force }
    };
    newline + seq![Action::Do(Op::CommitChanges(place)), save]
}

fn add_save_steps(
    plan: &mut Plan,
    editor: &Editor,
    place: Place,
    auto_formatter: bool,
    path: Option<String>,
    force: bool,
)
    ensures
        final(plan)@ == (PlanView {
            steps: old(plan)@.steps + save_steps(
                *editor,
                place,
                auto_formatter,
                plan::maybe(path),
                force,
            ),
            error: old(plan)@.error,
        }),
{
    let ghost before = plan@.steps;
    let ghost wanted = plan::maybe(path);
    if editor.insert_final_newline {
        plan.push(Action::Do(Op::InsertFinalNewline(place)));
    }
    // Save an undo checkpoint for any outstanding changes.
    plan.push(Action::Do(Op::CommitChanges(place)));
    if editor.auto_format && auto_formatter {
        plan.push(Action::FormatAndSave { place, path, force });
    } else {
        plan.push(Action::Save { doc: place.doc, path, force });
    }
    assert(plan@.steps =~= before + save_steps(*editor, place, auto_formatter, wanted, force));
}

/// What is done to write the document in focus.
pub open spec fn write_impl_plan(editor: Editor, path: Option<Seq<char>>, force: bool) -> PlanView {
    PlanView::of(
        save_steps(editor, editor.place_spec(), editor.doc_spec().auto_formatter, path, force),
    )
}

/// Writes the document in focus, under another path if one is given.
pub fn write_impl(editor: &Editor, path: Option<String>, force: bool) -> (r: Plan)
    requires
        editor.wf(),
    ensures
        r@ == write_impl_plan(*editor, plan::maybe(path), force),
{
    let ghost wanted = write_impl_plan(*editor, plan::maybe(path), force);
    let mut plan = Plan::nothing();
    add_save_steps(&mut plan, editor, editor.place(), editor.doc().auto_formatter, path, force);
    assert(plan@.steps =~= wanted.steps);
    plan
}

/// What `write` and `write!` do.
pub open spec fn write_plan(
    editor: Editor,
    args: ArgsView,
    event: PromptEvent,
    force: bool,
) -> PlanView {
    buffers::on_validate(event, write_impl_plan(editor, args.next(), force))
}

/// Writes the document in focus.
pub fn write(editor: &Editor, args: Args, event: PromptEvent) -> (r: Plan)
    requires
        editor.wf(),
    ensures
        r@ == write_plan(*editor, args@, event, false),
{
    if event != PromptEvent::Validate {
        return Plan::nothing();
    }
    let mut args = args;
    write_impl(editor, args.next(), false)
}

/// Writes the document in focus, creating directories where needed.
pub fn force_write(editor: &Editor, args: Args, event: PromptEvent) -> (r: Plan)
    requires
        editor.wf(),
    ensures
        r@ == write_plan(*editor, args@, event, true),
{
    if event != PromptEvent::Validate {
        return Plan::nothing();
    }
    let mut args = args;
    write_impl(editor, args.next(), true)
}

/// What `write-buffer-close` and `write-buffer-close!` do.
pub open spec fn write_buffer_close_plan(
    editor: Editor,
    args: ArgsView,
    event: PromptEvent,
    force: bool,
) -> PlanView {
    buffers::on_validate(
        event,
        write_impl_plan(editor, args.next(), force).followed_by(
            buffers::close_named_plan(editor, args.advanced(), false),
        ),
    )
}

/// Writes the document in focus, and closes the documents that further arguments name, or else
/// the document in focus.
pub fn write_buffer_close(editor: &Editor, args: Args, event: PromptEvent) -> (r: Plan)
    requires
        editor.wf(),
        args@.wf(),
    ensures
        r@ == write_buffer_close_plan(*editor, args@, event, false),
{
    if event != PromptEvent::Validate {
        return Plan::nothing();
    }
    let mut args = args;
    let written = write_impl(editor, args.next(), false);
    written.followed_by(buffers::close_named(editor, &args, false))
}

/// Writes the document in focus, creating directories where needed, and closes the documents
/// that further arguments name, or else the document in focus.
pub fn force_write_buffer_close(editor: &Editor, args: Args, event: PromptEvent) -> (r: Plan)
    requires
        editor.wf(),
        args@.wf(),
    ensures
        r@ == write_buffer_close_plan(*editor, args@, event, true),
{
    if event != PromptEvent::Validate {
        return Plan::nothing();
    }
    let mut args = args;
    let written = write_impl(editor, args.next(), true);
    written.followed_by(buffers::close_named(editor, &args, false))
}

/// What `update` does.
pub open spec fn update_plan(editor: Editor, args: ArgsView, event: PromptEvent) -> PlanView {
    if editor.doc_spec().modified {
        write_plan(editor, args, event, false)
    } else {
        PlanView::nothing()
    }
}

/// Writes the document in focus if it has been modified.
pub fn update(editor: &Editor, args: Args, event: PromptEvent) -> (r: Plan)
    requires
        editor.wf(),
    ensures
        r@ == update_plan(*editor, args@, event),
{
    if event != PromptEvent::Validate {
        return Plan::nothing();
    }
    if editor.doc().modified {
        write(editor, args, event)
    } else {
        Plan::nothing()
    }
}

/// What `write-quit` does.
pub open spec fn write_quit_plan(editor: Editor, args: ArgsView, event: PromptEvent) -> PlanView {
    buffers::on_validate(
        event,
        write_impl_plan(editor, args.next(), false).followed_by(
            PlanView::of(seq![Action::Do(Op::FlushWrites), Action::Do(Op::Quit)]),
        ),
    )
}

/// Writes the document in focus and closes the view.
pub fn write_quit(editor: &Editor, args: Args, event: PromptEvent) -> (r: Plan)
    requires
        editor.wf(),
    ensures
        r@ == write_quit_plan(*editor, args@, event),
{
    if event != PromptEvent::Validate {
        return Plan::nothing();
    }
    let mut args = args;
    let written = write_impl(editor, args.next(), false);
    let mut leave = Plan::doing(Op::FlushWrites);
    leave.push(Action::Do(Op::Quit));
    assert(leave@.steps =~= seq![Action::Do(Op::FlushWrites), Action::Do(Op::Quit)]);
    written.followed_by(leave)
}

/// What `write-quit!` does.
pub open spec fn force_write_quit_plan(
    editor: Editor,
    args: ArgsView,
    event: PromptEvent,
) -> PlanView {
    buffers::on_validate(
        event,
        write_impl_plan(editor, args.next(), true).followed_by(
            PlanView::doing(Op::FlushWrites),
        ).followed_by(buffers::force_quit_plan(ArgsView::none(), event)),
    )
}

/// Writes the document in focus and closes the view whatever is not saved.
pub fn force_write_quit(editor: &Editor, args: Args, event: PromptEvent) -> (r: Plan)
    requires
        editor.wf(),
    ensures
        r@ == force_write_quit_plan(*editor, args@, event),
{
    if event != PromptEvent::Validate {
        return Plan::nothing();
    }
    let mut args = args;
    let written = write_impl(editor, args.next(), true);
    written.followed_by(Plan::doing(Op::FlushWrites)).followed_by(
        buffers::force_quit(editor, Args::empty(), event),
    )
}

/// The documents that are written together: those with changes that belong to a file.
pub open spec fn to_write(documents: Seq<Document>) -> Seq<Document> {
    documents.filter(|d: Document| d.modified && d.path is Some)
}

/// The documents with changes that belong to no file.
pub open spec fn scratch(documents: Seq<Document>) -> Seq<Document> {
    documents.filter(|d: Document| d.modified && d.path is None)
}

/// The view through which a document is changed that need not be in focus.
pub open spec fn synced_place(id: DocumentId) -> Place {
    Place { doc: id, view: ViewRef::SyncedWith(id) }
}

/// The steps that write documents, one after the other.
pub open spec fn write_each(editor: Editor, documents: Seq<Document>, force: bool) -> Seq<StepView>
    decreases documents.len(),
{
    if documents.len() == 0 {
        Seq::empty()
    } else {
        let last = documents.last();
        write_each(editor, documents.drop_last(), force) + save_steps(
            editor,
            synced_place(last.id),
            last.auto_formatter,
            None,
            force,
        )
    }
}

/// The steps that find a view for each of the documents.
pub open spec fn sync_each(documents: Seq<Document>) -> Seq<StepView> {
    documents.map_values(|d: Document| Action::Do(Op::SyncView(d.id)))
}

/// What is said of documents that cannot be written for want of a file name.
pub open spec fn no_filename_errors(n: nat) -> Seq<char> {
    text::debug_list(Seq::new(n, |i: int| "cannot write a buffer without a filename"@))
}

/// What is done to write all documents.
pub open spec fn write_all_impl_plan(editor: Editor, force: bool, write_scratch: bool) -> PlanView {
    let docs = to_write(editor.documents@);
    let unnamed = scratch(editor.documents@).len();
    PlanView {
        steps: sync_each(docs) + write_each(editor, docs, force),
        error: if write_scratch && unnamed > 0 && !force {
            Some(no_filename_errors(unnamed))
        } else {
            None
        },
    }
}

/// Writes all documents with changes. A document without a file is an error, if scratch
/// documents count and the writing is not forced.
pub fn write_all_impl(editor: &Editor, force: bool, write_scratch: bool) -> (r: Plan)
    ensures
        r@ == write_all_impl_plan(*editor, force, write_scratch),
{
    let ghost docs = editor.documents@;
    let mut errors: Vec<String> = Vec::new();
    let mut syncs = Plan::nothing();
    let mut saves = Plan::nothing();
    let mut i: usize = 0;
    assert(syncs@.steps =~= sync_each(to_write(docs.take(0))));
    while i < editor.documents.len()
        invariant
            docs == editor.documents@,
            i <= docs.len(),
            errors.len() == (if write_scratch {
                scratch(docs.take(i as int)).len()
            } else {
                0
            }),
            forall|j: int|
                0 <= j < errors.len() ==> (#[trigger] errors@[j])@
                    == "cannot write a buffer without a filename"@,
            syncs@ == PlanView::of(sync_each(to_write(docs.take(i as int)))),
            saves@ == PlanView::of(write_each(*editor, to_write(docs.take(i as int)), force)),
        decreases docs.len() - i,
    {
        let ghost before = to_write(docs.take(i as int));
        proof {
            reveal(Seq::filter);
            assert(docs.take(i + 1).drop_last() =~= docs.take(i as int));
        }
        let doc = &editor.documents[i];
        if doc.modified {
            if doc.path.is_none() {
                if write_scratch {
                    errors.push("cannot write a buffer without a filename".to_owned());
                }
                assert(to_write(docs.take(i + 1)) == before);
            } else {
                // Look for a view to apply the formatting change to.
                syncs.push(Action::Do(Op::SyncView(doc.id)));
                let place = Place { doc: doc.id, view: ViewRef::SyncedWith(doc.id) };
                add_save_steps(&mut saves, editor, place, doc.auto_formatter, None, force);
                let ghost now = before.push(docs[i as int]);
                assert(to_write(docs.take(i + 1)) == now);
                assert(now.drop_last() =~= before);
                assert(syncs@.steps =~= sync_each(now));
            }
        } else {
            assert(to_write(docs.take(i + 1)) == before);
        }
        i = i + 1;
    }
    assert(docs.take(i as int) =~= docs);
    let mut plan = syncs.followed_by(saves);
    if errors.len() > 0 && !force {
        assert(text::views(errors@) =~= Seq::new(
            errors.len() as nat,
            |i: int| "cannot write a buffer without a filename"@,
        ));
        plan.error = Some(text::to_debug_list(&errors));
    }
    plan
}

/// What `write-all` and `write-all!` do.
pub open spec fn write_all_plan(editor: Editor, event: PromptEvent, force: bool) -> PlanView {
    buffers::on_validate(event, write_all_impl_plan(editor, force, true))
}

/// Writes all documents with changes.
pub fn write_all(editor: &Editor, _args: Args, event: PromptEvent) -> (r: Plan)
    ensures
        r@ == write_all_plan(*editor, event, false),
{
    if event != PromptEvent::Validate {
        return Plan::nothing();
    }
    write_all_impl(editor, false, true)
}

/// Writes all documents with changes, creating directories where needed.
pub fn force_write_all(editor: &Editor, _args: Args, event: PromptEvent) -> (r: Plan)
    ensures
        r@ == write_all_plan(*editor, event, true),
{
    if event != PromptEvent::Validate {
        return Plan::nothing();
    }
    write_all_impl(editor, true, true)
}

/// What is done to leave the editor.
pub open spec fn quit_all_impl_plan(force: bool) -> PlanView {
    PlanView::of(seq![Action::Do(Op::FlushWrites), Action::Do(Op::QuitViews { force })])
}

/// Waits for the writes, and then closes all views.
pub fn quit_all_impl(force: bool) -> (r: Plan)
    ensures
        r@ == quit_all_impl_plan(force),
{
    let mut plan = Plan::doing(Op::FlushWrites);
    plan.push(Action::Do(Op::QuitViews { force }));
    assert(plan@.steps =~= quit_all_impl_plan(force).steps);
    plan
}

/// The steps that close all views.
pub open spec fn close_views(views: Seq<ViewInfo>) -> Seq<StepView> {
    views.map_values(|v: ViewInfo| Action::Do(Op::CloseView(v.id)))
}

/// What is done to leave the editor when the writes are done.
pub open spec fn quit_views_plan(editor: Editor, force: bool) -> PlanView {
    let close = PlanView::of(close_views(editor.views@));
    if force {
        close
    } else {
        buffers::remaining_plan(editor).followed_by(close)
    }
}

/// Goes on with `quit_all_impl` when the writes are done: closes all views, unless there are
/// changes that are not saved.
pub fn quit_views(editor: &Editor, force: bool) -> (r: Plan)
    requires
        editor.wf(),
    ensures
        r@ == quit_views_plan(*editor, force),
{
    let mut close = Plan::nothing();
    let mut i: usize = 0;
    assert(close@.steps =~= close_views(editor.views@.take(0)));
    while i < editor.views.len()
        invariant
            i <= editor.views.len(),
            close@ == PlanView::of(close_views(editor.views@.take(i as int))),
        decreases editor.views.len() - i,
    {
        close.push(Action::Do(Op::CloseView(editor.views[i].id)));
        i = i + 1;
        assert(close@.steps =~= close_views(editor.views@.take(i as int)));
    }
    assert(editor.views@.take(i as int) =~= editor.views@);
    if force {
        close
    } else {
        buffers::buffers_remaining_impl(editor).followed_by(close)
    }
}

/// What `quit-all` and `quit-all!` do.
pub open spec fn quit_all_plan(event: PromptEvent, force: bool) -> PlanView {
    buffers::on_validate(event, quit_all_impl_plan(force))
}

/// Closes all views, unless there are changes that are not saved.
pub fn quit_all(_editor: &Editor, _args: Args, event: PromptEvent) -> (r: Plan)
    ensures
        r@ == quit_all_plan(event, false),
{
    if event != PromptEvent::Validate {
        return Plan::nothing();
    }
    quit_all_impl(false)
}

/// Closes all views whatever is not saved.
pub fn force_quit_all(_editor: &Editor, _args: Args, event: PromptEvent) -> (r: Plan)
    ensures
        r@ == quit_all_plan(event, true),
{
    if event != PromptEvent::Validate {
        return Plan::nothing();
    }
    quit_all_impl(true)
}

/// What `write-quit-all` does.
pub open spec fn write_all_quit_plan(editor: Editor, event: PromptEvent) -> PlanView {
    buffers::on_validate(
        event,
        write_all_impl_plan(editor, false, true).followed_by(quit_all_impl_plan(false)),
    )
}

/// Writes all documents with changes and closes all views.
pub fn write_all_quit(editor: &Editor, _args: Args, event: PromptEvent) -> (r: Plan)
    ensures
        r@ == write_all_quit_plan(*editor, event),
{
    if event != PromptEvent::Validate {
        return Plan::nothing();
    }
    write_all_impl(editor, false, true).followed_by(quit_all_impl(false))
}

/// What `cquit` and `cquit!` do: the exit code is the given one, or else one.
pub open spec fn cquit_plan(args: ArgsView, event: PromptEvent, force: bool) -> PlanView {
    let code: i32 = match args.next() {
        Some(text) => match number::signed_value(text) {
            Some(n) if i32::MIN <= n <= i32::MAX => n as i32,
            _ => 1,
        },
        None => 1,
    };
    buffers::on_validate(
        event,
        PlanView::doing(Op::SetExitCode(code)).followed_by(quit_all_impl_plan(force)),
    )
}

fn exit_with(args: Args, force: bool) -> (r: Plan)
    ensures
        r@ == cquit_plan(args@, PromptEvent::Validate, force),
{
    let mut args = args;
    let exit_code: i32 = match args.next() {
        Some(code) => match number::parse_i32(code.as_str()) {
            Some(n) => n,
            None => 1,
        },
        None => 1,
    };
    Plan::doing(Op::SetExitCode(exit_code)).followed_by(quit_all_impl(force))
}

/// Leaves the editor with an exit code, unless there are changes that are not saved.
pub fn cquit(_editor: &Editor, args: Args, event: PromptEvent) -> (r: Plan)
    ensures
        r@ == cquit_plan(args@, event, false),
{
    if event != PromptEvent::Validate {
        return Plan::nothing();
    }
    exit_with(args, false)
}

/// Leaves the editor with an exit code whatever is not saved.
pub fn force_cquit(_editor: &Editor, args: Args, event: PromptEvent) -> (r: Plan)
    ensures
        r@ == cquit_plan(args@, event, true),
{
    if event != PromptEvent::Validate {
        return Plan::nothing();
    }
    exit_with(args, true)
}

/// What `write-quit-all!` does.
pub open spec fn force_write_all_quit_plan(event: PromptEvent) -> PlanView {
    buffers::on_validate(
        event,
        PlanView::doing(Op::TryWriteAll).followed_by(quit_all_impl_plan(true)),
    )
}

/// Writes all documents with changes, as far as that succeeds, and closes all views.
pub fn force_write_all_quit(_editor: &Editor, _args: Args, event: PromptEvent) -> (r: Plan)
    ensures
        r@ == force_write_all_quit_plan(event),
{
    if event != PromptEvent::Validate {
        return Plan::nothing();
    }
    Plan::doing(Op::TryWriteAll).followed_by(quit_all_impl(true))
}

/// The step that tells the language servers about a document's file, if it has one.
pub open spec fn notify_steps(document: Document) -> Seq<StepView> {
    if document.path is Some {
        seq![Action::Do(Op::NotifyFileChanged(document.id))]
    } else {
        Seq::empty()
    }
}

/// What `reload` does.
pub open spec fn reload_plan(editor: Editor, event: PromptEvent) -> PlanView {
    buffers::on_validate(
        event,
        PlanView::of(
            seq![
                Action::Do(Op::Reload(editor.place_spec())),
                Action::Do(Op::EnsureCursorInView(editor.place_spec())),
            ] + notify_steps(editor.doc_spec()),
        ),
    )
}

/// Discards the changes of the document in focus and reads it again from its file.
pub fn reload(editor: &Editor, _args: Args, event: PromptEvent) -> (r: Plan)
    requires
        editor.wf(),
    ensures
        r@ == reload_plan(*editor, event),
{
    if event != PromptEvent::Validate {
        return Plan::nothing();
    }
    let place = editor.place();
    let mut plan = Plan::doing(Op::Reload(place));
    plan.push(Action::Do(Op::EnsureCursorInView(place)));
    if editor.doc().path.is_some() {
        plan.push(Action::Do(Op::NotifyFileChanged(editor.doc().id)));
    }
    assert(plan@.steps =~= reload_plan(*editor, event).steps);
    plan
}

/// The views through which a document is read again: those in which something of it is selected,
/// or else the view in focus.
pub open spec fn reload_views(editor: Editor, document: Document) -> Seq<ViewId> {
    if document.views.len() == 0 {
        seq![editor.current_view]
    } else {
        document.views@
    }
}

/// The steps that give every document a view.
pub open spec fn init_each(editor: Editor, documents: Seq<Document>) -> Seq<StepView>
    decreases documents.len(),
{
    if documents.len() == 0 {
        Seq::empty()
    } else {
        let last = documents.last();
        let first = init_each(editor, documents.drop_last());
        if last.views.len() == 0 {
            first.push(
                Action::Do(
                    Op::EnsureViewInit(
                        Place { doc: last.id, view: ViewRef::Id(editor.current_view) },
                    ),
                ),
            )
        } else {
            first
        }
    }
}

/// The document and the first of the views through which it is read again.
pub open spec fn reload_place(editor: Editor, document: Document) -> Place {
    Place { doc: document.id, view: ViewRef::Id(reload_views(editor, document)[0]) }
}

/// The steps that read every document again.
pub open spec fn reload_each(editor: Editor, documents: Seq<Document>) -> Seq<StepView>
    decreases documents.len(),
{
    if documents.len() == 0 {
        Seq::empty()
    } else {
        let place = reload_place(editor, documents.last());
        let index = (documents.len() - 1) as usize;
        reload_each(editor, documents.drop_last()) + seq![
            Action::Do(Op::SyncChanges(place)),
            Action::Do(Op::TryReload { place, index }),
        ]
    }
}

/// What `reload-all` does.
pub open spec fn reload_all_plan(editor: Editor, event: PromptEvent) -> PlanView {
    buffers::on_validate(
        event,
        PlanView::of(init_each(editor, editor.documents@) + reload_each(editor, editor.documents@)),
    )
}

/// Discards the changes of all documents and reads them again from their files.
pub fn reload_all(editor: &Editor, _args: Args, event: PromptEvent) -> (r: Plan)
    ensures
        r@ == reload_all_plan(*editor, event),
{
    if event != PromptEvent::Validate {
        return Plan::nothing();
    }
    let ghost docs = editor.documents@;
    let mut init = Plan::nothing();
    let mut read = Plan::nothing();
    let mut i: usize = 0;
    while i < editor.documents.len()
        invariant
            docs == editor.documents@,
            i <= docs.len(),
            init@ == PlanView::of(init_each(*editor, docs.take(i as int))),
            read@ == PlanView::of(reload_each(*editor, docs.take(i as int))),
        decreases docs.len() - i,
    {
        assert(docs.take(i + 1).drop_last() =~= docs.take(i as int));
        let doc = &editor.documents[i];
        let view = if doc.views.len() == 0 {
            let place = Place { doc: doc.id, view: ViewRef::Id(editor.current_view) };
            init.push(Action::Do(Op::EnsureViewInit(place)));
            editor.current_view
        } else {
            doc.views[0]
        };
        // Every document has at least one view at this point.
        let place = Place { doc: doc.id, view: ViewRef::Id(view) };
        // Ensure that the view is synced with the document's history.
        read.push(Action::Do(Op::SyncChanges(place)));
        read.push(Action::Do(Op::TryReload { place, index: i }));
        i = i + 1;
        assert(read@.steps =~= reload_each(*editor, docs.take(i as int)));
    }
    assert(docs.take(i as int) =~= docs);
    init.followed_by(read)
}

/// Whether a view shows a document.
pub open spec fn shows(editor: Editor, view: ViewId, doc: DocumentId) -> bool {
    editor.views@.contains(ViewInfo { id: view, doc })
}

/// The steps that scroll views so that the cursor in a document is seen.
pub open spec fn scroll_each(doc: DocumentId, views: Seq<ViewId>) -> Seq<StepView> {
    views.map_values(
        |v: ViewId| Action::Do(Op::EnsureCursorInView(Place { doc, view: ViewRef::Id(v) })),
    )
}

/// What is done when a document has been read again, or could not be.
pub open spec fn reloaded_plan(
    editor: Editor,
    document: Document,
    error: Option<Seq<char>>,
) -> PlanView {
    match error {
        Some(message) => PlanView::of(seq![Action::SetError(message)]),
        None => PlanView::of(
            notify_steps(document) + scroll_each(
                document.id,
                reload_views(editor, document).filter(
                    |v: ViewId| shows(editor, v, document.id),
                ),
            ),
        ),
    }
}

fn is_shown(editor: &Editor, view: ViewId, doc: DocumentId) -> (r: bool)
    ensures
        r == shows(*editor, view, doc),
{
    let mut i: usize = 0;
    while i < editor.views.len()
        invariant
            i <= editor.views.len(),
            forall|j: int| 0 <= j < i ==> editor.views@[j] != (ViewInfo { id: view, doc }),
        decreases editor.views.len() - i,
    {
        let info = editor.views[i];
        if info.id == view && info.doc == doc {
            assert(editor.views@[i as int] == (ViewInfo { id: view, doc }));
            return true;
        }
        i = i + 1;
    }
    false
}

/// Goes on with `reload_all` when it is known what came of reading a document again. One that
/// could not be read does not keep the others from being read.
pub fn reloaded(editor: &Editor, index: usize, error: Option<String>) -> (r: Plan)
    requires
        index < editor.documents.len(),
    ensures
        r@ == reloaded_plan(*editor, editor.documents[index as int], plan::maybe(error)),
{
    let document = &editor.documents[index];
    if let Some(message) = error {
        return Plan::one(Action::SetError(message));
    }
    let mut plan = Plan::nothing();
    if document.path.is_some() {
        plan.push(Action::Do(Op::NotifyFileChanged(document.id)));
    }
    assert(plan@.steps =~= notify_steps(*document));
    let ghost views = reload_views(*editor, *document);
    let ghost shown = |v: ViewId| shows(*editor, v, document.id);
    let count = if document.views.len() == 0 {
        1
    } else {
        document.views.len()
    };
    let mut i: usize = 0;
    assert(plan@.steps =~= notify_steps(*document) + scroll_each(
        document.id,
        views.take(0).filter(shown),
    )) by {
        reveal(Seq::filter);
    }
    while i < count
        invariant
            i <= count,
            count == views.len(),
            views == reload_views(*editor, *document),
            shown == (|v: ViewId| shows(*editor, v, document.id)),
            plan@ == PlanView::of(
                notify_steps(*document) + scroll_each(
                    document.id,
                    views.take(i as int).filter(shown),
                ),
            ),
        decreases count - i,
    {
        let view = if document.views.len() == 0 {
            editor.current_view
        } else {
            document.views[i]
        };
        let ghost before = views.take(i as int).filter(shown);
        let ghost steps = plan@.steps;
        proof {
            reveal(Seq::filter);
            assert(views.take(i + 1).drop_last() =~= views.take(i as int));
        }
        if is_shown(editor, view, document.id) {
            let place = Place { doc: document.id, view: ViewRef::Id(view) };
            plan.push(Action::Do(Op::EnsureCursorInView(place)));
            assert(views.take(i + 1).filter(shown) == before.push(view));
            assert(plan@.steps =~= notify_steps(*document) + scroll_each(
                document.id,
                before.push(view),
            ));
        } else {
            assert(views.take(i + 1).filter(shown) == before);
        }
        i = i + 1;
    }
    assert(views.take(i as int) =~= views);
    plan
}

/// Whether a step saves a document.
pub open spec fn saves(step: StepView, id: DocumentId) -> bool {
    match step {
        Action::Save { doc, .. } => doc == id,
        Action::FormatAndSave { place, .. } => place.doc == id,
        _ => false,
    }
}

/// Whether one of some steps saves a document.
pub open spec fn some_saves(steps: Seq<StepView>, id: DocumentId) -> bool {
    exists|k: int| 0 <= k < steps.len() && saves(#[trigger] steps[k], id)
}

proof fn lemma_some_saves_add(a: Seq<StepView>, b: Seq<StepView>, id: DocumentId)
    ensures
        some_saves(a + b, id) == (some_saves(a, id) || some_saves(b, id)),
{
    let both = a + b;
    if some_saves(a, id) {
        let k = choose|k: int| 0 <= k < a.len() && saves(#[trigger] a[k], id);
        assert(both[k] == a[k]);
    }
    if some_saves(b, id) {
        let k = choose|k: int| 0 <= k < b.len() && saves(#[trigger] b[k], id);
        assert(both[a.len() + k] == b[k]);
    }
    if some_saves(both, id) {
        let k = choose|k: int| 0 <= k < both.len() && saves(#[trigger] both[k], id);
        if k < a.len() {
            assert(a[k] == both[k]);
        } else {
            assert(b[k - a.len()] == both[k]);
        }
    }
}

proof fn lemma_save_steps_save(
    editor: Editor,
    place: Place,
    auto_formatter: bool,
    path: Option<Seq<char>>,
    force: bool,
    id: DocumentId,
)
    ensures
        some_saves(save_steps(editor, place, auto_formatter, path, force), id) == (place.doc
            == id),
{
    let steps = save_steps(editor, place, auto_formatter, path, force);
    if place.doc == id {
        assert(saves(steps[steps.len() - 1], id));
    }
}

proof fn lemma_write_each_saves(
    editor: Editor,
    documents: Seq<Document>,
    force: bool,
    id: DocumentId,
)
    ensures
        some_saves(write_each(editor, documents, force), id) == buffers::ids_of(
            documents,
        ).contains(id),
    decreases documents.len(),
{
    let ids = buffers::ids_of(documents);
    if documents.len() > 0 {
        let last = documents.last();
        let shorter = documents.drop_last();
        lemma_write_each_saves(editor, shorter, force, id);
        let steps = save_steps(editor, synced_place(last.id), last.auto_formatter, None, force);
        lemma_some_saves_add(write_each(editor, shorter, force), steps, id);
        lemma_save_steps_save(
            editor,
            synced_place(last.id),
            last.auto_formatter,
            None,
            force,
            id,
        );
        if last.id == id {
            assert(ids[documents.len() - 1] == id);
        }
        if buffers::ids_of(shorter).contains(id) {
            let k = choose|k: int|
                0 <= k < shorter.len() && buffers::ids_of(shorter)[k] == id;
            assert(ids[k] == id);
        }
        if ids.contains(id) && last.id != id {
            let k = choose|k: int| 0 <= k < ids.len() && ids[k] == id;
            assert(buffers::ids_of(shorter)[k] == id);
        }
    }
}

/// Writing all documents saves those, and only those, that have changes and belong to a file.
pub proof fn lemma_write_all_saves(
    editor: Editor,
    force: bool,
    write_scratch: bool,
    id: DocumentId,
)
    ensures
        some_saves(write_all_impl_plan(editor, force, write_scratch).steps, id) <==> exists|i: int|
            {
                &&& 0 <= i < editor.documents.len()
                &&& (#[trigger] editor.documents[i]).id == id
                &&& editor.documents[i].modified
                &&& editor.documents[i].path is Some
            },
{
    let docs = editor.documents@;
    let pred = |d: Document| d.modified && d.path is Some;
    let kept = to_write(docs);
    let ids = buffers::ids_of(kept);
    lemma_some_saves_add(sync_each(kept), write_each(editor, kept, force), id);
    lemma_write_each_saves(editor, kept, force, id);
    assert(!some_saves(sync_each(kept), id));
    if ids.contains(id) {
        let k = choose|k: int| 0 <= k < ids.len() && ids[k] == id;
        buffers::lemma_filter_member(docs, pred, k);
        let i = choose|i: int| 0 <= i < docs.len() && docs[i] == kept[k];
        assert(editor.documents[i].id == id);
    }
    if exists|i: int|
        {
            &&& 0 <= i < editor.documents.len()
            &&& (#[trigger] editor.documents[i]).id == id
            &&& editor.documents[i].modified
            &&& editor.documents[i].path is Some
        } {
        let i = choose|i: int|
            {
                &&& 0 <= i < editor.documents.len()
                &&& (#[trigger] editor.documents[i]).id == id
                &&& editor.documents[i].modified
                &&& editor.documents[i].path is Some
            };
        docs.lemma_filter_contains(pred, i);
        let k = choose|k: int| 0 <= k < kept.len() && kept[k] == docs[i];
        assert(ids[k] == id);
    }
}

/// Whether a step changes a document or saves it.
pub open spec fn touches(step: StepView, id: DocumentId) -> bool {
    match step {
        Action::Do(Op::InsertFinalNewline(place)) => place.doc == id,
        Action::Do(Op::CommitChanges(place)) => place.doc == id,
        _ => saves(step, id),
    }
}

/// The steps that write documents touch no other document.
proof fn lemma_write_each_touches(
    editor: Editor,
    documents: Seq<Document>,
    force: bool,
    k: int,
    id: DocumentId,
)
    requires
        0 <= k < write_each(editor, documents, force).len(),
        touches(write_each(editor, documents, force)[k], id),
    ensures
        exists|i: int| 0 <= i < documents.len() && (#[trigger] documents[i]).id == id,
    decreases documents.len(),
{
    let shorter = documents.drop_last();
    let first = write_each(editor, shorter, force);
    if k < first.len() {
        lemma_write_each_touches(editor, shorter, force, k, id);
        let i = choose|i: int| 0 <= i < shorter.len() && (#[trigger] shorter[i]).id == id;
        assert(documents[i].id == id);
    } else {
        assert(documents[documents.len() - 1].id == id);
    }
}

/// Documents one behind the other are written one behind the other.
proof fn lemma_write_each_add(editor: Editor, a: Seq<Document>, b: Seq<Document>, force: bool)
    ensures
        write_each(editor, a + b, force) == write_each(editor, a, force) + write_each(
            editor,
            b,
            force,
        ),
    decreases b.len(),
{
    if b.len() == 0 {
        assert(a + b =~= a);
        assert(write_each(editor, a, force) + Seq::<StepView>::empty() =~= write_each(
            editor,
            a,
            force,
        ));
    } else {
        lemma_write_each_add(editor, a, b.drop_last(), force);
        assert((a + b).drop_last() =~= a + b.drop_last());
        assert(write_each(editor, a + b, force) =~= write_each(editor, a, force) + write_each(
            editor,
            b,
            force,
        ));
    }
}

/// The documents to write among some come from them.
proof fn lemma_to_write_from(documents: Seq<Document>, id: DocumentId)
    requires
        exists|i: int|
            0 <= i < to_write(documents).len() && (#[trigger] to_write(documents)[i]).id == id,
    ensures
        exists|i: int| 0 <= i < documents.len() && (#[trigger] documents[i]).id == id,
{
    let kept = to_write(documents);
    let k = choose|k: int| 0 <= k < kept.len() && (#[trigger] kept[k]).id == id;
    buffers::lemma_filter_member(documents, |d: Document| d.modified && d.path is Some, k);
    let i = choose|i: int| 0 <= i < documents.len() && documents[i] == kept[k];
    assert(documents[i].id == id);
}

/// When all documents are written, a step that saves one of them comes before any step that
/// touches a later one.
proof fn lemma_saves_in_order(
    editor: Editor,
    force: bool,
    write_scratch: bool,
    saving: int,
    saved: int,
    step: int,
    later: int,
)
    requires
        editor.wf(),
        0 <= saved < later < editor.documents.len(),
        0 <= step <= saving < write_all_impl_plan(editor, force, write_scratch).steps.len(),
        saves(
            write_all_impl_plan(editor, force, write_scratch).steps[saving],
            editor.documents[saved].id,
        ),
    ensures
        !touches(
            write_all_impl_plan(editor, force, write_scratch).steps[step],
            editor.documents[later].id,
        ),
{
    let docs = editor.documents@;
    let pred = |d: Document| d.modified && d.path is Some;
    let head = docs.take(saved + 1);
    let tail = docs.skip(saved + 1);
    assert(docs =~= head + tail);
    Seq::filter_distributes_over_add(head, tail, pred);
    let a = to_write(head);
    let b = to_write(tail);
    let kept = to_write(docs);
    assert(kept == a + b);
    lemma_write_each_add(editor, a, b, force);
    let steps = write_all_impl_plan(editor, force, write_scratch).steps;
    let syncs = sync_each(kept);
    let first = write_each(editor, a, force);
    let second = write_each(editor, b, force);
    assert(steps =~= syncs + first + second);
    let id = docs[saved].id;
    let other = docs[later].id;
    assert(saving >= syncs.len());
    if saving >= syncs.len() + first.len() {
        let k = saving - syncs.len() - first.len();
        assert(second[k] == steps[saving]);
        lemma_write_each_touches(editor, b, force, k, id);
        lemma_to_write_from(tail, id);
        let i = choose|i: int| 0 <= i < tail.len() && (#[trigger] tail[i]).id == id;
        assert(docs[saved + 1 + i].id == docs[saved].id);
    }
    if touches(steps[step], other) {
        assert(step >= syncs.len());
        let k = step - syncs.len();
        assert(first[k] == steps[step]);
        lemma_write_each_touches(editor, a, force, k, other);
        lemma_to_write_from(head, other);
        let i = choose|i: int| 0 <= i < head.len() && (#[trigger] head[i]).id == other;
        assert(docs[i].id == docs[later].id);
    }
}

/// When a document cannot be saved while all are written, that is the error, also when the writing
/// is forced, and none of the steps that have been done has changed or saved a later document.
pub proof fn lemma_failed_save_ends(
    editor: Editor,
    force: bool,
    write_scratch: bool,
    failures: spec_fn(nat) -> Option<Seq<char>>,
    failing: nat,
    saved: int,
)
    requires
        editor.wf(),
        failing < write_all_impl_plan(editor, force, write_scratch).steps.len(),
        forall|i: nat| i < failing ==> #[trigger] failures(i) is None,
        failures(failing) is Some,
        0 <= saved < editor.documents.len(),
        saves(
            write_all_impl_plan(editor, force, write_scratch).steps[failing as int],
            editor.documents[saved].id,
        ),
    ensures
        plan::course(write_all_impl_plan(editor, force, write_scratch), failures) == (Course {
            done: failing + 1,
            error: failures(failing),
        }),
        forall|step: int, later: int|
            0 <= step <= failing && saved < later < editor.documents.len() ==> !touches(
                #[trigger] write_all_impl_plan(editor, force, write_scratch).steps[step],
                (#[trigger] editor.documents[later]).id,
            ),
{
    let plan = write_all_impl_plan(editor, force, write_scratch);
    plan::lemma_first_failure_ends(plan.steps, plan.error, failures, 0, failing);
    assert forall|step: int, later: int|
        0 <= step <= failing && saved < later < editor.documents.len() implies !touches(
        #[trigger] write_all_impl_plan(editor, force, write_scratch).steps[step],
        (#[trigger] editor.documents[later]).id,
    ) by {
        lemma_saves_in_order(
            editor,
            force,
            write_scratch,
            failing as int,
            saved,
            step,
            later,
        );
    }
}

/// The editor is left without force only if all changes are saved.
pub proof fn lemma_quit_all_keeps_changes(editor: Editor, view: ViewId)
    requires
        editor.wf(),
        buffers::any_modified(editor.documents@),
    ensures
        quit_views_plan(editor, false).error is Some,
        !quit_views_plan(editor, false).steps.contains(Action::Do(Op::CloseView(view))),
{
    buffers::lemma_remaining(editor);
}

/// The text of a document is given its line ending where it ends with none, and is left alone
/// otherwise. Doing so again changes nothing.
pub proof fn lemma_document_final_newline(editor: Editor, i: int, text: Seq<char>)
    requires
        editor.wf(),
        0 <= i < editor.documents.len(),
        text.len() <= usize::MAX,
    ensures
        match change::final_newline(
            text,
            editor.documents[i].line_ending,
            editor.unicode_lines,
        ) {
            Some(change) => {
                let after = change::applied(text, seq![change]);
                &&& change::line_ending(text, editor.unicode_lines) is None
                &&& after == text + editor.documents[i].line_ending.chars()
                &&& change::final_newline(
                    after,
                    editor.documents[i].line_ending,
                    editor.unicode_lines,
                ) is None
            },
            None => change::line_ending(text, editor.unicode_lines) is Some,
        },
{
    change::lemma_final_newline(text, editor.documents[i].line_ending, editor.unicode_lines);
}

} // verus!
