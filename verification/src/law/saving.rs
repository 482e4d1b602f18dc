//! What holds of the commands that write documents and read them again.
use vstd::prelude::*;

use crate::args::ArgsView;
use crate::buffers;
use crate::command::Fun;
use crate::editor::{Document, Editor, Place, ViewId, ViewInfo, ViewRef};
use crate::law::closing;
use crate::number;
use crate::options;
use crate::plan::{Action, Op, PlanView, StepView};
use crate::save;
use crate::text;

verus! {

/// Whether a step asks for a document to be written.
pub open spec fn writes(step: StepView) -> bool {
    step is Save || step is FormatAndSave
}

/// The path that a command is given, if any.
pub open spec fn given_path(args: ArgsView) -> Option<Seq<char>> {
    if args.words.len() > 0 {
        Some(args.words[0].text)
    } else {
        None
    }
}

/// `write` writes the shown document, to the path that it is given or to the document's own, as
/// the last thing that it does: formatted if that is asked for and there is a formatter. Before
/// that come the final newline, where that is asked for, and then the changes so far. `write!`
/// does the same and creates directories.
pub proof fn lemma_write(editor: Editor, places: options::Places, args: ArgsView, force: bool)
    requires
        editor.wf(),
        args.taken == 0,
    ensures
        ({
            let document = editor.documents[editor.current as int];
            let place = Place { doc: document.id, view: ViewRef::Id(editor.current_view) };
            let fun = if force {
                Fun::ForceWrite
            } else {
                Fun::Write
            };
            let plan = closing::confirmed(fun, editor, places, args);
            let n = plan.steps.len();
            &&& plan.error is None
            &&& n == (if editor.insert_final_newline {
                3int
            } else {
                2
            })
            &&& editor.insert_final_newline ==> plan.steps[0] == StepView::Do(
                Op::InsertFinalNewline(place),
            )
            &&& plan.steps[n - 2] == StepView::Do(Op::CommitChanges(place))
            &&& editor.auto_format && document.auto_formatter ==> plan.steps[n - 1]
                == (StepView::FormatAndSave { place, path: given_path(args), force })
            &&& !(editor.auto_format && document.auto_formatter) ==> plan.steps[n - 1]
                == (StepView::Save { doc: document.id, path: given_path(args), force })
        }),
{
}

/// `update` writes the shown document as `write` does if it has changes, and does nothing if it
/// has none.
pub proof fn lemma_update(editor: Editor, places: options::Places, args: ArgsView)
    requires
        editor.wf(),
    ensures
        editor.documents[editor.current as int].modified ==> closing::confirmed(
            Fun::Update,
            editor,
            places,
            args,
        ) == closing::confirmed(Fun::Write, editor, places, args),
        !editor.documents[editor.current as int].modified ==> closing::confirmed(
            Fun::Update,
            editor,
            places,
            args,
        ) == (PlanView { steps: Seq::empty(), error: None }),
{
}

/// The commands that write and then close or leave write first, as `write` and `write!` do, and
/// close or leave only when the writes are done.
pub proof fn lemma_write_and_leave(editor: Editor, places: options::Places, args: ArgsView)
    requires
        editor.wf(),
        args.taken == 0,
    ensures
        closing::confirmed(Fun::WriteQuit, editor, places, args) == (PlanView {
            steps: closing::confirmed(Fun::Write, editor, places, args).steps + seq![
                StepView::Do(Op::FlushWrites),
                StepView::Do(Op::Quit),
            ],
            error: None,
        }),
        closing::confirmed(Fun::ForceWriteQuit, editor, places, args) == (PlanView {
            steps: closing::confirmed(Fun::ForceWrite, editor, places, args).steps + seq![
                StepView::Do(Op::FlushWrites),
                StepView::Do(Op::FlushWrites),
                StepView::Do(Op::CloseCurrentView),
            ],
            error: None,
        }),
{
    assert(closing::confirmed(Fun::WriteQuit, editor, places, args).steps =~= closing::confirmed(
        Fun::Write,
        editor,
        places,
        args,
    ).steps + seq![StepView::Do(Op::FlushWrites), StepView::Do(Op::Quit)]);
    assert(closing::confirmed(Fun::ForceWriteQuit, editor, places, args).steps
        =~= closing::confirmed(Fun::ForceWrite, editor, places, args).steps + seq![
        StepView::Do(Op::FlushWrites),
        StepView::Do(Op::FlushWrites),
        StepView::Do(Op::CloseCurrentView),
    ]);
}

/// The commands that write a document and close it write it first, and then close what
/// `buffer-close` closes with the arguments behind the path: never what has unsaved changes.
pub proof fn lemma_write_and_close(
    editor: Editor,
    places: options::Places,
    args: ArgsView,
    behind: ArgsView,
)
    requires
        editor.wf(),
        args.taken == 0,
        behind.taken == 0,
        args.words.len() > 0 ==> behind.words == args.words.skip(1),
        args.words.len() == 0 ==> behind.words.len() == 0,
    ensures
        closing::confirmed(Fun::WriteBufferClose, editor, places, args) == (PlanView {
            steps: closing::confirmed(Fun::Write, editor, places, args).steps + closing::confirmed(
                Fun::BufferClose,
                editor,
                places,
                behind,
            ).steps,
            error: None,
        }),
        closing::confirmed(Fun::ForceWriteBufferClose, editor, places, args) == (PlanView {
            steps: closing::confirmed(Fun::ForceWrite, editor, places, args).steps
                + closing::confirmed(Fun::BufferClose, editor, places, behind).steps,
            error: None,
        }),
{
    assert(args.advanced().left() =~= behind.left());
}

/// What is picked out of a sequence, in order, is what is found at the places that are picked.
pub(crate) proof fn lemma_filter_picked<A>(
    items: Seq<A>,
    pred: spec_fn(A) -> bool,
    picked: Seq<int>,
)
    requires
        forall|k: int, l: int|
            0 <= k < l < picked.len() ==> #[trigger] picked[k] < #[trigger] picked[l],
        forall|k: int|
            0 <= k < picked.len() ==> 0 <= #[trigger] picked[k] < items.len() && pred(
                items[picked[k]],
            ),
        forall|i: int| 0 <= i < items.len() && pred(#[trigger] items[i]) ==> picked.contains(i),
    ensures
        items.filter(pred) == Seq::new(picked.len(), |k: int| items[picked[k]]),
    decreases items.len(),
{
    reveal(Seq::filter);
    let found = Seq::new(picked.len(), |k: int| items[picked[k]]);
    if items.len() == 0 {
        if picked.len() > 0 {
            assert(0 <= picked[0] < items.len());
        }
        assert(items.filter(pred) =~= found);
    } else {
        let rest = items.drop_last();
        let end = items.len() - 1;
        if pred(items.last()) {
            assert(pred(items[end]));
            assert(picked.contains(end));
            let k = choose|k: int| 0 <= k < picked.len() && picked[k] == end;
            if k < picked.len() - 1 {
                assert(picked[k] < picked[picked.len() - 1]);
            }
            let fewer = picked.drop_last();
            assert forall|i: int| 0 <= i < rest.len() && pred(#[trigger] rest[i]) implies fewer.contains(
                i,
            ) by {
                assert(pred(items[i]));
                let l = choose|l: int| 0 <= l < picked.len() && picked[l] == i;
                assert(fewer[l] == i);
            }
            assert forall|l: int| 0 <= l < fewer.len() implies 0 <= #[trigger] fewer[l] < rest.len()
                && pred(rest[fewer[l]]) by {
                assert(picked[l] < picked[k]);
            }
            lemma_filter_picked(rest, pred, fewer);
            assert(items.filter(pred) =~= found);
        } else {
            assert forall|i: int| 0 <= i < rest.len() && pred(#[trigger] rest[i]) implies picked.contains(
                i,
            ) by {
                assert(pred(items[i]));
            }
            lemma_filter_picked(rest, pred, picked);
            assert(items.filter(pred) =~= found);
        }
    }
}

proof fn lemma_write_each_at(editor: Editor, documents: Seq<Document>, force: bool, k: int)
    requires
        0 <= k < documents.len(),
    ensures
        ({
            let steps = save::write_each(editor, documents, force);
            let id = documents[k].id;
            let place = Place { doc: id, view: ViewRef::SyncedWith(id) };
            let save: StepView = if editor.auto_format && documents[k].auto_formatter {
                Action::FormatAndSave { place, path: None, force }
            } else {
                Action::Save { doc: id, path: None, force }
            };
            if editor.insert_final_newline {
                &&& steps.len() == 3 * documents.len()
                &&& steps[3 * k] == StepView::Do(Op::InsertFinalNewline(place))
                &&& steps[3 * k + 1] == StepView::Do(Op::CommitChanges(place))
                &&& steps[3 * k + 2] == save
            } else {
                &&& steps.len() == 2 * documents.len()
                &&& steps[2 * k] == StepView::Do(Op::CommitChanges(place))
                &&& steps[2 * k + 1] == save
            }
        }),
    decreases documents.len(),
{
    if documents.len() > 1 {
        let first = documents.drop_last();
        if k < first.len() {
            lemma_write_each_at(editor, first, force, k);
        } else {
            lemma_write_each_at(editor, first, force, 0);
        }
    } else {
        assert(save::write_each(editor, documents.drop_last(), force) =~= Seq::empty());
    }
}

/// `write-all` and `write-all!` bring the view of each document to write up to date, and then
/// write these documents to their own files, one after the other: those with changes and a file,
/// in the editor's order. Only `write-all` complains of documents with changes and no file, once
/// for each.
pub proof fn lemma_write_all(
    editor: Editor,
    places: options::Places,
    args: ArgsView,
    force: bool,
    picked: Seq<int>,
    unnamed: Seq<int>,
    k: int,
)
    requires
        forall|k: int, l: int|
            0 <= k < l < picked.len() ==> #[trigger] picked[k] < #[trigger] picked[l],
        forall|k: int|
            0 <= k < picked.len() ==> 0 <= #[trigger] picked[k] < editor.documents.len()
                && editor.documents[picked[k]].modified
                && editor.documents[picked[k]].path is Some,
        forall|i: int|
            0 <= i < editor.documents.len() && (#[trigger] editor.documents@[i]).modified
                && editor.documents@[i].path is Some ==> picked.contains(i),
        forall|k: int, l: int|
            0 <= k < l < unnamed.len() ==> #[trigger] unnamed[k] < #[trigger] unnamed[l],
        forall|k: int|
            0 <= k < unnamed.len() ==> 0 <= #[trigger] unnamed[k] < editor.documents.len()
                && editor.documents[unnamed[k]].modified
                && editor.documents[unnamed[k]].path is None,
        forall|i: int|
            0 <= i < editor.documents.len() && (#[trigger] editor.documents@[i]).modified
                && editor.documents@[i].path is None ==> unnamed.contains(i),
    ensures
        ({
            let fun = if force {
                Fun::ForceWriteAll
            } else {
                Fun::WriteAll
            };
            let plan = closing::confirmed(fun, editor, places, args);
            let n = picked.len();
            let document = editor.documents[picked[k]];
            let place = Place { doc: document.id, view: ViewRef::SyncedWith(document.id) };
            let save: StepView = if editor.auto_format && document.auto_formatter {
                Action::FormatAndSave { place, path: None, force }
            } else {
                Action::Save { doc: document.id, path: None, force }
            };
            &&& 0 <= k < n ==> plan.steps[k] == StepView::Do(Op::SyncView(document.id))
            &&& plan.steps.len() == (if editor.insert_final_newline {
                4 * n
            } else {
                3 * n
            })
            &&& 0 <= k < n && editor.insert_final_newline ==> {
                &&& plan.steps[n + 3 * k] == StepView::Do(Op::InsertFinalNewline(place))
                &&& plan.steps[n + 3 * k + 1] == StepView::Do(Op::CommitChanges(place))
                &&& plan.steps[n + 3 * k + 2] == save
            }
            &&& 0 <= k < n && !editor.insert_final_newline ==> {
                &&& plan.steps[n + 2 * k] == StepView::Do(Op::CommitChanges(place))
                &&& plan.steps[n + 2 * k + 1] == save
            }
            &&& plan.error == (if !force && unnamed.len() > 0 {
                Some(
                    text::debug_list(
                        Seq::new(
                            unnamed.len(),
                            |i: int| "cannot write a buffer without a filename"@,
                        ),
                    ),
                )
            } else {
                None
            })
        }),
{
    let documents = editor.documents@;
    lemma_filter_picked(documents, |d: Document| d.modified && d.path is Some, picked);
    lemma_filter_picked(documents, |d: Document| d.modified && d.path is None, unnamed);
    if 0 <= k < picked.len() {
        lemma_write_each_at(editor, save::to_write(documents), force, k);
    } else if picked.len() > 0 {
        lemma_write_each_at(editor, save::to_write(documents), force, 0);
    } else {
        assert(save::to_write(documents) =~= Seq::empty());
    }
}

/// Where no document has changes and a file, `write-all` and `write-all!` write nothing.
pub proof fn lemma_write_all_nothing(
    editor: Editor,
    places: options::Places,
    args: ArgsView,
    force: bool,
)
    requires
        forall|i: int|
            0 <= i < editor.documents.len() && (#[trigger] editor.documents@[i]).modified
                ==> editor.documents@[i].path is None,
    ensures
        closing::confirmed(
            if force {
                Fun::ForceWriteAll
            } else {
                Fun::WriteAll
            },
            editor,
            places,
            args,
        ).steps.len() == 0,
        closing::confirmed(
            if force {
                Fun::ForceWriteAll
            } else {
                Fun::WriteAll
            },
            editor,
            places,
            args,
        ).error is Some <==> !force && exists|i: int|
            0 <= i < editor.documents.len() && (#[trigger] editor.documents@[i]).modified,
{
    let documents = editor.documents@;
    lemma_filter_picked(documents, |d: Document| d.modified && d.path is Some, Seq::empty());
    assert(save::to_write(documents) =~= Seq::empty());
    let pred = |d: Document| d.modified && d.path is None;
    if save::scratch(documents).len() > 0 {
        buffers::lemma_filter_member(documents, pred, 0);
    }
    if exists|i: int| 0 <= i < documents.len() && (#[trigger] documents[i]).modified {
        let i = choose|i: int| 0 <= i < documents.len() && (#[trigger] documents[i]).modified;
        documents.lemma_filter_contains(pred, i);
    }
}

proof fn lemma_write_each_kinds(editor: Editor, documents: Seq<Document>, force: bool)
    ensures
        forall|k: int|
            0 <= k < save::write_each(editor, documents, force).len() ==> {
                let step = #[trigger] save::write_each(editor, documents, force)[k];
                ||| writes(step)
                ||| step matches Action::Do(Op::InsertFinalNewline(_))
                ||| step matches Action::Do(Op::CommitChanges(_))
            },
    decreases documents.len(),
{
    if documents.len() > 0 {
        lemma_write_each_kinds(editor, documents.drop_last(), force);
    }
}

/// `write-quit-all` writes every document before it waits for the writes and closes the views,
/// without force. It comes to that only where `write-all` has nothing to complain of, and
/// otherwise does just what `write-all` does.
pub proof fn lemma_write_all_quit(
    editor: Editor,
    places: options::Places,
    args: ArgsView,
    i: int,
    j: int,
)
    ensures
        ({
            let plan = closing::confirmed(Fun::WriteAllQuit, editor, places, args);
            let write = closing::confirmed(Fun::WriteAll, editor, places, args);
            let n = plan.steps.len();
            &&& 0 <= i < n && 0 <= j < n && writes(plan.steps[i]) && (plan.steps[j] == StepView::Do(
                Op::FlushWrites,
            ) || plan.steps[j] is Do && plan.steps[j]->Do_0 is QuitViews) ==> i < j
            &&& write.error is None ==> {
                &&& plan.error is None
                &&& plan.steps == write.steps + seq![
                    StepView::Do(Op::FlushWrites),
                    StepView::Do(Op::QuitViews { force: false }),
                ]
            }
            &&& write.error is Some ==> {
                &&& plan == write
                &&& 0 <= j < n ==> plan.steps[j] != StepView::Do(Op::FlushWrites) && !(
                plan.steps[j] is Do && plan.steps[j]->Do_0 is QuitViews)
            }
        }),
{
    lemma_write_each_kinds(editor, save::to_write(editor.documents@), false);
}

/// The commands that leave the editor wait for the writes and close all views, with force if they
/// are typed with an exclamation mark. `write-quit-all!` tries to write before that.
pub proof fn lemma_quit_all(editor: Editor, places: options::Places, args: ArgsView)
    ensures
        closing::confirmed(Fun::QuitAll, editor, places, args) == (PlanView {
            steps: seq![
                StepView::Do(Op::FlushWrites),
                StepView::Do(Op::QuitViews { force: false }),
            ],
            error: None,
        }),
        closing::confirmed(Fun::ForceQuitAll, editor, places, args) == (PlanView {
            steps: seq![
                StepView::Do(Op::FlushWrites),
                StepView::Do(Op::QuitViews { force: true }),
            ],
            error: None,
        }),
        closing::confirmed(Fun::ForceWriteAllQuit, editor, places, args) == (PlanView {
            steps: seq![
                StepView::Do(Op::TryWriteAll),
                StepView::Do(Op::FlushWrites),
                StepView::Do(Op::QuitViews { force: true }),
            ],
            error: None,
        }),
{
    assert(closing::confirmed(Fun::ForceWriteAllQuit, editor, places, args).steps =~= seq![
        StepView::Do(Op::TryWriteAll),
        StepView::Do(Op::FlushWrites),
        StepView::Do(Op::QuitViews { force: true }),
    ]);
}

/// `cquit` and `cquit!` set the exit code first, and then leave as `quit-all` and `quit-all!` do.
/// The exit code is the number that is given, with or without a sign, and one if none is given, if
/// it does not fit, or if it is no number.
pub proof fn lemma_cquit(
    editor: Editor,
    places: options::Places,
    args: ArgsView,
    force: bool,
    digits: Seq<char>,
)
    requires
        args.taken == 0,
        forall|i: int| 0 <= i < digits.len() ==> '0' <= #[trigger] digits[i] && digits[i] <= '9',
    ensures
        ({
            let fun = if force {
                Fun::ForceCquit
            } else {
                Fun::Cquit
            };
            let plan = closing::confirmed(fun, editor, places, args);
            let word = args.words[0].text;
            let n = text::value_of(digits, 10);
            &&& plan.error is None
            &&& plan.steps.len() == 3
            &&& plan.steps[0] is Do && plan.steps[0]->Do_0 is SetExitCode
            &&& plan.steps[1] == StepView::Do(Op::FlushWrites)
            &&& plan.steps[2] == StepView::Do(Op::QuitViews { force })
            &&& args.words.len() == 0 ==> exit_code(plan) == 1
            &&& args.words.len() > 0 && (word == digits || word == seq!['+'] + digits)
                ==> exit_code(plan) == (if digits.len() > 0 && n <= i32::MAX {
                n
            } else {
                1
            })
            &&& args.words.len() > 0 && word == seq!['-'] + digits ==> exit_code(plan) == (
            if digits.len() > 0 && 0 - n >= i32::MIN {
                0 - n
            } else {
                1
            })
            &&& args.words.len() > 0 && (exists|i: int|
                0 <= i < word.len() && !('0' <= #[trigger] word[i] && word[i] <= '9') && (i > 0 || (
                word[i] != '-' && word[i] != '+'))) ==> exit_code(plan) == 1
        }),
{
    number::lemma_digits_read(digits, 0);
    let word = args.words[0].text;
    if args.words.len() > 0 && (exists|i: int|
        0 <= i < word.len() && !('0' <= #[trigger] word[i] && word[i] <= '9') && (i > 0 || (word[i]
            != '-' && word[i] != '+'))) {
        number::lemma_no_number(word);
    }
}

/// The exit code that the first step of a plan sets.
pub open spec fn exit_code(plan: PlanView) -> int {
    plan.steps[0]->Do_0->SetExitCode_0 as int
}

/// `reload` reads the shown document again, brings its cursor into view, and tells the language
/// servers of the file if there is one.
pub proof fn lemma_reload(editor: Editor, places: options::Places, args: ArgsView)
    requires
        editor.wf(),
    ensures
        ({
            let document = editor.documents[editor.current as int];
            let place = Place { doc: document.id, view: ViewRef::Id(editor.current_view) };
            let plan = closing::confirmed(Fun::Reload, editor, places, args);
            &&& plan.error is None
            &&& document.path is Some ==> plan.steps == seq![
                StepView::Do(Op::Reload(place)),
                StepView::Do(Op::EnsureCursorInView(place)),
                StepView::Do(Op::NotifyFileChanged(document.id)),
            ]
            &&& document.path is None ==> plan.steps == seq![
                StepView::Do(Op::Reload(place)),
                StepView::Do(Op::EnsureCursorInView(place)),
            ]
        }),
{
}

/// The view through which a document is read again: its first one, or the shown view if it has
/// none.
pub open spec fn reload_view(editor: Editor, document: Document) -> ViewId {
    if document.views.len() > 0 {
        document.views[0]
    } else {
        editor.current_view
    }
}

proof fn lemma_reload_each_at(editor: Editor, documents: Seq<Document>, i: int)
    requires
        0 <= i < documents.len() <= usize::MAX,
    ensures
        ({
            let steps = save::reload_each(editor, documents);
            let place = Place {
                doc: documents[i].id,
                view: ViewRef::Id(reload_view(editor, documents[i])),
            };
            &&& steps.len() == 2 * documents.len()
            &&& steps[2 * i] == StepView::Do(Op::SyncChanges(place))
            &&& steps[2 * i + 1] == StepView::Do(Op::TryReload { place, index: i as usize })
        }),
    decreases documents.len(),
{
    if documents.len() > 1 {
        let first = documents.drop_last();
        lemma_reload_each_at(
            editor,
            first,
            if i < first.len() {
                i
            } else {
                0
            },
        );
    } else {
        assert(save::reload_each(editor, documents.drop_last()) =~= Seq::empty());
    }
}

proof fn lemma_init_each_at(editor: Editor, documents: Seq<Document>, unseen: Seq<int>)
    requires
        forall|k: int, l: int|
            0 <= k < l < unseen.len() ==> #[trigger] unseen[k] < #[trigger] unseen[l],
        forall|k: int|
            0 <= k < unseen.len() ==> 0 <= #[trigger] unseen[k] < documents.len()
                && documents[unseen[k]].views.len() == 0,
        forall|i: int|
            0 <= i < documents.len() && (#[trigger] documents[i]).views.len() == 0
                ==> unseen.contains(i),
    ensures
        save::init_each(editor, documents) == Seq::new(
            unseen.len(),
            |k: int|
                StepView::Do(
                    Op::EnsureViewInit(
                        Place {
                            doc: documents[unseen[k]].id,
                            view: ViewRef::Id(editor.current_view),
                        },
                    ),
                ),
        ),
    decreases documents.len(),
{
    let pred = |d: Document| d.views.len() == 0;
    lemma_filter_picked(documents, pred, unseen);
    lemma_init_each_filter(editor, documents);
    assert(save::init_each(editor, documents) =~= Seq::new(
        unseen.len(),
        |k: int|
            StepView::Do(
                Op::EnsureViewInit(
                    Place {
                        doc: documents[unseen[k]].id,
                        view: ViewRef::Id(editor.current_view),
                    },
                ),
            ),
    ));
}

proof fn lemma_init_each_filter(editor: Editor, documents: Seq<Document>)
    ensures
        save::init_each(editor, documents) == documents.filter(
            |d: Document| d.views.len() == 0,
        ).map_values(
            |d: Document|
                StepView::Do(
                    Op::EnsureViewInit(
                        Place { doc: d.id, view: ViewRef::Id(editor.current_view) },
                    ),
                ),
        ),
    decreases documents.len(),
{
    reveal(Seq::filter);
    if documents.len() > 0 {
        lemma_init_each_filter(editor, documents.drop_last());
    }
    assert(save::init_each(editor, documents) =~= documents.filter(
        |d: Document| d.views.len() == 0,
    ).map_values(
        |d: Document|
            StepView::Do(
                Op::EnsureViewInit(Place { doc: d.id, view: ViewRef::Id(editor.current_view) }),
            ),
    ));
}

/// `reload-all` makes the shown view ready for the documents that no view shows, and then reads
/// every document again, in the editor's order and each through its own view, when its changes are
/// kept.
pub proof fn lemma_reload_all(
    editor: Editor,
    places: options::Places,
    args: ArgsView,
    unseen: Seq<int>,
    i: int,
)
    requires
        forall|k: int, l: int|
            0 <= k < l < unseen.len() ==> #[trigger] unseen[k] < #[trigger] unseen[l],
        forall|k: int|
            0 <= k < unseen.len() ==> 0 <= #[trigger] unseen[k] < editor.documents@.len()
                && editor.documents@[unseen[k]].views.len() == 0,
        forall|i: int|
            0 <= i < editor.documents@.len() && (#[trigger] editor.documents@[i]).views.len() == 0
                ==> unseen.contains(i),
        0 <= i < editor.documents.len(),
    ensures
        ({
            let plan = closing::confirmed(Fun::ReloadAll, editor, places, args);
            let n = unseen.len();
            let document = editor.documents[i];
            let place = Place {
                doc: document.id,
                view: ViewRef::Id(reload_view(editor, document)),
            };
            &&& plan.error is None
            &&& plan.steps.len() == n + 2 * editor.documents.len()
            &&& plan.steps[n + 2 * i] == StepView::Do(Op::SyncChanges(place))
            &&& plan.steps[n + 2 * i + 1] == StepView::Do(
                Op::TryReload { place, index: i as usize },
            )
            &&& forall|k: int|
                0 <= k < n ==> #[trigger] plan.steps[k] == StepView::Do(
                    Op::EnsureViewInit(
                        Place {
                            doc: editor.documents[unseen[k]].id,
                            view: ViewRef::Id(editor.current_view),
                        },
                    ),
                )
        }),
{
    lemma_init_each_at(editor, editor.documents@, unseen);
    lemma_reload_each_at(editor, editor.documents@, i);
}

/// When a document has been read again, what went wrong is shown and nothing else is done.
/// Otherwise the language servers are told of its file, and the cursor is brought into view in
/// each of its views that still show it, in their order.
pub proof fn lemma_reloaded(
    editor: Editor,
    document: Document,
    message: Seq<char>,
    shown: Seq<int>,
)
    requires
        forall|k: int, l: int|
            0 <= k < l < shown.len() ==> #[trigger] shown[k] < #[trigger] shown[l],
        forall|k: int|
            0 <= k < shown.len() ==> 0 <= #[trigger] shown[k] < document.views@.len()
                && editor.views@.contains(
                ViewInfo { id: document.views@[shown[k]], doc: document.id },
            ),
        forall|i: int|
            0 <= i < document.views@.len() && editor.views@.contains(
                ViewInfo { id: #[trigger] document.views@[i], doc: document.id },
            ) ==> shown.contains(i),
    ensures
        save::reloaded_plan(editor, document, Some(message)) == (PlanView {
            steps: seq![StepView::SetError(message)],
            error: None,
        }),
        save::reloaded_plan(editor, document, None).error is None,
        document.views.len() > 0 ==> {
            let n = if document.path is Some {
                1int
            } else {
                0
            };
            let steps = save::reloaded_plan(editor, document, None).steps;
            &&& steps.len() == n + shown.len()
            &&& document.path is Some ==> steps[0] == StepView::Do(
                Op::NotifyFileChanged(document.id),
            )
            &&& forall|k: int|
                0 <= k < shown.len() ==> #[trigger] steps[n + k] == StepView::Do(
                    Op::EnsureCursorInView(
                        Place { doc: document.id, view: ViewRef::Id(document.views[shown[k]]) },
                    ),
                )
        },
        document.views.len() == 0 && document.path is None ==> save::reloaded_plan(
            editor,
            document,
            None,
        ).steps == (if editor.views@.contains(
            ViewInfo { id: editor.current_view, doc: document.id },
        ) {
            seq![
                StepView::Do(
                    Op::EnsureCursorInView(
                        Place { doc: document.id, view: ViewRef::Id(editor.current_view) },
                    ),
                ),
            ]
        } else {
            Seq::empty()
        }),
{
    let pred = |v: ViewId| save::shows(editor, v, document.id);
    if document.views.len() > 0 {
        assert forall|i: int| 0 <= i < document.views@.len() && pred(#[trigger] document.views@[i]) implies shown.contains(
            i,
        ) by {
            assert(editor.views@.contains(
                ViewInfo { id: document.views@[i], doc: document.id },
            ));
        }
        lemma_filter_picked(document.views@, pred, shown);
    } else {
        reveal(Seq::filter);
        let one = seq![editor.current_view];
        assert(one.drop_last() =~= Seq::empty());
        assert(one.drop_last().filter(pred) =~= Seq::empty());
    }
}

} // verus!
