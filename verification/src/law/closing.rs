//! What holds of the commands that close views and documents and open files.
use vstd::prelude::*;

use crate::args::{ArgsView, PromptEvent};
use crate::buffers;
use crate::buffers::{CloseOutcome, Closing};
use crate::command::Fun;
use crate::editor::{Document, DocumentId, Editor};
use crate::options;
use crate::plan::{Action, Direction, Op, PlanView, Split, StepView};
use crate::run;
use crate::save;
use crate::text;

verus! {

/// What a command does when its line is confirmed.
pub open spec fn confirmed(
    fun: Fun,
    editor: Editor,
    places: options::Places,
    args: ArgsView,
) -> PlanView {
    run::command_plan(fun, editor, places, args, PromptEvent::Validate)
}

/// `quit` closes the view, once the writes are done, wherever another view stays or nothing is
/// unsaved. `quit!` always does.
pub proof fn lemma_quit_closes(editor: Editor, places: options::Places, args: ArgsView)
    requires
        editor.wf(),
        args.raw.len() == 0,
    ensures
        editor.views.len() != 1 || (forall|i: int|
            0 <= i < editor.documents.len() ==> !(#[trigger] editor.documents[i]).modified)
            ==> confirmed(Fun::Quit, editor, places, args) == (PlanView {
            steps: seq![Action::Do(Op::FlushWrites), Action::Do(Op::CloseCurrentView)],
            error: None,
        }),
        confirmed(Fun::ForceQuit, editor, places, args) == (PlanView {
            steps: seq![Action::Do(Op::FlushWrites), Action::Do(Op::CloseCurrentView)],
            error: None,
        }),
{
    buffers::lemma_remaining(editor);
    if editor.views.len() == 1 && !buffers::any_modified(editor.documents@) {
        assert(buffers::remaining_plan(editor).steps =~= Seq::empty());
        assert(confirmed(Fun::Quit, editor, places, args).steps =~= seq![
            Action::Do(Op::FlushWrites),
            Action::Do(Op::CloseCurrentView),
        ]);
    }
}

/// Where a document of the last view's editor is unsaved, `quit` says so and closes nothing, and
/// all that it does besides is to show the first unsaved document if the shown one is saved.
pub proof fn lemma_quit_refused(
    editor: Editor,
    places: options::Places,
    args: ArgsView,
    first: int,
)
    requires
        editor.wf(),
        args.raw.len() == 0,
        editor.views.len() == 1,
        0 <= first < editor.documents.len(),
        editor.documents[first].modified,
        forall|i: int| 0 <= i < first ==> !(#[trigger] editor.documents[i]).modified,
    ensures
        ({
            let plan = confirmed(Fun::Quit, editor, places, args);
            &&& plan.error is Some
            &&& editor.documents[editor.current as int].modified ==> plan.steps == seq![
                StepView::SetError(plan.error->0),
            ]
            &&& !editor.documents[editor.current as int].modified ==> plan.steps == seq![
                StepView::Do(Op::Switch(editor.documents[first].id)),
                StepView::SetError(plan.error->0),
            ]
        }),
{
    buffers::lemma_remaining(editor);
    lemma_first_modified(editor.documents@, first);
    let plan = confirmed(Fun::Quit, editor, places, args);
    let remaining = buffers::remaining_plan(editor);
    assert(buffers::any_modified(editor.documents@));
    assert(plan == remaining);
    if !editor.doc_spec().modified {
        assert(buffers::ids_of(buffers::modified(editor.documents@))[0]
            == editor.documents[first].id);
    }
}

proof fn lemma_first_modified(documents: Seq<Document>, first: int)
    requires
        0 <= first < documents.len(),
        documents[first].modified,
        forall|i: int| 0 <= i < first ==> !(#[trigger] documents[i]).modified,
    ensures
        buffers::modified(documents).len() > 0,
        buffers::modified(documents)[0] == documents[first],
    decreases documents.len(),
{
    reveal(Seq::filter);
    if first < documents.len() - 1 {
        lemma_first_modified(documents.drop_last(), first);
    } else {
        let pred = |d: Document| d.modified;
        let before = documents.drop_last().filter(pred);
        if before.len() > 0 {
            buffers::lemma_filter_member(documents.drop_last(), pred, 0);
        }
    }
}

/// The names that the message about unsaved documents gives: one document after the other, those
/// with changes and no others.
pub proof fn lemma_unsaved_names(documents: Seq<Document>, document: Document)
    ensures
        buffers::names_of(buffers::modified(Seq::empty())).len() == 0,
        buffers::names_of(buffers::modified(documents.push(document))) == (if document.modified {
            buffers::names_of(buffers::modified(documents)).push(document.display_name@)
        } else {
            buffers::names_of(buffers::modified(documents))
        }),
{
    reveal(Seq::filter);
    assert(documents.push(document).drop_last() =~= documents);
    assert(buffers::names_of(buffers::modified(documents.push(document))) =~= (
    if document.modified {
        buffers::names_of(buffers::modified(documents)).push(document.display_name@)
    } else {
        buffers::names_of(buffers::modified(documents))
    }));
}

/// The message about unsaved documents counts them and lists them, and speaks of one document as
/// of one.
pub proof fn lemma_unsaved_message(editor: Editor, names: Seq<Seq<char>>)
    requires
        names == buffers::names_of(buffers::modified(editor.documents@)),
        names.len() > 0,
    ensures
        buffers::remaining_plan(editor).error == Some(
            text::decimal(names.len()) + (if names.len() == 1 {
                " unsaved buffer remaining: "@
            } else {
                " unsaved buffers remaining: "@
            }) + text::debug_list(names),
        ),
{
    reveal_strlit(" unsaved buffer");
    reveal_strlit(" remaining: ");
    reveal_strlit("s");
    reveal_strlit("");
    reveal_strlit(" unsaved buffer remaining: ");
    reveal_strlit(" unsaved buffers remaining: ");
    assert(names.len() == buffers::ids_of(buffers::modified(editor.documents@)).len());
    assert(" unsaved buffer"@ + ""@ + " remaining: "@ =~= " unsaved buffer remaining: "@);
    assert(" unsaved buffer"@ + "s"@ + " remaining: "@ =~= " unsaved buffers remaining: "@);
    let number = text::decimal(names.len());
    let list = text::debug_list(names);
    let middle = " unsaved buffer"@ + text::plural(names.len()) + " remaining: "@;
    assert(number + " unsaved buffer"@ + text::plural(names.len()) + " remaining: "@ + list
        =~= number + middle + list);
}

/// Neither `quit` nor `quit!` takes arguments: what they are given is refused, and nothing is
/// done.
pub proof fn lemma_quit_takes_nothing(editor: Editor, places: options::Places, args: ArgsView)
    requires
        args.raw.len() > 0,
    ensures
        confirmed(Fun::Quit, editor, places, args) == (PlanView {
            steps: Seq::empty(),
            error: Some(":quit takes no arguments"@),
        }),
        confirmed(Fun::ForceQuit, editor, places, args) == (PlanView {
            steps: Seq::empty(),
            error: Some(":quit! takes no arguments"@),
        }),
{
}

/// `buffer-close` without arguments closes the shown document and no other, and `buffer-close!`
/// does so whatever is not saved.
pub proof fn lemma_close_current(editor: Editor, places: options::Places, args: ArgsView)
    requires
        editor.wf(),
        args.taken == 0,
        args.words.len() == 0,
    ensures
        confirmed(Fun::BufferClose, editor, places, args) == (PlanView {
            steps: seq![
                Action::Do(Op::FlushWrites),
                Action::Do(
                    Op::CloseDocument {
                        id: editor.documents[editor.current as int].id,
                        force: false,
                    },
                ),
                Action::Do(Op::ReportUnclosed),
            ],
            error: None,
        }),
        confirmed(Fun::ForceBufferClose, editor, places, args) == (PlanView {
            steps: seq![
                Action::Do(Op::FlushWrites),
                Action::Do(
                    Op::CloseDocument {
                        id: editor.documents[editor.current as int].id,
                        force: true,
                    },
                ),
                Action::Do(Op::ReportUnclosed),
            ],
            error: None,
        }),
{
    assert(args.left() =~= Seq::empty());
    assert forall|force: bool|
        #[trigger] buffers::close_named_plan(editor, args, force).steps == seq![
            StepView::Do(Op::FlushWrites),
            StepView::Do(
                Op::CloseDocument { id: editor.documents[editor.current as int].id, force },
            ),
            StepView::Do(Op::ReportUnclosed),
        ] by {
        assert(buffers::close_named_plan(editor, args, force).steps =~= seq![
            StepView::Do(Op::FlushWrites),
            StepView::Do(
                Op::CloseDocument { id: editor.documents[editor.current as int].id, force },
            ),
            StepView::Do(Op::ReportUnclosed),
        ]);
    }
    assert(buffers::close_named_plan(editor, args, false).error is None);
    assert(buffers::close_named_plan(editor, args, true).error is None);
}

/// Whether a path is that of a document, or its path below the working directory.
pub open spec fn names(path: Seq<Seq<char>>, document: Document) -> bool {
    (document.path is Some && text::views(document.path->0@) == path) || (
    document.relative_path is Some && text::views(document.relative_path->0@) == path)
}

/// A path stands for the first document that it names, and for none if it names none.
pub proof fn lemma_found(documents: Seq<Document>, path: Seq<Seq<char>>, first: int)
    ensures
        0 <= first < documents.len() && names(path, documents[first]) && (forall|i: int|
            0 <= i < first ==> !names(path, #[trigger] documents[i])) ==> buffers::found(
            documents,
            path,
        ) == Some(documents[first].id),
        (forall|i: int| 0 <= i < documents.len() ==> !names(path, #[trigger] documents[i]))
            ==> buffers::found(documents, path) is None,
    decreases documents.len(),
{
    if documents.len() > 0 && !names(path, documents[0]) {
        let rest = documents.skip(1);
        lemma_found(rest, path, first - 1);
        assert forall|i: int|
            0 <= i < rest.len() && !names(path, documents[i + 1]) implies !names(
            path,
            #[trigger] rest[i],
        ) by {}
        if 0 <= first < documents.len() && names(path, documents[first]) {
            assert(rest[first - 1] == documents[first]);
        }
    } else if documents.len() > 0 {
        assert(names(path, documents[0]));
    }
}

proof fn lemma_all_named(
    documents: Seq<Document>,
    words: Seq<crate::args::WordView>,
    picked: Seq<int>,
)
    requires
        picked.len() == words.len(),
        forall|k: int|
            0 <= k < words.len() ==> {
                &&& 0 <= #[trigger] picked[k] < documents.len()
                &&& names(words[k].path, documents[picked[k]])
                &&& forall|i: int|
                    0 <= i < picked[k] ==> !names(words[k].path, #[trigger] documents[i])
            },
    ensures
        buffers::nonexistent(documents, words).len() == 0,
        buffers::named_documents(documents, words) == Seq::new(
            words.len(),
            |k: int| documents[picked[k]].id,
        ),
    decreases words.len(),
{
    if words.len() > 0 {
        let last = words.len() - 1;
        assert forall|k: int| 0 <= k < words.drop_last().len() implies {
            &&& 0 <= #[trigger] picked.drop_last()[k] < documents.len()
            &&& names(words.drop_last()[k].path, documents[picked.drop_last()[k]])
            &&& forall|i: int|
                0 <= i < picked.drop_last()[k] ==> !names(
                    words.drop_last()[k].path,
                    #[trigger] documents[i],
                )
        } by {
            assert(picked.drop_last()[k] == picked[k]);
        }
        lemma_all_named(documents, words.drop_last(), picked.drop_last());
        assert(picked[last] == picked.last());
        lemma_found(documents, words.last().path, picked.last());
    }
    assert(buffers::named_documents(documents, words) =~= Seq::new(
        words.len(),
        |k: int| documents[picked[k]].id,
    ));
}

/// `buffer-close` and `buffer-close!` close the documents that the arguments name, each once for
/// each argument and in the arguments' order.
pub proof fn lemma_close_named(
    editor: Editor,
    places: options::Places,
    args: ArgsView,
    picked: Seq<int>,
    k: int,
)
    requires
        editor.wf(),
        args.taken == 0,
        args.words.len() > 0,
        picked.len() == args.words.len(),
        forall|k: int|
            0 <= k < args.words.len() ==> {
                &&& 0 <= #[trigger] picked[k] < editor.documents.len()
                &&& names(args.words[k].path, editor.documents[picked[k]])
                &&& forall|i: int|
                    0 <= i < picked[k] ==> !names(
                        args.words[k].path,
                        #[trigger] editor.documents@[i],
                    )
            },
        0 <= k < args.words.len(),
    ensures
        ({
            let plan = confirmed(Fun::BufferClose, editor, places, args);
            let forced = confirmed(Fun::ForceBufferClose, editor, places, args);
            let id = editor.documents[picked[k]].id;
            &&& plan.error is None && forced.error is None
            &&& plan.steps.len() == args.words.len() + 2
            &&& forced.steps.len() == args.words.len() + 2
            &&& plan.steps.first() == StepView::Do(Op::FlushWrites)
            &&& forced.steps.first() == StepView::Do(Op::FlushWrites)
            &&& plan.steps[k + 1] == StepView::Do(Op::CloseDocument { id, force: false })
            &&& forced.steps[k + 1] == StepView::Do(Op::CloseDocument { id, force: true })
            &&& plan.steps.last() == StepView::Do(Op::ReportUnclosed)
            &&& forced.steps.last() == StepView::Do(Op::ReportUnclosed)
        }),
{
    assert(args.left() =~= args.words);
    lemma_all_named(editor.documents@, args.words, picked);
}

/// Arguments that name no document are reported, all of them and before anything else, and
/// nothing is closed on their account: not even the shown document.
pub proof fn lemma_close_nonexistent(editor: Editor, places: options::Places, args: ArgsView)
    requires
        editor.wf(),
        args.taken == 0,
        args.words.len() > 0,
        forall|k: int, i: int|
            0 <= k < args.words.len() && 0 <= i < editor.documents.len() ==> !names(
                #[trigger] args.words[k].path,
                #[trigger] editor.documents@[i],
            ),
    ensures
        forall|force: bool|
            (#[trigger] buffers::buffer_close_plan(editor, args, PromptEvent::Validate, force))
                == (PlanView {
                steps: seq![
                    StepView::SetError(
                        "cannot close non-existent buffers: "@ + text::joined(
                            Seq::new(
                                args.words.len(),
                                |k: int| seq!['\''] + args.words[k].text + seq!['\''],
                            ),
                            ", "@,
                        ),
                    ),
                    StepView::Do(Op::FlushWrites),
                    StepView::Do(Op::ReportUnclosed),
                ],
                error: None,
            }),
{
    assert(args.left() =~= args.words);
    assert forall|k: int| 0 <= k < args.words.len() implies buffers::found(
        editor.documents@,
        (#[trigger] args.words[k]).path,
    ) is None by {
        lemma_found(editor.documents@, args.words[k].path, 0);
        assert(args.words[k].path == args.words[k].path);
    }
    lemma_none_named(editor.documents@, args.words);
    assert forall|force: bool|
        (#[trigger] buffers::buffer_close_plan(
            editor,
            args,
            PromptEvent::Validate,
            force,
        )).steps == seq![
            StepView::SetError(
                "cannot close non-existent buffers: "@ + text::joined(
                    Seq::new(
                        args.words.len(),
                        |k: int| seq!['\''] + args.words[k].text + seq!['\''],
                    ),
                    ", "@,
                ),
            ),
            StepView::Do(Op::FlushWrites),
            StepView::Do(Op::ReportUnclosed),
        ] by {
        assert(buffers::close_steps(Seq::empty(), force) =~= Seq::empty());
    }
}

proof fn lemma_none_named(documents: Seq<Document>, words: Seq<crate::args::WordView>)
    requires
        forall|k: int|
            0 <= k < words.len() ==> buffers::found(documents, (#[trigger] words[k]).path) is None,
    ensures
        buffers::named_documents(documents, words) == Seq::<DocumentId>::empty(),
        buffers::nonexistent(documents, words) == Seq::new(
            words.len(),
            |k: int| seq!['\''] + words[k].text + seq!['\''],
        ),
    decreases words.len(),
{
    reveal_strlit("'");
    assert("'"@ =~= seq!['\'']);
    if words.len() > 0 {
        assert forall|k: int| 0 <= k < words.drop_last().len() implies buffers::found(
            documents,
            (#[trigger] words.drop_last()[k]).path,
        ) is None by {
            assert(words.drop_last()[k] == words[k]);
        }
        lemma_none_named(documents, words.drop_last());
        assert(words.last() == words[words.len() - 1]);
    }
    assert(buffers::nonexistent(documents, words) =~= Seq::new(
        words.len(),
        |k: int| seq!['\''] + words[k].text + seq!['\''],
    ));
}

/// One more argument adds the document that it names behind the others, or itself to those that
/// name none, and leaves what the other arguments stand for.
pub proof fn lemma_one_more_named(
    documents: Seq<Document>,
    words: Seq<crate::args::WordView>,
    word: crate::args::WordView,
)
    ensures
        ({
            let all = words.push(word);
            &&& buffers::named_documents(documents, Seq::empty()).len() == 0
            &&& buffers::nonexistent(documents, Seq::empty()).len() == 0
            &&& match buffers::found(documents, word.path) {
                Some(id) => {
                    &&& buffers::named_documents(documents, all) == buffers::named_documents(
                        documents,
                        words,
                    ).push(id)
                    &&& buffers::nonexistent(documents, all) == buffers::nonexistent(
                        documents,
                        words,
                    )
                },
                None => {
                    &&& buffers::named_documents(documents, all) == buffers::named_documents(
                        documents,
                        words,
                    )
                    &&& buffers::nonexistent(documents, all) == buffers::nonexistent(
                        documents,
                        words,
                    ).push(seq!['\''] + word.text + seq!['\''])
                },
            }
        }),
{
    reveal_strlit("'");
    assert("'"@ =~= seq!['\'']);
    assert(words.push(word).drop_last() =~= words);
}

/// Arguments of which some name documents and others do not close those that are named and report
/// the others, before anything is closed.
pub proof fn lemma_close_some(
    editor: Editor,
    places: options::Places,
    args: ArgsView,
    force: bool,
    k: int,
)
    requires
        editor.wf(),
        args.taken == 0,
        args.words.len() > 0,
        buffers::nonexistent(editor.documents@, args.words).len() > 0,
    ensures
        ({
            let fun = if force {
                Fun::ForceBufferClose
            } else {
                Fun::BufferClose
            };
            let plan = confirmed(fun, editor, places, args);
            let ids = buffers::named_documents(editor.documents@, args.words);
            let missing = buffers::nonexistent(editor.documents@, args.words);
            &&& plan.error is None
            &&& plan.steps.len() == ids.len() + 3
            &&& plan.steps[0] == StepView::SetError(
                "cannot close non-existent buffers: "@ + text::joined(missing, seq![',', ' ']),
            )
            &&& plan.steps[1] == StepView::Do(Op::FlushWrites)
            &&& 0 <= k < ids.len() ==> plan.steps[k + 2] == StepView::Do(
                Op::CloseDocument { id: ids[k], force },
            )
            &&& plan.steps.last() == StepView::Do(Op::ReportUnclosed)
        }),
{
    reveal_strlit(", ");
    assert(", "@ =~= seq![',', ' ']);
    assert(args.left() =~= args.words);
}

/// `buffer-close-others` closes every document but the shown one, in the editor's order, and
/// `buffer-close-others!` the same ones whatever is not saved.
pub proof fn lemma_close_others(
    editor: Editor,
    places: options::Places,
    args: ArgsView,
    i: int,
)
    requires
        editor.wf(),
        0 <= i < editor.documents.len(),
    ensures
        ({
            let plan = confirmed(Fun::BufferCloseOthers, editor, places, args);
            let forced = confirmed(Fun::ForceBufferCloseOthers, editor, places, args);
            let id = editor.documents[i].id;
            &&& plan.error is None && forced.error is None
            &&& plan.steps.len() == editor.documents.len() + 1
            &&& forced.steps.len() == editor.documents.len() + 1
            &&& plan.steps.first() == StepView::Do(Op::FlushWrites)
            &&& forced.steps.first() == StepView::Do(Op::FlushWrites)
            &&& i < editor.current ==> plan.steps[i + 1] == StepView::Do(
                Op::CloseDocument { id, force: false },
            )
            &&& i < editor.current ==> forced.steps[i + 1] == StepView::Do(
                Op::CloseDocument { id, force: true },
            )
            &&& i > editor.current ==> plan.steps[i] == StepView::Do(
                Op::CloseDocument { id, force: false },
            )
            &&& i > editor.current ==> forced.steps[i] == StepView::Do(
                Op::CloseDocument { id, force: true },
            )
            &&& plan.steps.last() == StepView::Do(Op::ReportUnclosed)
            &&& forced.steps.last() == StepView::Do(Op::ReportUnclosed)
        }),
{
    buffers::lemma_others_are_all_but_current(editor);
}

/// `buffer-close-all` closes every document, in the editor's order, and `buffer-close-all!` the
/// same ones whatever is not saved.
pub proof fn lemma_close_all(editor: Editor, places: options::Places, args: ArgsView, i: int)
    requires
        0 <= i < editor.documents.len(),
    ensures
        ({
            let plan = confirmed(Fun::BufferCloseAll, editor, places, args);
            let forced = confirmed(Fun::ForceBufferCloseAll, editor, places, args);
            let id = editor.documents[i].id;
            &&& plan.error is None && forced.error is None
            &&& plan.steps.len() == editor.documents.len() + 2
            &&& forced.steps.len() == editor.documents.len() + 2
            &&& plan.steps.first() == StepView::Do(Op::FlushWrites)
            &&& forced.steps.first() == StepView::Do(Op::FlushWrites)
            &&& plan.steps[i + 1] == StepView::Do(Op::CloseDocument { id, force: false })
            &&& forced.steps[i + 1] == StepView::Do(Op::CloseDocument { id, force: true })
            &&& plan.steps.last() == StepView::Do(Op::ReportUnclosed)
            &&& forced.steps.last() == StepView::Do(Op::ReportUnclosed)
        }),
{
}

/// What is done when documents have been closed: nothing if all went as asked, and otherwise the
/// first document that was kept because of its changes is shown, unless the shown one was kept.
pub proof fn lemma_kept_documents(closings: Seq<Closing>, current: DocumentId, first: int)
    ensures
        (forall|i: int|
            0 <= i < closings.len() ==> !((#[trigger] closings[i]).outcome is BufferModified))
            ==> buffers::closed_plan(closings, current) == (PlanView {
            steps: Seq::empty(),
            error: None,
        }),
        0 <= first < closings.len() && closings[first].outcome is BufferModified && (forall|i: int|
            0 <= i < first ==> !((#[trigger] closings[i]).outcome is BufferModified)) ==> {
            let plan = buffers::closed_plan(closings, current);
            let kept = exists|i: int|
                0 <= i < closings.len() && (#[trigger] closings[i]).outcome is BufferModified
                    && closings[i].id == current;
            &&& plan.error is Some
            &&& kept ==> plan.steps == Seq::<StepView>::empty()
            &&& !kept ==> plan.steps == seq![StepView::Do(Op::Switch(closings[first].id))]
        },
{
    let pred = |c: Closing| c.outcome is BufferModified;
    let kept = buffers::refused(closings);
    buffers::lemma_closed(closings, current);
    if kept.len() > 0 {
        buffers::lemma_filter_member(closings, pred, 0);
    }
    if 0 <= first < closings.len() && closings[first].outcome is BufferModified && (forall|i: int|
        0 <= i < first ==> !((#[trigger] closings[i]).outcome is BufferModified)) {
        lemma_first_kept(closings, first);
        let ids = buffers::closing_ids(kept);
        if ids.contains(current) {
            let k = choose|k: int| 0 <= k < ids.len() && ids[k] == current;
            buffers::lemma_filter_member(closings, pred, k);
            let i = choose|i: int| 0 <= i < closings.len() && closings[i] == kept[k];
            assert(closings[i].outcome is BufferModified && closings[i].id == current);
        } else if exists|i: int|
            0 <= i < closings.len() && (#[trigger] closings[i]).outcome is BufferModified
                && closings[i].id == current {
            let i = choose|i: int|
                0 <= i < closings.len() && (#[trigger] closings[i]).outcome is BufferModified
                    && closings[i].id == current;
            closings.lemma_filter_contains(pred, i);
            let k = choose|k: int| 0 <= k < kept.len() && kept[k] == closings[i];
            assert(ids[k] == current);
        }
    }
}

proof fn lemma_first_kept(closings: Seq<Closing>, first: int)
    requires
        0 <= first < closings.len(),
        closings[first].outcome is BufferModified,
        forall|i: int|
            0 <= i < first ==> !((#[trigger] closings[i]).outcome is BufferModified),
    ensures
        buffers::refused(closings).len() > 0,
        buffers::refused(closings)[0] == closings[first],
    decreases closings.len(),
{
    reveal(Seq::filter);
    if first < closings.len() - 1 {
        lemma_first_kept(closings.drop_last(), first);
    } else {
        let pred = |c: Closing| c.outcome is BufferModified;
        if closings.drop_last().filter(pred).len() > 0 {
            buffers::lemma_filter_member(closings.drop_last(), pred, 0);
        }
    }
}

/// The message about documents that were kept names them in the order in which they were asked
/// for, and counts them.
pub proof fn lemma_kept_names(closings: Seq<Closing>, closing: Closing, current: DocumentId)
    ensures
        buffers::closing_names(buffers::refused(Seq::empty())).len() == 0,
        buffers::closing_names(buffers::refused(closings.push(closing))) == (match closing.outcome {
            CloseOutcome::BufferModified(name) => buffers::closing_names(
                buffers::refused(closings),
            ).push(name@),
            _ => buffers::closing_names(buffers::refused(closings)),
        }),
        ({
            let names = buffers::closing_names(buffers::refused(closings));
            names.len() > 0 ==> buffers::closed_plan(closings, current).error == Some(
                text::decimal(names.len()) + (if names.len() == 1 {
                    " unsaved buffer remaining: "@
                } else {
                    " unsaved buffers remaining: "@
                }) + text::debug_list(names),
            )
        }),
{
    reveal(Seq::filter);
    assert(closings.push(closing).drop_last() =~= closings);
    assert(buffers::closing_names(buffers::refused(closings.push(closing))) =~= (
    match closing.outcome {
        CloseOutcome::BufferModified(name) => buffers::closing_names(
            buffers::refused(closings),
        ).push(name@),
        _ => buffers::closing_names(buffers::refused(closings)),
    }));
    reveal_strlit(" unsaved buffer");
    reveal_strlit(" remaining: ");
    reveal_strlit("s");
    reveal_strlit("");
    reveal_strlit(" unsaved buffer remaining: ");
    reveal_strlit(" unsaved buffers remaining: ");
    let names = buffers::closing_names(buffers::refused(closings));
    let number = text::decimal(names.len());
    let list = text::debug_list(names);
    let middle = " unsaved buffer"@ + text::plural(names.len()) + " remaining: "@;
    assert(" unsaved buffer"@ + ""@ + " remaining: "@ =~= " unsaved buffer remaining: "@);
    assert(" unsaved buffer"@ + "s"@ + " remaining: "@ =~= " unsaved buffers remaining: "@);
    assert(number + " unsaved buffer"@ + text::plural(names.len()) + " remaining: "@ + list
        =~= number + middle + list);
}

/// `open` looks for each of its arguments, in their order, and refuses to be without one.
pub proof fn lemma_open(editor: Editor, places: options::Places, args: ArgsView)
    requires
        args.taken == 0,
    ensures
        args.raw.len() == 0 ==> confirmed(Fun::Open, editor, places, args) == (PlanView {
            steps: Seq::empty(),
            error: Some(":open needs at least one argument"@),
        }),
        args.raw.len() > 0 ==> {
            let plan = confirmed(Fun::Open, editor, places, args);
            &&& plan.error is None
            &&& plan.steps.len() == args.words.len()
            &&& forall|k: int|
                0 <= k < args.words.len() ==> #[trigger] plan.steps[k] == StepView::LocateFile(
                    args.words[k].text,
                )
        },
{
    assert(args.left() =~= args.words);
}

/// A directory is shown in a picker. A file is opened in the view, with the cursor where the
/// argument said, in the middle of the view.
pub proof fn lemma_located(path: Seq<char>, row: usize, column: usize)
    ensures
        buffers::located_plan(path, true, row, column) == (PlanView {
            steps: seq![StepView::OpenPicker(path)],
            error: None,
        }),
        buffers::located_plan(path, false, row, column) == (PlanView {
            steps: seq![
                StepView::Open { path, split: Split::Replace },
                StepView::Do(Op::PlaceCursor { row, column }),
                StepView::Do(Op::AlignCenter),
            ],
            error: None,
        }),
{
}

/// `buffer-next` and `buffer-previous` go one document forward and back.
pub proof fn lemma_next_and_previous(editor: Editor, places: options::Places, args: ArgsView)
    ensures
        confirmed(Fun::BufferNext, editor, places, args) == (PlanView {
            steps: seq![
                StepView::Do(Op::GotoBuffer { direction: Direction::Forward, count: 1 }),
            ],
            error: None,
        }),
        confirmed(Fun::BufferPrevious, editor, places, args) == (PlanView {
            steps: seq![
                StepView::Do(Op::GotoBuffer { direction: Direction::Backward, count: 1 }),
            ],
            error: None,
        }),
{
}

/// Leaving the editor closes every view, in the editor's order, if that is forced or nothing is
/// unsaved; otherwise it is refused as `quit` is in the last view.
pub proof fn lemma_quit_views(editor: Editor, force: bool)
    requires
        editor.wf(),
    ensures
        force || (forall|i: int|
            0 <= i < editor.documents.len() ==> !(#[trigger] editor.documents[i]).modified) ==> {
            let plan = save::quit_views_plan(editor, force);
            &&& plan.error is None
            &&& plan.steps.len() == editor.views.len()
            &&& forall|k: int|
                0 <= k < editor.views.len() ==> #[trigger] plan.steps[k] == StepView::Do(
                    Op::CloseView(editor.views[k].id),
                )
        },
        !force && (exists|i: int|
            0 <= i < editor.documents.len() && (#[trigger] editor.documents[i]).modified)
            ==> save::quit_views_plan(editor, force).error is Some && save::quit_views_plan(
            editor,
            force,
        ) == buffers::remaining_plan(editor),
{
    buffers::lemma_remaining(editor);
}

} // verus!
