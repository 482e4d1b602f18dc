//! What holds of the commands of language servers and of what the syntax tree tells.
use vstd::prelude::*;

use crate::args::ArgsView;
use crate::command::Fun;
use crate::editor::{CommandServer, Document, DocumentId, Editor, ServerId};
use crate::law::closing;
use crate::law::saving::lemma_filter_picked;
use crate::options;
use crate::plan::{Op, PlanView, StepView};
use crate::servers;
use crate::servers::ServerCommandView;
use crate::syntax;
use crate::syntax::HighlightEvent;
use crate::text;

verus! {

/// The commands on offer are those of each server in turn, in the server's own order.
pub proof fn lemma_offered(servers: Seq<CommandServer>, more: Seq<CommandServer>, k: int)
    ensures
        servers::offered(Seq::empty()).len() == 0,
        servers::offered(servers + more) == servers::offered(servers) + servers::offered(more),
        servers.len() == 1 ==> servers::offered(servers).len() == servers[0].commands.len(),
        servers.len() == 1 && 0 <= k < servers[0].commands.len() ==> servers::offered(servers)[k]
            == (ServerCommandView {
            server: servers[0].server,
            command: servers[0].commands[k]@,
        }),
    decreases more.len(),
{
    if more.len() > 0 {
        lemma_offered(servers, more.drop_last(), k);
        assert((servers + more).drop_last() =~= servers + more.drop_last());
        assert(servers::offered(servers + more) =~= servers::offered(servers) + servers::offered(
            more,
        ));
    } else {
        assert(servers + more =~= servers);
        assert(servers::offered(servers + more) =~= servers::offered(servers) + servers::offered(
            more,
        ));
    }
    if servers.len() == 1 {
        assert(servers.drop_last() =~= Seq::empty());
        assert(servers::offered(servers.drop_last()) =~= Seq::empty());
        assert(servers::offered(servers) == servers::offered(servers.drop_last())
            + servers::offered_by(servers.last()));
        assert(servers::offered(servers) =~= servers::offered_by(servers[0]));
    }
}

proof fn lemma_offering_filter(commands: Seq<ServerCommandView>, name: Seq<char>)
    ensures
        servers::offering(commands, name) == commands.filter(
            |c: ServerCommandView| c.command == name,
        ).map_values(|c: ServerCommandView| c.server),
    decreases commands.len(),
{
    reveal(Seq::filter);
    if commands.len() > 0 {
        lemma_offering_filter(commands.drop_last(), name);
    }
    assert(servers::offering(commands, name) =~= commands.filter(
        |c: ServerCommandView| c.command == name,
    ).map_values(|c: ServerCommandView| c.server));
}

proof fn lemma_offering_two(commands: Seq<ServerCommandView>, name: Seq<char>, i: int, j: int)
    requires
        0 <= i < j < commands.len(),
        commands[i].command == name,
        commands[j].command == name,
    ensures
        servers::offering(commands, name).len() >= 2,
    decreases commands.len(),
{
    let first = commands.drop_last();
    if j < first.len() {
        lemma_offering_two(first, name, i, j);
    } else {
        lemma_offering_one(first, name, i);
    }
}

proof fn lemma_offering_one(commands: Seq<ServerCommandView>, name: Seq<char>, i: int)
    requires
        0 <= i < commands.len(),
        commands[i].command == name,
    ensures
        servers::offering(commands, name).len() >= 1,
    decreases commands.len(),
{
    if i < commands.len() - 1 {
        lemma_offering_one(commands.drop_last(), name, i);
    }
}

/// `lsp-workspace-command` lets a command be picked if nothing is typed behind it. Otherwise the
/// command of that name is executed by the server that offers it, if it is offered once; if it is
/// offered by none, or more than once, that is said and nothing is executed.
pub proof fn lemma_workspace_command(
    editor: Editor,
    places: options::Places,
    args: ArgsView,
    i: int,
    j: int,
)
    ensures
        ({
            let plan = closing::confirmed(Fun::LspWorkspaceCommand, editor, places, args);
            let commands = servers::offered(editor.command_servers@);
            &&& args.raw.len() == 0 ==> plan == (PlanView {
                steps: seq![StepView::Do(Op::PickWorkspaceCommand)],
                error: None,
            })
            &&& args.raw.len() > 0 && 0 <= i < commands.len() && commands[i].command == args.raw && (
            forall|k: int|
                0 <= k < commands.len() && (#[trigger] commands[k]).command == args.raw ==> k == i)
                ==> plan == (PlanView {
                steps: seq![
                    StepView::ExecuteCommand { server: commands[i].server, command: args.raw },
                ],
                error: None,
            })
            &&& args.raw.len() > 0 && 0 <= i < j < commands.len() && commands[i].command == args.raw
                && commands[j].command == args.raw ==> plan == (PlanView {
                steps: seq![
                    StepView::SetStatus(
                        seq!['`'] + args.raw + "` supported by multiple language servers"@,
                    ),
                ],
                error: None,
            })
            &&& args.raw.len() > 0 && (forall|k: int|
                0 <= k < commands.len() ==> (#[trigger] commands[k]).command != args.raw) ==> plan
                == (PlanView {
                steps: seq![
                    StepView::SetStatus(
                        seq!['`'] + args.raw + "` is not supported for any language server"@,
                    ),
                ],
                error: None,
            })
        }),
{
    reveal_strlit("`");
    assert("`"@ =~= seq!['`']);
    let commands = servers::offered(editor.command_servers@);
    let name = args.raw;
    let pred = |c: ServerCommandView| c.command == name;
    lemma_offering_filter(commands, name);
    if 0 <= i < commands.len() && commands[i].command == name && (forall|k: int|
        0 <= k < commands.len() && (#[trigger] commands[k]).command == name ==> k == i) {
        assert(seq![i][0] == i);
        lemma_filter_picked(commands, pred, seq![i]);
    }
    if 0 <= i < j < commands.len() && commands[i].command == name && commands[j].command == name {
        lemma_offering_two(commands, name, i, j);
    }
    if forall|k: int| 0 <= k < commands.len() ==> (#[trigger] commands[k]).command != name {
        lemma_filter_picked(commands, pred, Seq::empty());
    }
}

/// What is picked is executed by the server that it was picked of.
pub proof fn lemma_picked_command(picked: ServerCommandView)
    ensures
        servers::command_picked_plan(picked) == (PlanView {
            steps: seq![
                StepView::ExecuteCommand { server: picked.server, command: picked.command },
            ],
            error: None,
        }),
{
}

proof fn lemma_refresh_filter(documents: Seq<Document>)
    ensures
        servers::refresh_each(documents) == documents.filter(
            |d: Document| d.configured_servers is Some && d.configured_servers->0@.len() > 0,
        ).map_values(|d: Document| StepView::Do(Op::RefreshServers(d.id))),
    decreases documents.len(),
{
    reveal(Seq::filter);
    if documents.len() > 0 {
        lemma_refresh_filter(documents.drop_last());
    }
    assert(servers::refresh_each(documents) =~= documents.filter(
        |d: Document| d.configured_servers is Some && d.configured_servers->0@.len() > 0,
    ).map_values(|d: Document| StepView::Do(Op::RefreshServers(d.id))));
}

/// `lsp-restart` restarts the servers and then starts them anew for every document whose language
/// has some, in the editor's order. It is refused where the shown document has no language.
pub proof fn lemma_restart(
    editor: Editor,
    places: options::Places,
    args: ArgsView,
    picked: Seq<int>,
)
    requires
        editor.wf(),
        forall|k: int, l: int|
            0 <= k < l < picked.len() ==> #[trigger] picked[k] < #[trigger] picked[l],
        forall|k: int|
            0 <= k < picked.len() ==> 0 <= #[trigger] picked[k] < editor.documents@.len()
                && editor.documents@[picked[k]].configured_servers is Some
                && editor.documents@[picked[k]].configured_servers->0@.len() > 0,
        forall|i: int|
            0 <= i < editor.documents@.len() && (
            #[trigger] editor.documents@[i]).configured_servers is Some
                && editor.documents@[i].configured_servers->0@.len() > 0 ==> picked.contains(i),
    ensures
        ({
            let plan = closing::confirmed(Fun::LspRestart, editor, places, args);
            let document = editor.documents[editor.current as int];
            &&& document.configured_servers is None ==> plan == (PlanView {
                steps: Seq::empty(),
                error: Some("LSP not defined for the current document"@),
            })
            &&& document.configured_servers is Some ==> {
                &&& plan.error is None
                &&& plan.steps.len() == picked.len() + 1
                &&& plan.steps[0] == StepView::Do(Op::RestartServers)
                &&& forall|k: int|
                    0 <= k < picked.len() ==> #[trigger] plan.steps[k + 1] == StepView::Do(
                        Op::RefreshServers(editor.documents[picked[k]].id),
                    )
            }
        }),
{
    lemma_refresh_filter(editor.documents@);
    lemma_filter_picked(
        editor.documents@,
        |d: Document| d.configured_servers is Some && d.configured_servers->0@.len() > 0,
        picked,
    );
}

proof fn lemma_stop_each_at(documents: Seq<Document>, names: Seq<Seq<char>>, k: int, i: int)
    requires
        0 <= k < names.len(),
    ensures
        ({
            let steps = servers::stop_each(documents, names);
            let m = documents.len() + 1;
            &&& steps.len() == names.len() * m
            &&& 0 <= k * m < steps.len()
            &&& steps[k * m] == StepView::StopServer(names[k])
            &&& 0 <= i < documents.len() ==> 0 <= k * m + 1 + i < steps.len() && steps[k * m + 1 + i]
                == (StepView::DetachServer { doc: documents[i].id, name: names[k] })
        }),
    decreases names.len(),
{
    let m = documents.len() + 1;
    let first = names.drop_last();
    let n = first.len();
    let before = servers::stop_each(documents, first);
    let steps = servers::stop_each(documents, names);
    if n > 0 {
        lemma_stop_each_at(
            documents,
            first,
            if k < n {
                k
            } else {
                0
            },
            i,
        );
    } else {
        assert(before =~= Seq::empty());
        assert(n * m == 0) by (nonlinear_arith)
            requires
                n == 0,
        ;
    }
    assert(before.len() == n * m);
    assert((n + 1) * m == n * m + m) by (nonlinear_arith);
    if k < n {
        assert(k * m + m <= n * m && 0 <= k * m) by (nonlinear_arith)
            requires
                0 <= k < n,
                m > 0,
        ;
    } else {
        assert(0 <= n * m) by (nonlinear_arith)
            requires
                n >= 0,
                m > 0,
        ;
    }
}

/// `lsp-stop` stops each server of the shown document, one after the other, and takes each of them
/// from every document before it stops the next.
pub proof fn lemma_stop(
    editor: Editor,
    places: options::Places,
    args: ArgsView,
    k: int,
    i: int,
)
    requires
        editor.wf(),
        0 <= i < editor.documents.len(),
    ensures
        ({
            let plan = closing::confirmed(Fun::LspStop, editor, places, args);
            let names = editor.documents[editor.current as int].servers;
            let m = editor.documents.len() + 1;
            &&& plan.error is None
            &&& plan.steps.len() == names.len() * m
            &&& 0 <= k < names.len() ==> plan.steps[k * m] == StepView::StopServer(names[k]@)
            &&& 0 <= k < names.len() ==> plan.steps[k * m + 1 + i] == (StepView::DetachServer {
                doc: editor.documents[i].id,
                name: names[k]@,
            })
        }),
{
    let names = text::views(editor.documents[editor.current as int].servers@);
    let m = editor.documents.len() + 1;
    if 0 <= k < names.len() {
        lemma_stop_each_at(editor.documents@, names, k, i);
    } else if names.len() > 0 {
        lemma_stop_each_at(editor.documents@, names, 0, i);
    } else {
        assert(names.len() * m == 0) by (nonlinear_arith)
            requires
                names.len() == 0,
        ;
    }
}

/// A document that lost a server loses the server's diagnostics and its inlay hints; one that had
/// none of the name stays as it is.
pub proof fn lemma_detached(doc: DocumentId, server: ServerId)
    ensures
        servers::server_detached_plan(doc, Some(server)) == (PlanView {
            steps: seq![
                StepView::Do(Op::ClearDiagnostics { doc, server }),
                StepView::Do(Op::ResetInlayHints(doc)),
                StepView::Do(Op::OutdateInlayHints(doc)),
            ],
            error: None,
        }),
        servers::server_detached_plan(doc, None) == (PlanView {
            steps: Seq::empty(),
            error: None,
        }),
{
}

/// The lines that are seen are the lines of the text that the view's height covers. A view behind
/// the end of a text sees its last line.
pub proof fn lemma_visible_lines(row: int, height: int, lines: int, line: int)
    requires
        row >= 0,
        height >= 0,
        lines >= 0,
    ensures
        ({
            let (from, to) = syntax::visible_lines(row, height, lines);
            &&& row < lines && height > 0 ==> (from <= line < to <==> row <= line < row + height
                && line < lines)
            &&& row < lines && height == 0 && row > 0 ==> from == to == row
            &&& row == 0 && height == 0 ==> from == 0 && to == 1
            &&& lines > 0 && row >= lines ==> from == lines - 1 && to == lines
            &&& lines == 0 ==> from == 0 && to == 1
        }),
{
}

proof fn lemma_last_started(
    events: Seq<HighlightEvent>,
    started: int,
)
    requires
        0 <= started < events.len(),
        events[started] is HighlightStart,
        forall|i: int| started < i < events.len() ==> !(#[trigger] events[i] is HighlightStart),
    ensures
        syntax::last_started(events) == Some(events[started]->HighlightStart_0),
    decreases events.len(),
{
    if started < events.len() - 1 {
        assert(!(events[events.len() - 1] is HighlightStart));
        let first = events.drop_last();
        assert forall|i: int| started < i < first.len() implies !(#[trigger] first[i] is HighlightStart) by {
            assert(!(events[i] is HighlightStart));
        }
        lemma_last_started(first, started);
    }
}

proof fn lemma_none_started(events: Seq<HighlightEvent>)
    requires
        forall|i: int| 0 <= i < events.len() ==> !(#[trigger] events[i] is HighlightStart),
    ensures
        syntax::last_started(events) is None,
    decreases events.len(),
{
    if events.len() > 0 {
        assert(!(events[events.len() - 1] is HighlightStart));
        let first = events.drop_last();
        assert forall|i: int| 0 <= i < first.len() implies !(#[trigger] first[i] is HighlightStart) by {
            assert(!(events[i] is HighlightStart));
        }
        lemma_none_started(first);
    }
}

/// The highlight of a part of the text is the one that started last before the part first came,
/// ended or not. There is none if none started before it, or if the part does not come.
pub proof fn lemma_highlight(
    events: Seq<HighlightEvent>,
    start: usize,
    end: usize,
    came: int,
    started: int,
)
    ensures
        ({
            let source = HighlightEvent::Source { start, end };
            let first = 0 <= came < events.len() && events[came] == source && (forall|i: int|
                0 <= i < came ==> #[trigger] events[i] != source);
            &&& !events.contains(source) ==> syntax::highlight_of(events, start, end) is None
            &&& first && 0 <= started < came && events[started] is HighlightStart && (forall|i: int|
                started < i < came ==> !(#[trigger] events[i] is HighlightStart))
                ==> syntax::highlight_of(events, start, end) == Some(
                events[started]->HighlightStart_0,
            )
            &&& first && (forall|i: int|
                0 <= i < came ==> !(#[trigger] events[i] is HighlightStart))
                ==> syntax::highlight_of(events, start, end) is None
        }),
{
    let source = HighlightEvent::Source { start, end };
    if 0 <= came < events.len() && events[came] == source && (forall|i: int|
        0 <= i < came ==> #[trigger] events[i] != source) {
        events.index_of_first_ensures(source);
        let found = events.index_of_first(source)->0;
        if found < came {
            assert(events[found] != source);
        }
        assert(found == came);
        let before = events.take(came);
        if 0 <= started < came && events[started] is HighlightStart && (forall|i: int|
            started < i < came ==> !(#[trigger] events[i] is HighlightStart)) {
            assert forall|i: int| started < i < before.len() implies !(#[trigger] before[i] is HighlightStart) by {
                assert(!(events[i] is HighlightStart));
            }
            lemma_last_started(before, started);
        }
        if forall|i: int| 0 <= i < came ==> !(#[trigger] events[i] is HighlightStart) {
            assert forall|i: int| 0 <= i < before.len() implies !(#[trigger] before[i] is HighlightStart) by {
                assert(!(events[i] is HighlightStart));
            }
            lemma_none_started(before);
        }
    }
}

} // verus!
