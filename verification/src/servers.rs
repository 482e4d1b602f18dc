//! Language servers.
use vstd::prelude::*;

use crate::args::{Args, ArgsView, PromptEvent};
use crate::buffers;
use crate::editor::{CommandServer, Document, DocumentId, Editor, ServerId};
use crate::plan::{Action, Op, Plan, PlanView, StepView};
use crate::text;

verus! {

/// A workspace command that a language server offers.
#[derive(Debug, PartialEq, Eq)]
pub struct ServerCommand {
    /// The server.
    pub server: ServerId,
    /// The command's name.
    pub command: String,
}

/// A workspace command that a language server offers, as a mathematical value.
#[verifier::ext_equal]
pub struct ServerCommandView {
    /// The server.
    pub server: ServerId,
    /// The command's name.
    pub command: Seq<char>,
}

impl View for ServerCommand {
    type V = ServerCommandView;

    open spec fn view(&self) -> ServerCommandView {
        ServerCommandView { server: self.server, command: self.command@ }
    }
}

/// The views of workspace commands.
pub open spec fn command_views(commands: Seq<ServerCommand>) -> Seq<ServerCommandView> {
    commands.map_values(|c: ServerCommand| c@)
}

/// What a language server offers.
pub open spec fn offered_by(server: CommandServer) -> Seq<ServerCommandView> {
    text::views(server.commands@).map_values(
        |command: Seq<char>| ServerCommandView { server: server.server, command },
    )
}

/// What language servers offer, one server after the other.
pub open spec fn offered(servers: Seq<CommandServer>) -> Seq<ServerCommandView>
    decreases servers.len(),
{
    if servers.len() == 0 {
        Seq::empty()
    } else {
        offered(servers.drop_last()) + offered_by(servers.last())
    }
}

/// The workspace commands of the language servers of the document in focus. These are what the
/// user picks from, each shown by its name.
pub fn offered_commands(editor: &Editor) -> (r: Vec<ServerCommand>)
    ensures
        command_views(r@) == offered(editor.command_servers@),
{
    let ghost all = editor.command_servers@;
    let mut out: Vec<ServerCommand> = Vec::new();
    let mut i: usize = 0;
    assert(command_views(out@) =~= offered(all.take(0)));
    while i < editor.command_servers.len()
        invariant
            all == editor.command_servers@,
            i <= all.len(),
            command_views(out@) == offered(all.take(i as int)),
        decreases all.len() - i,
    {
        assert(all.take(i + 1).drop_last() =~= all.take(i as int));
        let server = &editor.command_servers[i];
        let ghost before = command_views(out@);
        let mut j: usize = 0;
        assert(before + offered_by(*server).take(0) =~= before);
        while j < server.commands.len()
            invariant
                j <= server.commands.len(),
                command_views(out@) == before + offered_by(*server).take(j as int),
            decreases server.commands.len() - j,
        {
            let ghost so_far = command_views(out@);
            out.push(ServerCommand { server: server.server, command: server.commands[j].clone() });
            assert(command_views(out@) =~= so_far.push(offered_by(*server)[j as int]));
            j = j + 1;
            assert(command_views(out@) =~= before + offered_by(*server).take(j as int));
        }
        assert(offered_by(*server).take(j as int) =~= offered_by(*server));
        i = i + 1;
    }
    assert(all.take(i as int) =~= all);
    out
}

/// What is done with the workspace command that the user has picked: its own server executes it.
pub open spec fn command_picked_plan(picked: ServerCommandView) -> PlanView {
    PlanView::of(
        seq![Action::ExecuteCommand { server: picked.server, command: picked.command }],
    )
}

/// Goes on with `lsp_workspace_command` when the user has picked one of what was offered.
pub fn command_picked(picked: &ServerCommand) -> (r: Plan)
    ensures
        r@ == command_picked_plan(picked@),
{
    Plan::one(Action::ExecuteCommand { server: picked.server, command: picked.command.clone() })
}

/// The servers that offer a command, in turn.
pub open spec fn offering(commands: Seq<ServerCommandView>, name: Seq<char>) -> Seq<ServerId>
    decreases commands.len(),
{
    if commands.len() == 0 {
        Seq::empty()
    } else if commands.last().command == name {
        offering(commands.drop_last(), name).push(commands.last().server)
    } else {
        offering(commands.drop_last(), name)
    }
}

/// What `lsp-workspace-command` does.
pub open spec fn lsp_workspace_command_plan(
    editor: Editor,
    args: ArgsView,
    event: PromptEvent,
) -> PlanView {
    let servers = offering(offered(editor.command_servers@), args.raw);
    buffers::on_validate(
        event,
        if args.is_empty() {
            PlanView::doing(Op::PickWorkspaceCommand)
        } else if servers.len() == 1 {
            PlanView::of(seq![Action::ExecuteCommand { server: servers[0], command: args.raw }])
        } else if servers.len() == 0 {
            PlanView::status("`"@ + args.raw + "` is not supported for any language server"@)
        } else {
            PlanView::status("`"@ + args.raw + "` supported by multiple language servers"@)
        },
    )
}

/// Lets a language server execute a workspace command, which the user picks when there is no
/// argument.
pub fn lsp_workspace_command(editor: &Editor, args: Args, event: PromptEvent) -> (r: Plan)
    ensures
        r@ == lsp_workspace_command_plan(*editor, args@, event),
{
    if event != PromptEvent::Validate {
        return Plan::nothing();
    }
    if args.is_empty() {
        return Plan::doing(Op::PickWorkspaceCommand);
    }
    let command = args.raw;
    let commands = offered_commands(editor);
    let ghost all = command_views(commands@);
    let mut servers: Vec<ServerId> = Vec::new();
    let mut i: usize = 0;
    while i < commands.len()
        invariant
            all == command_views(commands@),
            i <= all.len(),
            servers@ == offering(all.take(i as int), command@),
        decreases all.len() - i,
    {
        assert(all.take(i + 1).drop_last() =~= all.take(i as int));
        assert(all[i as int] == commands@[i as int]@);
        if text::same(commands[i].command.as_str(), command.as_str()) {
            servers.push(commands[i].server);
        }
        i = i + 1;
    }
    assert(all.take(i as int) =~= all);
    if servers.len() == 1 {
        return Plan::one(Action::ExecuteCommand { server: servers[0], command });
    }
    let mut message = "`".to_owned();
    message.append(command.as_str());
    if servers.len() == 0 {
        message.append("` is not supported for any language server");
    } else {
        message.append("` supported by multiple language servers");
    }
    Plan::status(message.as_str())
}

/// A workspace command that only one server offers is executed when its name is typed as it is
/// when it is picked.
pub proof fn lemma_typed_as_picked(editor: Editor, args: ArgsView, picked: ServerCommandView)
    requires
        !args.is_empty(),
        args.raw == picked.command,
        offering(offered(editor.command_servers@), picked.command) == seq![picked.server],
    ensures
        lsp_workspace_command_plan(editor, args, PromptEvent::Validate) == command_picked_plan(
            picked,
        ),
{
}

/// Whether a document's language is configured with a language server.
pub open spec fn has_configured_server(document: Document) -> bool {
    match document.configured_servers {
        Some(servers) => servers@.len() > 0,
        None => false,
    }
}

/// The steps that connect documents with their language servers anew.
pub open spec fn refresh_each(documents: Seq<Document>) -> Seq<StepView>
    decreases documents.len(),
{
    if documents.len() == 0 {
        Seq::empty()
    } else if has_configured_server(documents.last()) {
        refresh_each(documents.drop_last()).push(
            Action::Do(Op::RefreshServers(documents.last().id)),
        )
    } else {
        refresh_each(documents.drop_last())
    }
}

/// What `lsp-restart` does.
pub open spec fn lsp_restart_plan(editor: Editor, event: PromptEvent) -> PlanView {
    buffers::on_validate(
        event,
        if editor.doc_spec().configured_servers is None {
            PlanView::failing("LSP not defined for the current document"@)
        } else {
            PlanView::doing(Op::RestartServers).followed_by(
                PlanView::of(refresh_each(editor.documents@)),
            )
        },
    )
}

/// Starts the language servers of the document in focus anew, and connects with their language
/// servers all documents that have some.
pub fn lsp_restart(editor: &Editor, _args: Args, event: PromptEvent) -> (r: Plan)
    requires
        editor.wf(),
    ensures
        r@ == lsp_restart_plan(*editor, event),
{
    if event != PromptEvent::Validate {
        return Plan::nothing();
    }
    if editor.doc().configured_servers.is_none() {
        return Plan::failing("LSP not defined for the current document");
    }
    let ghost all = editor.documents@;
    let mut plan = Plan::nothing();
    let mut i: usize = 0;
    while i < editor.documents.len()
        invariant
            all == editor.documents@,
            i <= all.len(),
            plan@ == PlanView::of(refresh_each(all.take(i as int))),
        decreases all.len() - i,
    {
        assert(all.take(i + 1).drop_last() =~= all.take(i as int));
        let document = &editor.documents[i];
        if let Some(servers) = &document.configured_servers {
            if servers.len() > 0 {
                plan.push(Action::Do(Op::RefreshServers(document.id)));
            }
        }
        i = i + 1;
    }
    assert(all.take(i as int) =~= all);
    Plan::doing(Op::RestartServers).followed_by(plan)
}

/// The steps that disconnect documents from a language server.
pub open spec fn detach_each(documents: Seq<Document>, name: Seq<char>) -> Seq<StepView> {
    documents.map_values(|d: Document| Action::DetachServer { doc: d.id, name })
}

/// The steps that stop language servers.
pub open spec fn stop_each(documents: Seq<Document>, names: Seq<Seq<char>>) -> Seq<StepView>
    decreases names.len(),
{
    if names.len() == 0 {
        Seq::empty()
    } else {
        stop_each(documents, names.drop_last()).push(Action::StopServer(names.last()))
            + detach_each(documents, names.last())
    }
}

/// What `lsp-stop` does.
pub open spec fn lsp_stop_plan(editor: Editor, event: PromptEvent) -> PlanView {
    buffers::on_validate(
        event,
        PlanView::of(stop_each(editor.documents@, text::views(editor.doc_spec().servers@))),
    )
}

/// Stops the language servers of the document in focus and disconnects all documents from them.
pub fn lsp_stop(editor: &Editor, _args: Args, event: PromptEvent) -> (r: Plan)
    requires
        editor.wf(),
    ensures
        r@ == lsp_stop_plan(*editor, event),
{
    if event != PromptEvent::Validate {
        return Plan::nothing();
    }
    let ghost documents = editor.documents@;
    let servers = &editor.doc().servers;
    let ghost names = text::views(servers@);
    let mut plan = Plan::nothing();
    let mut i: usize = 0;
    while i < servers.len()
        invariant
            documents == editor.documents@,
            names == text::views(servers@),
            i <= servers.len(),
            plan@ == PlanView::of(stop_each(documents, names.take(i as int))),
        decreases servers.len() - i,
    {
        assert(names.take(i + 1).drop_last() =~= names.take(i as int));
        let ghost name = names[i as int];
        plan.push(Action::StopServer(servers[i].clone()));
        let ghost stopped = plan@.steps;
        let mut j: usize = 0;
        while j < editor.documents.len()
            invariant
                documents == editor.documents@,
                i < servers.len(),
                name == servers@[i as int]@,
                j <= documents.len(),
                plan@ == PlanView::of(stopped + detach_each(documents.take(j as int), name)),
            decreases documents.len() - j,
        {
            let doc = editor.documents[j].id;
            let ghost before = plan@.steps;
            plan.push(Action::DetachServer { doc, name: servers[i].clone() });
            j = j + 1;
            assert(plan@.steps =~= stopped + detach_each(documents.take(j as int), name));
        }
        assert(documents.take(j as int) =~= documents);
        i = i + 1;
    }
    assert(names.take(i as int) =~= names);
    plan
}

/// What is done when a document has been disconnected from a language server.
pub open spec fn server_detached_plan(doc: DocumentId, server: Option<ServerId>) -> PlanView {
    match server {
        Some(server) => PlanView::of(
            seq![
                Action::Do(Op::ClearDiagnostics { doc, server }),
                Action::Do(Op::ResetInlayHints(doc)),
                Action::Do(Op::OutdateInlayHints(doc)),
            ],
        ),
        None => PlanView::nothing(),
    }
}

/// Goes on with `lsp_stop` when a document has been disconnected from a language server, if that
/// served it.
pub fn server_detached(doc: DocumentId, server: Option<ServerId>) -> (r: Plan)
    ensures
        r@ == server_detached_plan(doc, server),
{
    match server {
        Some(server) => {
            let mut plan = Plan::doing(Op::ClearDiagnostics { doc, server });
            plan.push(Action::Do(Op::ResetInlayHints(doc)));
            plan.push(Action::Do(Op::OutdateInlayHints(doc)));
            assert(plan@.steps =~= server_detached_plan(doc, Some(server)).steps);
            plan
        },
        None => Plan::nothing(),
    }
}

} // verus!
