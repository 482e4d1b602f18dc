use typed_commands::args::{Args, PromptEvent, Word};
use typed_commands::change::LineEnding;
use typed_commands::clipboard::{
    clear_register, diagnostics_yanked, paste_clipboard_after, paste_clipboard_before,
    paste_primary_clipboard_after, paste_primary_clipboard_before, register_cleared,
    replace_selections_with_clipboard, replace_selections_with_primary_clipboard,
    show_clipboard_provider, yank_diagnostic, yank_joined, yank_joined_to_clipboard,
    yank_joined_to_primary_clipboard, yank_main_selection_to_clipboard,
    yank_main_selection_to_primary_clipboard, Diagnostic,
};
use typed_commands::command::{typable_command_list, Fun};
use typed_commands::editor::{
    CommandServer, Debugger, Document, DocumentId, Editor, IndentStyle, Place, ServerId, ViewId,
    ViewInfo, ViewRef,
};
use typed_commands::plan::{
    next_step, Action, Directory, KnownFile, Next, Op, Paste, Plan, Position, ShellBehavior, Split,
    Step,
};
use typed_commands::run::run;
use typed_commands::servers::{
    command_picked, lsp_restart, lsp_stop, lsp_workspace_command, offered_commands,
    server_detached, ServerCommand,
};
use typed_commands::shell::{
    append_output, insert_output, pipe, pipe_to, run_shell_command, shell_ran,
};
use typed_commands::syntax::{
    highlight_at, highlight_lines, highlight_shown, scopes_shown, subtree_shown,
    tree_sitter_highlight_name, tree_sitter_scopes, tree_sitter_subtree, HighlightEvent,
};
use typed_commands::view::{
    change_current_directory, debug_eval, debug_remote, debug_start, directory_changed,
    goto_line_number, hsplit, hsplit_new, new_file, open_config, open_log, open_workspace_config,
    redraw, refresh_config, show_current_directory, show_directory, theme, theme_chosen,
    theme_previewed, tutor, vsplit, vsplit_new,
};

fn args(raw: &str) -> Args {
    let mut words = Vec::new();
    let mut rest = raw.trim_start();
    while !rest.is_empty() {
        let end = rest.find(' ').unwrap_or(rest.len());
        let text = &rest[..end];
        rest = rest[end..].trim_start();
        words.push(Word {
            text: text.to_string(),
            tail: rest.to_string(),
            path: text.split('/').map(|part| part.to_string()).collect(),
        });
    }
    Args { raw: raw.trim_start().to_string(), words, taken: 0 }
}

fn document(number: u64, path: Option<&str>, modified: bool) -> Document {
    let parts = |path: &str| path.split('/').map(|part| part.to_string()).collect::<Vec<_>>();
    Document {
        id: DocumentId { number },
        path: path.map(|path| parts(&format!("/work/{path}"))),
        relative_path: path.map(parts),
        display_name: path.unwrap_or("[scratch]").to_string(),
        modified,
        formatter: false,
        auto_formatter: false,
        indent_style: IndentStyle::Spaces(4),
        line_ending: LineEnding::LF,
        encoding: "UTF-8".to_string(),
        language_name: Some("rust".to_string()),
        text_width: None,
        configured_servers: None,
        servers: Vec::new(),
        views: Vec::new(),
    }
}

fn editor(documents: Vec<Document>) -> Editor {
    let view = ViewId { number: 1 };
    let doc = documents[0].id;
    Editor {
        documents,
        current: 0,
        views: vec![ViewInfo { id: view, doc }],
        current_view: view,
        insert_final_newline: true,
        auto_format: true,
        unicode_lines: false,
        true_color: false,
        text_width: 80,
        selected_register: None,
        clipboard_provider: "none".to_string(),
        theme_name: "default".to_string(),
        last_cwd: None,
        last_selection: false,
        debugger: None,
        command_servers: Vec::new(),
        default_language: "text".to_string(),
    }
}

fn place(editor: &Editor) -> Place {
    Place { doc: editor.documents[editor.current].id, view: ViewRef::Id(editor.current_view) }
}

const OK: PromptEvent = PromptEvent::Validate;

fn one() -> Editor {
    editor(vec![document(1, Some("a.rs"), false)])
}

fn doing(ops: &[Op]) -> Vec<Step> {
    ops.iter().map(|op| Action::Do(*op)).collect()
}

fn step(plan: Plan) -> Step {
    assert_eq!(plan.error, None);
    assert_eq!(plan.steps.len(), 1);
    plan.steps.into_iter().next().unwrap()
}

fn texts(list: &[&str]) -> Vec<String> {
    list.iter().map(|text| text.to_string()).collect()
}

#[test]
fn views_are_split() {
    let editor = one();
    let op = |plan| match step(plan) {
        Action::Do(op) => op,
        other => panic!("{other:?}"),
    };
    assert_eq!(op(new_file(&editor, Args::empty(), OK)), Op::NewFile(Split::Replace));
    assert_eq!(op(vsplit_new(&editor, Args::empty(), OK)), Op::NewFile(Split::Vertical));
    assert_eq!(op(hsplit_new(&editor, Args::empty(), OK)), Op::NewFile(Split::Horizontal));
    assert_eq!(op(vsplit(&editor, Args::empty(), OK)), Op::SplitView(Split::Vertical));
    assert_eq!(op(hsplit(&editor, Args::empty(), OK)), Op::SplitView(Split::Horizontal));
    assert_eq!(
        hsplit(&editor, args("a b"), OK).steps,
        vec![
            Action::Open { path: "a".to_string(), split: Split::Horizontal },
            Action::Open { path: "b".to_string(), split: Split::Horizontal },
        ]
    );
    assert_eq!(op(open_config(&editor, Args::empty(), OK)), Op::OpenKnown(KnownFile::Config));
    assert_eq!(
        op(open_workspace_config(&editor, Args::empty(), OK)),
        Op::OpenKnown(KnownFile::WorkspaceConfig)
    );
    assert_eq!(op(open_log(&editor, Args::empty(), OK)), Op::OpenKnown(KnownFile::Log));
    assert_eq!(op(refresh_config(&editor, Args::empty(), OK)), Op::RefreshConfig);
    assert_eq!(op(redraw(&editor, Args::empty(), OK)), Op::Redraw);
    assert_eq!(
        tutor(&editor, Args::empty(), OK).steps,
        doing(&[Op::OpenKnown(KnownFile::Tutor), Op::UnsetPath])
    );
}

#[test]
fn lines_are_previewed() {
    let mut editor = one();
    let scroll = Op::EnsureCursorInView(place(&editor));
    let update = PromptEvent::Update;
    assert_eq!(
        goto_line_number(&editor, args("3"), update).steps,
        doing(&[Op::KeepSelection, Op::GotoLine(Some(3)), scroll])
    );
    assert_eq!(goto_line_number(&editor, Args::empty(), update), Plan::nothing());
    assert_eq!(goto_line_number(&editor, args("x"), PromptEvent::Abort), Plan::nothing());
    editor.last_selection = true;
    assert_eq!(
        goto_line_number(&editor, args("0"), update).steps,
        doing(&[Op::GotoLine(None), scroll])
    );
    for (raw, event) in [("", update), ("3", PromptEvent::Abort)] {
        assert_eq!(
            goto_line_number(&editor, args(raw), event).steps,
            doing(&[Op::RestoreSelection, scroll])
        );
    }
}

#[test]
fn lines_are_visited() {
    let editor = one();
    let scroll = Op::EnsureCursorInView(place(&editor));
    assert_eq!(
        goto_line_number(&editor, args("3"), OK).steps,
        doing(&[Op::KeepSelection, Op::GotoLine(Some(3)), scroll, Op::JumpFromSelection])
    );
    assert_eq!(
        goto_line_number(&editor, Args::empty(), OK),
        Plan::failing("Line number required")
    );
    let plan = goto_line_number(&editor, args("3x"), OK);
    assert_eq!(plan.steps, doing(&[Op::KeepSelection]));
    assert_eq!(plan.error, Some("invalid digit found in string".to_string()));
}

#[test]
fn themes_are_previewed() {
    let mut editor = one();
    let unset = Plan::doing(Op::UnsetThemePreview);
    assert_eq!(theme(&editor, args("nord"), PromptEvent::Abort), unset);
    assert_eq!(theme(&editor, Args::empty(), PromptEvent::Update), unset);
    assert_eq!(
        step(theme(&editor, args("nord"), PromptEvent::Update)),
        Action::PreviewTheme("nord".to_string())
    );
    let unsupported = Plan::failing("Unsupported theme: theme requires true color support");
    assert_eq!(theme_previewed(&editor, None), Plan::nothing());
    assert_eq!(theme_previewed(&editor, Some(false)), unsupported);
    assert_eq!(theme_previewed(&editor, Some(true)), Plan::doing(Op::SetThemePreview));
    assert_eq!(theme_chosen(&editor, Ok(false)), unsupported);
    editor.true_color = true;
    assert_eq!(theme_chosen(&editor, Ok(false)), Plan::doing(Op::SetTheme));
    assert_eq!(
        theme_chosen(&editor, Err("gone".to_string())),
        Plan::failing("Could not load theme: gone")
    );
    assert_eq!(
        step(theme(&editor, args("nord"), OK)),
        Action::ChooseTheme("nord".to_string())
    );
    assert_eq!(theme(&editor, Args::empty(), OK), Plan::status("default"));
}

#[test]
fn directories_are_changed() {
    let mut editor = one();
    let go = |editor: &Editor, raw: &str| change_current_directory(editor, args(raw), OK);
    assert_eq!(go(&editor, "-"), Plan::failing("No previous working directory"));
    editor.last_cwd = Some("/before".to_string());
    assert_eq!(
        step(go(&editor, "-")),
        Action::ChangeDirectory(Directory::Path("/before".to_string()))
    );
    assert_eq!(
        step(go(&editor, "~/x")),
        Action::ChangeDirectory(Directory::Tilde("~/x".to_string()))
    );
    assert_eq!(step(go(&editor, "")), Action::ChangeDirectory(Directory::Home));
    assert_eq!(
        directory_changed("/now"),
        Plan::status("Current working directory is now /now")
    );
    assert_eq!(
        show_current_directory(&editor, Args::empty(), OK),
        Plan::doing(Op::ShowDirectory)
    );
    assert_eq!(show_directory("/d", true), Plan::status("Current working directory is /d"));
    assert_eq!(
        step(show_directory("/d", false)),
        Action::SetError("Current working directory is /d (deleted)".to_string())
    );
}

#[test]
fn debuggers_are_started_and_asked() {
    let mut editor = one();
    assert_eq!(debug_eval(&editor, args("a + b"), OK), Plan::nothing());
    editor.debugger = Some(Debugger { active_frame: Some(2), thread_id: None });
    assert_eq!(
        debug_eval(&editor, args("a + b"), OK),
        Plan::failing("Cannot find current stack frame to access variables")
    );
    editor.debugger = Some(Debugger { active_frame: Some(2), thread_id: Some(-1) });
    assert_eq!(
        step(debug_eval(&editor, args("a + b"), OK)),
        Action::DebugEval { thread: -1, frame: 2, expression: "a + b".to_string() }
    );
    assert_eq!(
        step(debug_start(&editor, args("binary x y"), OK)),
        Action::DebugStart {
            template: Some("binary".to_string()),
            address: None,
            params: texts(&["x", "y"]),
        }
    );
    assert_eq!(
        step(debug_remote(&editor, args("localhost:1 binary x"), OK)),
        Action::DebugStart {
            template: Some("binary".to_string()),
            address: Some("localhost:1".to_string()),
            params: texts(&["x"]),
        }
    );
    assert_eq!(
        step(debug_remote(&editor, Args::empty(), OK)),
        Action::DebugStart { template: None, address: None, params: vec![] }
    );
}

#[test]
fn selections_are_yanked() {
    let mut editor = one();
    assert_eq!(
        yank_main_selection_to_clipboard(&editor, Args::empty(), OK),
        Plan::doing(Op::YankPrimary('+'))
    );
    assert_eq!(
        yank_main_selection_to_primary_clipboard(&editor, Args::empty(), OK),
        Plan::doing(Op::YankPrimary('*'))
    );
    let joined = |separator: &str, register| Action::YankJoined {
        separator: separator.to_string(),
        register,
    };
    assert_eq!(step(yank_joined(&editor, args(","), OK)), joined(",", '"'));
    assert_eq!(step(yank_joined(&editor, Args::empty(), OK)), joined("\n", '"'));
    editor.selected_register = Some('x');
    assert_eq!(step(yank_joined(&editor, args(","), OK)), joined(",", 'x'));
    assert_eq!(step(yank_joined_to_clipboard(&editor, args(","), OK)), joined(",", '+'));
    editor.documents[0].line_ending = LineEnding::Crlf;
    assert_eq!(
        step(yank_joined_to_primary_clipboard(&editor, Args::empty(), OK)),
        joined("\r\n", '*')
    );
}

#[test]
fn clipboards_are_pasted() {
    let editor = one();
    let paste = |register, side| Plan::doing(Op::Paste { register, side, count: 1 });
    assert_eq!(paste_clipboard_after(&editor, Args::empty(), OK), paste('+', Paste::After));
    assert_eq!(paste_clipboard_before(&editor, Args::empty(), OK), paste('+', Paste::Before));
    assert_eq!(
        paste_primary_clipboard_after(&editor, Args::empty(), OK),
        paste('*', Paste::After)
    );
    assert_eq!(
        paste_primary_clipboard_before(&editor, Args::empty(), OK),
        paste('*', Paste::Before)
    );
    assert_eq!(
        replace_selections_with_clipboard(&editor, Args::empty(), OK),
        Plan::doing(Op::ReplaceWithYanked { register: '+', count: 1 })
    );
    assert_eq!(
        replace_selections_with_primary_clipboard(&editor, Args::empty(), OK),
        Plan::doing(Op::ReplaceWithYanked { register: '*', count: 1 })
    );
    assert_eq!(show_clipboard_provider(&editor, Args::empty(), OK), Plan::status("none"));
}

#[test]
fn registers_are_cleared() {
    let editor = one();
    let clear = |raw: &str| clear_register(&editor, args(raw), OK);
    assert_eq!(clear("x"), Plan::doing(Op::ClearRegister('x')));
    assert_eq!(clear("\u{e4}"), Plan::doing(Op::ClearRegister('\u{e4}')));
    assert_eq!(clear("xy"), Plan::failing("Invalid register xy"));
    assert_eq!(clear("x y"), Plan::failing(":clear-register takes at most 1 argument"));
    assert_eq!(
        clear("").steps,
        vec![
            Action::Do(Op::ClearRegisters),
            Action::SetStatus("All registers cleared".to_string()),
        ]
    );
    assert_eq!(register_cleared('x', true), Plan::status("Register x cleared"));
    assert_eq!(
        step(register_cleared('x', false)),
        Action::SetError("Register x not found".to_string())
    );
}

#[test]
fn diagnostics_are_yanked() {
    let editor = one();
    let yank = |raw: &str| yank_diagnostic(&editor, args(raw), OK);
    assert_eq!(yank(""), Plan::doing(Op::YankDiagnostics('+')));
    assert_eq!(yank("a"), Plan::doing(Op::YankDiagnostics('a')));
    assert_eq!(yank("ab"), Plan::failing("Invalid register ab"));
    let diagnostic =
        |message: &str, selected| Diagnostic { message: message.to_string(), selected };
    let mut all = vec![diagnostic("a", true), diagnostic("b", false), diagnostic("c", true)];
    assert_eq!(
        diagnostics_yanked('r', &all).steps,
        vec![
            Action::WriteRegister { register: 'r', values: texts(&["a", "c"]) },
            Action::SetStatus("Yanked 2 diagnostics to register r".to_string()),
        ]
    );
    all.pop();
    assert_eq!(
        diagnostics_yanked('r', &all).steps[1],
        Action::SetStatus("Yanked 1 diagnostic to register r".to_string())
    );
    all.remove(0);
    assert_eq!(
        diagnostics_yanked('r', &all),
        Plan::failing("No diagnostics under primary selection")
    );
}

#[test]
fn workspace_commands_are_executed() {
    let mut editor = one();
    let offer = |number, command: &str| ServerCommand {
        server: ServerId { number },
        command: command.to_string(),
    };
    let server =
        |number, list: &[&str]| CommandServer { server: ServerId { number }, commands: texts(list) };
    editor.command_servers =
        vec![server(1, &["build"]), server(3, &[]), server(2, &["run all", "build"])];
    let offered = offered_commands(&editor);
    assert_eq!(offered, vec![offer(1, "build"), offer(2, "run all"), offer(2, "build")]);
    assert_eq!(
        step(command_picked(&offered[2])),
        Action::ExecuteCommand { server: ServerId { number: 2 }, command: "build".to_string() }
    );
    let execute = |raw: &str| lsp_workspace_command(&editor, args(raw), OK);
    assert_eq!(execute(""), Plan::doing(Op::PickWorkspaceCommand));
    assert_eq!(
        step(execute("run all")),
        Action::ExecuteCommand { server: ServerId { number: 2 }, command: "run all".to_string() }
    );
    assert_eq!(execute("x"), Plan::status("`x` is not supported for any language server"));
    assert_eq!(
        execute("build"),
        Plan::status("`build` supported by multiple language servers")
    );
}

#[test]
fn servers_are_restarted() {
    let mut editor = editor(vec![
        document(1, None, false),
        document(2, None, false),
        document(3, None, false),
    ]);
    assert_eq!(
        lsp_restart(&editor, Args::empty(), OK),
        Plan::failing("LSP not defined for the current document")
    );
    editor.documents[0].configured_servers = Some(vec![]);
    editor.documents[2].configured_servers = Some(texts(&["one"]));
    assert_eq!(
        lsp_restart(&editor, Args::empty(), OK).steps,
        doing(&[Op::RestartServers, Op::RefreshServers(DocumentId { number: 3 })])
    );
}

#[test]
fn servers_are_stopped() {
    let mut editor = editor(vec![document(1, None, false), document(2, None, false)]);
    editor.documents[0].servers = texts(&["a", "b"]);
    let detach = |number, name: &str| Action::DetachServer {
        doc: DocumentId { number },
        name: name.to_string(),
    };
    assert_eq!(
        lsp_stop(&editor, Args::empty(), OK).steps,
        vec![
            Action::StopServer("a".to_string()),
            detach(1, "a"),
            detach(2, "a"),
            Action::StopServer("b".to_string()),
            detach(1, "b"),
            detach(2, "b"),
        ]
    );
    let doc = DocumentId { number: 1 };
    let server = ServerId { number: 7 };
    assert_eq!(
        server_detached(doc, Some(server)).steps,
        doing(&[
            Op::ClearDiagnostics { doc, server },
            Op::ResetInlayHints(doc),
            Op::OutdateInlayHints(doc),
        ])
    );
    assert_eq!(server_detached(doc, None), Plan::nothing());
}

fn hover(contents: &str) -> Step {
    Action::Popup { id: "hover".to_string(), contents: contents.to_string(), position: None }
}

#[test]
fn syntax_is_shown() {
    let editor = one();
    assert_eq!(tree_sitter_scopes(&editor, Args::empty(), OK), Plan::doing(Op::ShowScopes));
    assert_eq!(
        tree_sitter_highlight_name(&editor, Args::empty(), OK),
        Plan::doing(Op::ShowHighlight)
    );
    assert_eq!(tree_sitter_subtree(&editor, Args::empty(), OK), Plan::doing(Op::ShowSubtree));
    assert_eq!(
        step(scopes_shown(&texts(&["source", "fn"]))),
        hover("```json\n[\"source\", \"fn\"]\n````")
    );
    assert_eq!(step(scopes_shown(&vec![])), hover("```json\n[]\n````"));
    assert_eq!(step(subtree_shown("(x)")), hover("```tsq\n(x)\n```"));
    assert_eq!(step(highlight_shown("keyword".to_string())), hover("keyword"));
}

#[test]
fn visible_lines_are_highlighted() {
    assert_eq!(highlight_lines(10, 20, 100), (10, 30));
    assert_eq!(highlight_lines(90, 20, 100), (90, 100));
    assert_eq!(highlight_lines(200, 20, 100), (99, 100));
    assert_eq!(highlight_lines(0, 0, 100), (0, 1));
    assert_eq!(highlight_lines(0, 5, 0), (0, 1));
}

#[test]
fn highlights_are_found() {
    let events = vec![
        HighlightEvent::HighlightStart(4),
        HighlightEvent::Source { start: 0, end: 3 },
        HighlightEvent::HighlightEnd,
        HighlightEvent::Source { start: 3, end: 5 },
        HighlightEvent::HighlightStart(9),
        HighlightEvent::Source { start: 5, end: 6 },
        HighlightEvent::Source { start: 0, end: 3 },
    ];
    assert_eq!(highlight_at(&events, 0, 3), Some(4));
    assert_eq!(highlight_at(&events, 3, 5), Some(4));
    assert_eq!(highlight_at(&events, 5, 6), Some(9));
    assert_eq!(highlight_at(&events, 5, 7), None);
    assert_eq!(highlight_at(&vec![], 0, 0), None);
}

#[test]
fn shell_commands_are_run() {
    let editor = one();
    let shell = |behavior| Action::Shell { command: "sort -u".to_string(), behavior };
    assert_eq!(step(pipe(&editor, args("sort -u"), OK)), shell(ShellBehavior::Replace));
    assert_eq!(step(pipe_to(&editor, args("sort -u"), OK)), shell(ShellBehavior::Ignore));
    assert_eq!(step(insert_output(&editor, args("sort -u"), OK)), shell(ShellBehavior::Insert));
    assert_eq!(step(append_output(&editor, args("sort -u"), OK)), shell(ShellBehavior::Append));
    assert_eq!(pipe(&editor, Args::empty(), OK), Plan::failing("Shell command required"));
    assert_eq!(
        step(run_shell_command(&editor, args("ls -l"), OK)),
        Action::RunShell("ls -l".to_string())
    );
    assert_eq!(shell_ran("", Some(3)), Plan::status("Command run"));
    let popup = |contents: &str, row| Action::Popup {
        id: "shell".to_string(),
        contents: contents.to_string(),
        position: Some(Position { row, column: 2 }),
    };
    assert_eq!(
        shell_ran(" a\nb \n\u{3000}\n", Some(3)).steps,
        vec![popup("```sh\n a\nb\n```", 3), Action::SetStatus("Command run".to_string())]
    );
    assert_eq!(shell_ran("\n", None).steps[0], popup("```sh\n\n```", 0));
}

#[test]
fn trailing_white_space_is_that_of_std() {
    for code in 0..=0x3100 {
        if let Some(c) = char::from_u32(code) {
            let shown = format!("```sh\nx{}\n```", if c.is_whitespace() { "" } else { "y" });
            let output = if c.is_whitespace() { format!("x{c}") } else { format!("xy{c}") };
            let plan = shell_ran(&output, None);
            let Action::Popup { contents, .. } = &plan.steps[0] else {
                panic!("{plan:?}");
            };
            assert_eq!(c.is_whitespace(), *contents == shown);
        }
    }
}

#[test]
fn commands_wait_for_confirmation() {
    let mut options = serde_json::Value::Null;
    for known in typable_command_list(true) {
        if known.fun != Fun::Theme && known.fun != Fun::GotoLineNumber {
            for event in [PromptEvent::Update, PromptEvent::Abort] {
                assert_eq!(run(known.fun, &one(), &mut options, args("x"), event), Plan::nothing());
            }
        }
    }
    assert_eq!(
        run(Fun::Theme, &one(), &mut options, args("x"), PromptEvent::Abort),
        Plan::doing(Op::UnsetThemePreview)
    );
}

#[test]
fn commands_are_run_by_what_they_are() {
    let mut options: serde_json::Value = "{\"mouse\": true}".parse().unwrap();
    assert_eq!(
        run(Fun::ForceWriteAllQuit, &one(), &mut options, Args::empty(), OK).steps,
        doing(&[Op::TryWriteAll, Op::FlushWrites, Op::QuitViews { force: true }])
    );
    let plan = run(Fun::ToggleOption, &one(), &mut options, args("mouse"), OK);
    assert_eq!(plan.steps[0], Action::Do(Op::SendCheckedOptions));
    assert_eq!(options.pointer("/mouse"), Some(&serde_json::Value::Bool(false)));
    assert_eq!(
        run(Fun::GetOption, &one(), &mut options, args("mouse"), OK),
        Plan::status("false")
    );
}

#[test]
fn plans_end_with_the_first_failure() {
    let mut plan = quit_plan();
    let failed = || Some("disk full".to_string());
    assert_eq!(next_step(&plan, 0, None), Next::Do(&Action::Do(Op::FlushWrites)));
    assert_eq!(next_step(&plan, 1, None), Next::Do(&Action::Do(Op::CloseCurrentView)));
    assert_eq!(next_step(&plan, 1, failed()), Next::Failed("disk full".to_string()));
    assert_eq!(next_step(&plan, 2, failed()), Next::Failed("disk full".to_string()));
    assert_eq!(next_step(&plan, 2, None), Next::Done);
    plan.error = Some("its own".to_string());
    assert_eq!(next_step(&plan, 2, None), Next::Failed("its own".to_string()));
    assert_eq!(next_step(&plan, 2, failed()), Next::Failed("disk full".to_string()));
}

fn quit_plan() -> Plan {
    typed_commands::buffers::force_quit(&one(), Args::empty(), OK)
}
