use typed_commands::args::{Args, PromptEvent, Word};
use typed_commands::buffers::{
    buffer_close, buffer_close_all, buffer_close_others, buffer_gather_all_impl,
    buffer_gather_others_impl, buffer_gather_paths_impl, buffer_next, buffer_previous,
    buffers_remaining_impl, closed, force_buffer_close, force_buffer_close_all,
    force_buffer_close_others, force_quit, located, open, quit, CloseOutcome, Closing,
};
use typed_commands::change::LineEnding;
use typed_commands::editor::{
    Document, DocumentId, Editor, IndentStyle, Place, ViewId, ViewInfo, ViewRef,
};
use typed_commands::plan::{Action, Direction, Op, Plan, Split, Step};
use typed_commands::save::{
    cquit, force_cquit, force_quit_all, force_write, force_write_all, force_write_all_quit,
    force_write_buffer_close, force_write_quit, quit_all, quit_views, reload, reload_all,
    reloaded, update, write_all, write_all_impl, write_all_quit, write_buffer_close, write_quit,
};

fn args(raw: &str) -> Args {
    let mut words = Vec::new();
    let mut rest = raw.trim_start();
    while !rest.is_empty() {
        let end = rest.find(' ').unwrap_or(rest.len());
        let text = &rest[..end];
        rest = rest[end..].trim_start();
        words.push(Word {
            text: text.to_string(),
            tail: rest.to_string(),
            path: text.split('/').map(|part| part.to_string()).collect(),
        });
    }
    Args { raw: raw.trim_start().to_string(), words, taken: 0 }
}

fn document(number: u64, path: Option<&str>, modified: bool) -> Document {
    let parts = |path: &str| path.split('/').map(|part| part.to_string()).collect::<Vec<_>>();
    Document {
        id: DocumentId { number },
        path: path.map(|path| parts(&format!("/work/{path}"))),
        relative_path: path.map(parts),
        display_name: path.unwrap_or("[scratch]").to_string(),
        modified,
        formatter: false,
        auto_formatter: false,
        indent_style: IndentStyle::Spaces(4),
        line_ending: LineEnding::LF,
        encoding: "UTF-8".to_string(),
        language_name: Some("rust".to_string()),
        text_width: None,
        configured_servers: None,
        servers: Vec::new(),
        views: Vec::new(),
    }
}

fn editor(documents: Vec<Document>) -> Editor {
    let view = ViewId { number: 1 };
    let doc = documents[0].id;
    Editor {
        documents,
        current: 0,
        views: vec![ViewInfo { id: view, doc }],
        current_view: view,
        insert_final_newline: true,
        auto_format: true,
        unicode_lines: false,
        true_color: false,
        text_width: 80,
        selected_register: None,
        clipboard_provider: "none".to_string(),
        theme_name: "default".to_string(),
        last_cwd: None,
        last_selection: false,
        debugger: None,
        command_servers: Vec::new(),
        default_language: "text".to_string(),
    }
}

fn place(editor: &Editor) -> Place {
    Place { doc: editor.documents[editor.current].id, view: ViewRef::Id(editor.current_view) }
}

const OK: PromptEvent = PromptEvent::Validate;

fn id(number: u64) -> DocumentId {
    DocumentId { number }
}

fn three() -> Editor {
    editor(vec![
        document(1, Some("a.rs"), false),
        document(2, Some("src/b.rs"), true),
        document(3, None, true),
    ])
}

fn steps(plan: &Plan) -> &Vec<Step> {
    assert_eq!(plan.error, None);
    &plan.steps
}

fn doing(ops: &[Op]) -> Vec<Step> {
    ops.iter().map(|op| Action::Do(*op)).collect()
}

fn close(number: u64, force: bool) -> Op {
    Op::CloseDocument { id: id(number), force }
}

#[test]
fn unsaved_documents_remain() {
    let message = "2 unsaved buffers remaining: [\"src/b.rs\", \"[scratch]\"]".to_string();
    let plan = buffers_remaining_impl(&three());
    assert_eq!(plan.error, Some(message.clone()));
    assert_eq!(
        plan.steps,
        vec![Action::Do(Op::Switch(id(2))), Action::SetError(message.clone())]
    );

    let mut focused = three();
    focused.current = 2;
    assert_eq!(buffers_remaining_impl(&focused).steps, vec![Action::SetError(message)]);

    let one = editor(vec![document(7, Some("q\"\n"), true)]);
    let message = "1 unsaved buffer remaining: [\"q\\\"\\n\"]".to_string();
    let plan = buffers_remaining_impl(&one);
    assert_eq!(plan.error, Some(message.clone()));
    assert_eq!(plan.steps, vec![Action::SetError(message)]);

    let none = editor(vec![document(7, None, false)]);
    assert_eq!(buffers_remaining_impl(&none), Plan::nothing());
}

#[test]
fn editors_are_checked() {
    let mut editor = three();
    assert!(editor.is_valid());
    editor.current = 3;
    assert!(!editor.is_valid());
    editor.current = 2;
    editor.documents[0].id = id(3);
    assert!(!editor.is_valid());
    editor.documents[0].id = id(1);
    editor.documents[1].line_ending = LineEnding::FF;
    assert!(!editor.is_valid());
    editor.unicode_lines = true;
    assert!(editor.is_valid());
}

#[test]
fn the_last_view_keeps_changes() {
    let mut editor = three();
    assert!(quit(&editor, Args::empty(), OK).error.is_some());
    editor.views.push(ViewInfo { id: ViewId { number: 2 }, doc: id(1) });
    assert_eq!(
        steps(&quit(&editor, Args::empty(), OK)),
        &doing(&[Op::FlushWrites, Op::CloseCurrentView])
    );
    assert_eq!(
        quit(&editor, args("x"), OK),
        Plan::failing(":quit takes no arguments")
    );
    assert_eq!(quit(&editor, Args::empty(), PromptEvent::Abort), Plan::nothing());
}

#[test]
fn quitting_can_be_forced() {
    assert_eq!(
        steps(&force_quit(&three(), Args::empty(), OK)),
        &doing(&[Op::FlushWrites, Op::CloseCurrentView])
    );
    assert_eq!(
        force_quit(&three(), args("x"), OK),
        Plan::failing(":quit! takes no arguments")
    );
}

#[test]
fn files_are_opened() {
    assert_eq!(
        steps(&open(&three(), args("x.rs:3 y"), OK)),
        &vec![Action::LocateFile("x.rs:3".to_string()), Action::LocateFile("y".to_string())]
    );
    assert_eq!(
        open(&three(), Args::empty(), OK),
        Plan::failing(":open needs at least one argument")
    );
    assert_eq!(
        steps(&located("/tmp", true, 0, 0)),
        &vec![Action::OpenPicker("/tmp".to_string())]
    );
    assert_eq!(
        steps(&located("/x.rs", false, 2, 5)),
        &vec![
            Action::Open { path: "/x.rs".to_string(), split: Split::Replace },
            Action::Do(Op::PlaceCursor { row: 2, column: 5 }),
            Action::Do(Op::AlignCenter),
        ]
    );
}

#[test]
fn documents_are_found_by_their_paths() {
    let editor = three();
    let found = buffer_gather_paths_impl(&editor, &args("src/b.rs missing /work/a.rs gone"));
    assert_eq!(found.ids, vec![id(2), id(1)]);
    assert_eq!(
        found.error,
        Some("cannot close non-existent buffers: 'missing', 'gone'".to_string())
    );
    let current = buffer_gather_paths_impl(&editor, &Args::empty());
    assert_eq!(current.ids, vec![id(1)]);
    assert_eq!(current.error, None);
}

#[test]
fn documents_are_closed() {
    let editor = three();
    assert_eq!(
        steps(&buffer_close(&editor, args("src/b.rs x"), OK)),
        &vec![
            Action::SetError("cannot close non-existent buffers: 'x'".to_string()),
            Action::Do(Op::FlushWrites),
            Action::Do(close(2, false)),
            Action::Do(Op::ReportUnclosed),
        ]
    );
    assert_eq!(
        steps(&force_buffer_close(&editor, Args::empty(), OK)),
        &doing(&[Op::FlushWrites, close(1, true), Op::ReportUnclosed])
    );
    assert_eq!(buffer_gather_all_impl(&editor), vec![id(1), id(2), id(3)]);
    assert_eq!(buffer_gather_others_impl(&editor), vec![id(2), id(3)]);
    let alone = self::editor(vec![document(1, None, false)]);
    assert_eq!(buffer_gather_others_impl(&alone), vec![]);
    assert_eq!(
        steps(&buffer_close_others(&editor, Args::empty(), OK)),
        &doing(&[Op::FlushWrites, close(2, false), close(3, false), Op::ReportUnclosed])
    );
    assert_eq!(
        steps(&force_buffer_close_others(&editor, Args::empty(), OK)),
        &doing(&[Op::FlushWrites, close(2, true), close(3, true), Op::ReportUnclosed])
    );
    assert_eq!(steps(&buffer_close_all(&editor, Args::empty(), OK)).len(), 5);
    assert_eq!(
        steps(&force_buffer_close_all(&editor, Args::empty(), OK))[3],
        Action::Do(close(3, true))
    );
}

#[test]
fn documents_that_stay_open_are_reported() {
    let closings = vec![
        Closing { id: id(1), outcome: CloseOutcome::Closed },
        Closing { id: id(2), outcome: CloseOutcome::BufferModified("b".to_string()) },
        Closing { id: id(3), outcome: CloseOutcome::DoesNotExist },
        Closing { id: id(4), outcome: CloseOutcome::BufferModified("d".to_string()) },
        Closing { id: id(5), outcome: CloseOutcome::SaveError },
    ];
    let plan = closed(&closings, id(9));
    assert_eq!(plan.error, Some("2 unsaved buffers remaining: [\"b\", \"d\"]".to_string()));
    assert_eq!(plan.steps, doing(&[Op::Switch(id(2))]));
    assert_eq!(closed(&closings, id(4)).steps, vec![]);
    assert_eq!(closed(&vec![], id(4)), Plan::nothing());
}

#[test]
fn neighbors_are_visited() {
    assert_eq!(
        buffer_next(&three(), Args::empty(), OK),
        Plan::doing(Op::GotoBuffer { direction: Direction::Forward, count: 1 })
    );
    assert_eq!(
        buffer_previous(&three(), Args::empty(), OK),
        Plan::doing(Op::GotoBuffer { direction: Direction::Backward, count: 1 })
    );
}

#[test]
fn documents_are_written() {
    let mut editor = three();
    let here = place(&editor);
    assert_eq!(
        steps(&typed_commands::save::write(&editor, args("x.rs"), OK)),
        &vec![
            Action::Do(Op::InsertFinalNewline(here)),
            Action::Do(Op::CommitChanges(here)),
            Action::Save { doc: id(1), path: Some("x.rs".to_string()), force: false },
        ]
    );
    editor.insert_final_newline = false;
    editor.documents[0].auto_formatter = true;
    assert_eq!(
        steps(&force_write(&editor, Args::empty(), OK)),
        &vec![
            Action::Do(Op::CommitChanges(here)),
            Action::FormatAndSave { place: here, path: None, force: true },
        ]
    );
    editor.auto_format = false;
    assert_eq!(
        steps(&force_write(&editor, Args::empty(), OK))[1],
        Action::Save { doc: id(1), path: None, force: true }
    );
}

#[test]
fn documents_are_written_and_closed() {
    let mut editor = three();
    editor.insert_final_newline = false;
    let here = place(&editor);
    for (force, plan) in [
        (false, write_buffer_close(&editor, args("x.rs"), OK)),
        (true, force_write_buffer_close(&editor, args("x.rs"), OK)),
    ] {
        assert_eq!(
            steps(&plan),
            &vec![
                Action::Do(Op::CommitChanges(here)),
                Action::Save { doc: id(1), path: Some("x.rs".to_string()), force },
                Action::Do(Op::FlushWrites),
                Action::Do(close(1, false)),
                Action::Do(Op::ReportUnclosed),
            ]
        );
    }
}

#[test]
fn only_changes_are_updated() {
    let mut editor = three();
    assert_eq!(update(&editor, Args::empty(), OK), Plan::nothing());
    editor.current = 1;
    assert_eq!(
        update(&editor, Args::empty(), OK),
        typed_commands::save::write(&editor, Args::empty(), OK)
    );
}

#[test]
fn documents_are_written_before_leaving() {
    let mut editor = three();
    editor.insert_final_newline = false;
    let plan = write_quit(&editor, Args::empty(), OK);
    assert_eq!(steps(&plan)[2..], doing(&[Op::FlushWrites, Op::Quit])[..]);
    let plan = force_write_quit(&editor, Args::empty(), OK);
    assert_eq!(
        steps(&plan)[2..],
        doing(&[Op::FlushWrites, Op::FlushWrites, Op::CloseCurrentView])[..]
    );
}

#[test]
fn all_changes_with_a_file_are_written() {
    let mut editor = three();
    editor.insert_final_newline = false;
    let there = Place { doc: id(2), view: ViewRef::SyncedWith(id(2)) };
    let saves = vec![
        Action::Do(Op::SyncView(id(2))),
        Action::Do(Op::CommitChanges(there)),
        Action::Save { doc: id(2), path: None, force: false },
    ];
    let plan = write_all(&editor, Args::empty(), OK);
    assert_eq!(plan.steps, saves);
    assert_eq!(
        plan.error,
        Some("[\"cannot write a buffer without a filename\"]".to_string())
    );
    let plan = write_all_impl(&editor, false, false);
    assert_eq!(plan.steps, saves);
    assert_eq!(plan.error, None);
    let plan = force_write_all(&editor, Args::empty(), OK);
    assert_eq!(plan.error, None);
    assert_eq!(plan.steps[2], Action::Save { doc: id(2), path: None, force: true });
    assert_eq!(write_all(&editor, Args::empty(), PromptEvent::Update), Plan::nothing());
}

#[test]
fn leaving_waits_for_writes() {
    let mut editor = three();
    let leave = |force| doing(&[Op::FlushWrites, Op::QuitViews { force }]);
    assert_eq!(steps(&quit_all(&editor, Args::empty(), OK)), &leave(false));
    assert_eq!(steps(&force_quit_all(&editor, Args::empty(), OK)), &leave(true));
    assert!(write_all_quit(&editor, Args::empty(), OK).error.is_some());
    assert_eq!(
        steps(&force_write_all_quit(&editor, Args::empty(), OK)),
        &doing(&[Op::TryWriteAll, Op::FlushWrites, Op::QuitViews { force: true }])
    );
    assert!(quit_views(&editor, false).error.is_some());
    assert_eq!(
        steps(&quit_views(&editor, true)),
        &doing(&[Op::CloseView(ViewId { number: 1 })])
    );
    editor.documents.truncate(1);
    assert_eq!(
        steps(&quit_views(&editor, false)),
        &doing(&[Op::CloseView(ViewId { number: 1 })])
    );
    assert_eq!(steps(&write_all_quit(&editor, Args::empty(), OK)), &leave(false));
}

#[test]
fn exit_codes_are_set() {
    let editor = three();
    let leave = |code, force| {
        doing(&[Op::SetExitCode(code), Op::FlushWrites, Op::QuitViews { force }])
    };
    assert_eq!(steps(&cquit(&editor, args("2"), OK)), &leave(2, false));
    assert_eq!(steps(&cquit(&editor, args("-3"), OK)), &leave(-3, false));
    assert_eq!(steps(&cquit(&editor, args("x"), OK)), &leave(1, false));
    assert_eq!(steps(&cquit(&editor, args("2147483648"), OK)), &leave(1, false));
    assert_eq!(steps(&force_cquit(&editor, Args::empty(), OK)), &leave(1, true));
}

#[test]
fn documents_are_read_again() {
    let mut editor = three();
    let here = place(&editor);
    assert_eq!(
        steps(&reload(&editor, Args::empty(), OK)),
        &doing(&[Op::Reload(here), Op::EnsureCursorInView(here), Op::NotifyFileChanged(id(1))])
    );
    editor.current = 2;
    let here = place(&editor);
    assert_eq!(
        steps(&reload(&editor, Args::empty(), OK)),
        &doing(&[Op::Reload(here), Op::EnsureCursorInView(here)])
    );
}

#[test]
fn all_documents_are_read_again() {
    let mut editor = three();
    editor.documents.truncate(2);
    let other = ViewId { number: 2 };
    editor.documents[1].views = vec![other, editor.current_view];
    let first = place(&editor);
    let second = Place { doc: id(2), view: ViewRef::Id(other) };
    assert_eq!(
        steps(&reload_all(&editor, Args::empty(), OK)),
        &doing(&[
            Op::EnsureViewInit(first),
            Op::SyncChanges(first),
            Op::TryReload { place: first, index: 0 },
            Op::SyncChanges(second),
            Op::TryReload { place: second, index: 1 },
        ])
    );
    assert_eq!(
        steps(&reloaded(&editor, 0, None)),
        &doing(&[Op::NotifyFileChanged(id(1)), Op::EnsureCursorInView(first)])
    );
    // The view in focus shows another document, and the other view shows nothing.
    assert_eq!(steps(&reloaded(&editor, 1, None)), &doing(&[Op::NotifyFileChanged(id(2))]));
    assert_eq!(
        steps(&reloaded(&editor, 1, Some("gone".to_string()))),
        &vec![Action::SetError("gone".to_string())]
    );
}
