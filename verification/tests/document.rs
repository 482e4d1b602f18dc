use typed_commands::args::{Args, PromptEvent, Word};
use typed_commands::change::{
    get_line_ending, insert_final_newline, line_ending_changes, Change, LineEnding,
};
use typed_commands::diff::{diff_changes, Hunk};
use typed_commands::document::{
    diff_reset, earlier, file_read, language, later, move_buffer, moved, read, reflow,
    reset_diff_change, set_encoding, set_indent_style, set_line_ending, sort, sort_reverse,
    traveled, Diff, FileRead,
};
use typed_commands::editor::{
    Document, DocumentId, Editor, IndentStyle, Place, ViewId, ViewInfo, ViewRef,
};
use typed_commands::number::{parse_i32, parse_u8, parse_usize, IntError};
use typed_commands::plan::{Action, Op, Plan, Step};
use typed_commands::selection::{reflow_changes, selected_texts, sort_changes, Range};

fn args(raw: &str) -> Args {
    let mut words = Vec::new();
    let mut rest = raw.trim_start();
    while !rest.is_empty() {
        let end = rest.find(' ').unwrap_or(rest.len());
        let text = &rest[..end];
        rest = rest[end..].trim_start();
        words.push(Word {
            text: text.to_string(),
            tail: rest.to_string(),
            path: text.split('/').map(|part| part.to_string()).collect(),
        });
    }
    Args { raw: raw.trim_start().to_string(), words, taken: 0 }
}

fn document(number: u64, path: Option<&str>, modified: bool) -> Document {
    let parts = |path: &str| path.split('/').map(|part| part.to_string()).collect::<Vec<_>>();
    Document {
        id: DocumentId { number },
        path: path.map(|path| parts(&format!("/work/{path}"))),
        relative_path: path.map(parts),
        display_name: path.unwrap_or("[scratch]").to_string(),
        modified,
        formatter: false,
        auto_formatter: false,
        indent_style: IndentStyle::Spaces(4),
        line_ending: LineEnding::LF,
        encoding: "UTF-8".to_string(),
        language_name: Some("rust".to_string()),
        text_width: None,
        configured_servers: None,
        servers: Vec::new(),
        views: Vec::new(),
    }
}

fn editor(documents: Vec<Document>) -> Editor {
    let view = ViewId { number: 1 };
    let doc = documents[0].id;
    Editor {
        documents,
        current: 0,
        views: vec![ViewInfo { id: view, doc }],
        current_view: view,
        insert_final_newline: true,
        auto_format: true,
        unicode_lines: false,
        true_color: false,
        text_width: 80,
        selected_register: None,
        clipboard_provider: "none".to_string(),
        theme_name: "default".to_string(),
        last_cwd: None,
        last_selection: false,
        debugger: None,
        command_servers: Vec::new(),
        default_language: "text".to_string(),
    }
}

fn place(editor: &Editor) -> Place {
    Place { doc: editor.documents[editor.current].id, view: ViewRef::Id(editor.current_view) }
}

const OK: PromptEvent = PromptEvent::Validate;

fn one() -> Editor {
    editor(vec![document(1, Some("a.rs"), false)])
}

fn changing(editor: &Editor, step: Step) -> Vec<Step> {
    vec![
        step,
        Action::Do(Op::CommitChanges(place(editor))),
        Action::Do(Op::EnsureCursorInView(place(editor))),
    ]
}

fn texts(list: &[&str]) -> Vec<String> {
    list.iter().map(|text| text.to_string()).collect()
}

fn change(from: usize, to: usize, text: &str) -> Change<String> {
    Change { from, to, text: Some(text.to_string()) }
}

fn apply(text: &str, changes: &[Change<String>]) -> String {
    let chars: Vec<char> = text.chars().collect();
    let mut out = String::new();
    let mut at = 0;
    for change in changes {
        out.extend(&chars[at..change.from]);
        out.push_str(change.text.as_deref().unwrap_or(""));
        at = change.to;
    }
    out.extend(&chars[at..]);
    out
}

#[test]
fn numbers_are_read() {
    assert_eq!(parse_usize("0"), Ok(0));
    assert_eq!(parse_usize("+007"), Ok(7));
    assert_eq!(parse_usize("18446744073709551615"), Ok(usize::MAX));
    assert_eq!(parse_usize("18446744073709551616"), Err(IntError::PosOverflow));
    assert_eq!(parse_usize(""), Err(IntError::Empty));
    assert_eq!(parse_usize("+"), Err(IntError::InvalidDigit));
    assert_eq!(parse_usize("-1"), Err(IntError::InvalidDigit));
    assert_eq!(parse_usize("1x"), Err(IntError::InvalidDigit));
    assert_eq!(parse_u8("255"), Ok(255));
    assert_eq!(parse_u8("256"), Err(IntError::PosOverflow));
    assert_eq!(parse_i32("-2147483648"), Some(i32::MIN));
    assert_eq!(parse_i32("2147483647"), Some(i32::MAX));
    assert_eq!(parse_i32("-2147483649"), None);
    assert_eq!(parse_i32("-"), None);
    assert_eq!(parse_i32("--1"), None);
}

#[test]
fn number_errors_read_as_those_of_std() {
    for text in ["", "+", "-1", "1x", "18446744073709551616", "99999999999999999999x"] {
        assert_eq!(
            parse_usize(text).unwrap_err().message(),
            text.parse::<usize>().unwrap_err().to_string()
        );
    }
}

#[test]
fn documents_are_formatted() {
    let mut editor = one();
    assert_eq!(
        typed_commands::document::format(&editor, Args::empty(), OK),
        Plan::failing(
            "A formatter isn't available, and no language server provides formatting capabilities"
        )
    );
    editor.documents[0].formatter = true;
    assert_eq!(
        typed_commands::document::format(&editor, Args::empty(), OK),
        Plan::doing(Op::Format(place(&editor)))
    );
}

#[test]
fn indent_styles_are_shown() {
    let mut editor = one();
    let mut shown = |style| {
        editor.documents[0].indent_style = style;
        set_indent_style(&editor, Args::empty(), OK)
    };
    assert_eq!(shown(IndentStyle::Tabs), Plan::status("tabs"));
    assert_eq!(shown(IndentStyle::Spaces(1)), Plan::status("1 space"));
    assert_eq!(shown(IndentStyle::Spaces(16)), Plan::status("16 spaces"));
}

#[test]
fn indent_styles_are_set() {
    let set = |raw: &str| set_indent_style(&one(), args(raw), OK);
    for raw in ["t", "T", "ta", "tabs", "TABS", "0"] {
        assert_eq!(set(raw), Plan::doing(Op::SetIndentStyle(IndentStyle::Tabs)), "{raw}");
    }
    for n in 1..=16 {
        assert_eq!(
            set(&n.to_string()),
            Plan::doing(Op::SetIndentStyle(IndentStyle::Spaces(n)))
        );
    }
    for raw in ["17", "00", "256", "tabss", "s", "-1"] {
        assert_eq!(set(raw), Plan::failing("invalid indent style"), "{raw}");
    }
}

#[test]
fn line_endings_are_shown() {
    let mut editor = one();
    editor.unicode_lines = true;
    let mut shown = |ending| {
        editor.documents[0].line_ending = ending;
        set_line_ending(&editor, Args::empty(), OK)
    };
    assert_eq!(shown(LineEnding::Crlf), Plan::status("crlf"));
    assert_eq!(shown(LineEnding::LF), Plan::status("line feed"));
    assert_eq!(shown(LineEnding::FF), Plan::status("form feed"));
    assert_eq!(shown(LineEnding::CR), Plan::status("carriage return"));
    assert_eq!(shown(LineEnding::Nel), Plan::status("next line"));
    assert_eq!(shown(LineEnding::PS), Plan::status("error"));
}

#[test]
fn line_endings_are_set() {
    let mut editor = one();
    let mut set = |raw: &str, unicode_lines: bool| {
        editor.unicode_lines = unicode_lines;
        set_line_ending(&editor, args(raw), OK)
    };
    let steps = |ending| {
        vec![
            Action::Do(Op::SetLineEnding(ending)),
            Action::Do(Op::ConvertLineEndings(ending)),
            Action::Do(Op::CommitChanges(place(&one()))),
        ]
    };
    assert_eq!(set("crlf", false).steps, steps(LineEnding::Crlf));
    assert_eq!(set("CRLF", false).steps, steps(LineEnding::Crlf));
    assert_eq!(set("lf", false).steps, steps(LineEnding::LF));
    assert_eq!(set("cr", true).steps, steps(LineEnding::CR));
    assert_eq!(set("ff", true).steps, steps(LineEnding::FF));
    assert_eq!(set("nel", true).steps, steps(LineEnding::Nel));
    assert_eq!(set("cr", false), Plan::failing("invalid line ending"));
    assert_eq!(set("x", true), Plan::failing("invalid line ending"));
}

#[test]
fn line_endings_are_recognized() {
    assert_eq!(get_line_ending("a\r\n", false), Some(LineEnding::Crlf));
    assert_eq!(get_line_ending("a\n", false), Some(LineEnding::LF));
    assert_eq!(get_line_ending("a\r", false), None);
    assert_eq!(get_line_ending("a\r", true), Some(LineEnding::CR));
    assert_eq!(get_line_ending("\u{2028}", true), Some(LineEnding::LS));
    assert_eq!(get_line_ending("a", true), None);
    assert_eq!(get_line_ending("", true), None);
}

#[test]
fn line_endings_are_converted() {
    let lines = texts(&["one\n", "two\r\n", "\n", "end"]);
    let changes = line_ending_changes(&lines, LineEnding::Crlf, false);
    assert_eq!(changes, vec![change(3, 4, "\r\n"), change(9, 10, "\r\n")]);
    assert_eq!(apply(&lines.concat(), &changes), "one\r\ntwo\r\n\r\nend");
    assert_eq!(line_ending_changes(&texts(&["a\n", "b"]), LineEnding::LF, false), vec![]);
}

#[test]
fn a_final_newline_is_inserted_where_there_is_none() {
    assert_eq!(insert_final_newline("a", LineEnding::Crlf, false), Some(change(1, 1, "\r\n")));
    assert_eq!(insert_final_newline("", LineEnding::LF, false), Some(change(0, 0, "\n")));
    assert_eq!(insert_final_newline("a\r\n", LineEnding::LF, false), None);
}

#[test]
fn history_is_traveled() {
    let editor = one();
    assert_eq!(
        earlier(&editor, args("5 min"), OK).steps,
        vec![Action::Earlier("5 min".to_string())]
    );
    assert_eq!(later(&editor, args("3"), OK).steps, vec![Action::Later("3".to_string())]);
    assert_eq!(later(&editor, args("3"), PromptEvent::Update), Plan::nothing());
    assert_eq!(traveled(true, true), Plan::nothing());
    assert_eq!(traveled(true, false), Plan::status("Already at oldest change"));
    assert_eq!(traveled(false, false), Plan::status("Already at newest change"));
}

#[test]
fn encodings_are_set_and_shown() {
    let editor = one();
    assert_eq!(
        set_encoding(&editor, args("latin1"), OK).steps,
        vec![Action::SetEncoding("latin1".to_string())]
    );
    assert_eq!(set_encoding(&editor, Args::empty(), OK), Plan::status("UTF-8"));
}

#[test]
fn languages_are_set_and_shown() {
    let mut editor = one();
    assert_eq!(language(&editor, Args::empty(), OK), Plan::status("rust"));
    let rest = vec![
        Action::Do(Op::DetectIndentAndLineEnding),
        Action::Do(Op::RefreshServers(DocumentId { number: 1 })),
        Action::Do(Op::RefreshDiagnostics),
    ];
    let plan = language(&editor, args("c"), OK);
    assert_eq!(plan.steps[0], Action::SetLanguage("c".to_string()));
    assert_eq!(plan.steps[1..], rest[..]);
    let plan = language(&editor, args("text"), OK);
    assert_eq!(plan.steps[0], Action::Do(Op::ClearLanguage));
    assert_eq!(
        language(&editor, args("a b"), OK),
        Plan::failing("Bad arguments. Usage: `:set-language language`")
    );
    editor.documents[0].language_name = None;
    assert_eq!(language(&editor, Args::empty(), OK), Plan::status("text"));
}

#[test]
fn selections_are_sorted() {
    let editor = one();
    assert_eq!(
        sort(&editor, Args::empty(), OK).steps,
        changing(&editor, Action::Do(Op::SortSelections { reverse: false }))
    );
    assert_eq!(
        sort_reverse(&editor, Args::empty(), OK).steps,
        changing(&editor, Action::Do(Op::SortSelections { reverse: true }))
    );
    let text = "pear fig apple";
    let ranges =
        vec![Range { from: 0, to: 4 }, Range { from: 5, to: 8 }, Range { from: 9, to: 14 }];
    assert_eq!(apply(text, &sort_changes(text, &ranges, false)), "apple fig pear");
    assert_eq!(apply(text, &sort_changes(text, &ranges, true)), "pear fig apple");
    let text = "b a \u{e4} ab A";
    let ranges = vec![
        Range { from: 0, to: 1 },
        Range { from: 2, to: 3 },
        Range { from: 4, to: 5 },
        Range { from: 6, to: 8 },
        Range { from: 9, to: 10 },
    ];
    assert_eq!(apply(text, &sort_changes(text, &ranges, false)), "A a ab b \u{e4}");
    assert_eq!(apply(text, &sort_changes(text, &ranges, true)), "\u{e4} b ab a A");
}

#[test]
fn selections_are_wrapped() {
    let mut editor = one();
    let wrapped = |editor: &Editor, width| {
        changing(editor, Action::Do(Op::ReflowSelections { width }))
    };
    assert_eq!(reflow(&editor, args("20"), OK).steps, wrapped(&editor, 20));
    assert_eq!(reflow(&editor, Args::empty(), OK).steps, wrapped(&editor, 80));
    editor.documents[0].text_width = Some(72);
    assert_eq!(reflow(&editor, Args::empty(), OK).steps, wrapped(&editor, 72));
    assert_eq!(
        reflow(&editor, args("wide"), OK),
        Plan::failing("invalid digit found in string")
    );
    assert_eq!(
        selected_texts("h\u{e4}llo", &vec![Range { from: 1, to: 3 }, Range { from: 4, to: 4 }]),
        texts(&["\u{e4}l", ""])
    );
    assert_eq!(
        reflow_changes(&vec![Range { from: 2, to: 5 }], &texts(&["x\ny"])),
        vec![change(2, 5, "x\ny")]
    );
}

fn diff() -> Diff {
    Diff {
        base: texts(&["one\n", "two\n", "three\n"]),
        lines: texts(&["one\n", "2\n", "2b\n", "three\n", "four\n"]),
        hunks: vec![
            Hunk { before: Range { from: 1, to: 2 }, after: Range { from: 1, to: 3 } },
            Hunk { before: Range { from: 3, to: 3 }, after: Range { from: 4, to: 5 } },
        ],
    }
}

#[test]
fn differences_are_taken_back() {
    let editor = one();
    assert_eq!(reset_diff_change(&editor, Args::empty(), OK), Plan::doing(Op::ResetDiff));
    assert_eq!(
        reset_diff_change(&editor, args("x"), OK),
        Plan::failing(":reset-diff-change takes no arguments")
    );
    assert_eq!(
        diff_reset(&editor, &None),
        Plan::failing("Diff is not available in the current buffer")
    );
    let diff = diff();
    let changes = diff_changes(&diff.base, &diff.lines, &diff.hunks);
    assert_eq!(apply(&diff.lines.concat(), &changes), diff.base.concat());
    let expected = vec![change(4, 9, "two\n"), Change { from: 15, to: 20, text: None }];
    assert_eq!(changes, expected);
    let mut steps =
        changing(&editor, Action::Apply { place: place(&editor), changes: expected });
    steps.push(Action::SetStatus("Reset 2 changes".to_string()));
    assert_eq!(diff_reset(&editor, &Some(diff)).steps, steps);
}

#[test]
fn one_difference_is_taken_back() {
    let editor = one();
    let mut diff = diff();
    diff.hunks.truncate(1);
    assert_eq!(
        diff_reset(&editor, &Some(diff)).steps[3],
        Action::SetStatus("Reset 1 change".to_string())
    );
    let mut diff = self::diff();
    diff.hunks.clear();
    assert_eq!(
        diff_reset(&editor, &Some(diff)),
        Plan::failing("There are no changes under any selection")
    );
}

#[test]
fn files_are_moved() {
    let mut editor = one();
    assert_eq!(
        move_buffer(&editor, args("b.rs"), OK).steps,
        vec![Action::MoveTo("b.rs".to_string())]
    );
    assert_eq!(
        move_buffer(&editor, Args::empty(), OK),
        Plan::failing(":move takes one argument")
    );
    editor.documents[0].path = None;
    assert_eq!(
        move_buffer(&editor, args("b.rs"), OK),
        Plan::failing("Scratch buffer cannot be moved. Use :write instead")
    );
    assert_eq!(moved(None), Plan::nothing());
    assert_eq!(moved(Some("no".to_string())), Plan::failing("Could not move file: no"));
}

#[test]
fn files_are_read() {
    let editor = one();
    assert_eq!(
        read(&editor, args("x.txt"), OK).steps,
        vec![Action::ReadFile("x.txt".to_string())]
    );
    assert_eq!(read(&editor, Args::empty(), OK), Plan::failing("file name is expected"));
    assert_eq!(
        read(&editor, args("a b"), OK),
        Plan::failing("only the file name is expected")
    );
    let came = |outcome| file_read(&editor, outcome);
    assert_eq!(
        came(FileRead::NotAFile("\"a b\"".to_string())),
        Plan::failing("path is not a file: \"a b\"")
    );
    assert_eq!(
        came(FileRead::NotOpened("why".to_string())),
        Plan::failing("error opening file: why")
    );
    assert_eq!(
        came(FileRead::NotRead("why".to_string())),
        Plan::failing("error reading file: why")
    );
    assert_eq!(
        came(FileRead::Contents("text".to_string())).steps,
        changing(&editor, Action::InsertText("text".to_string()))
    );
}
