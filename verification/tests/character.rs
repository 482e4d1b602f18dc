use typed_commands::args::{Args, PromptEvent};
use typed_commands::change::LineEnding;
use typed_commands::character::{character_info, character_status, get_character_info};
use typed_commands::editor::{
    Document, DocumentId, Editor, IndentStyle, ViewId, ViewInfo,
};
use typed_commands::plan::{Op, Plan};

fn document(number: u64, path: Option<&str>, modified: bool) -> Document {
    let parts = |path: &str| path.split('/').map(|part| part.to_string()).collect::<Vec<_>>();
    Document {
        id: DocumentId { number },
        path: path.map(|path| parts(&format!("/work/{path}"))),
        relative_path: path.map(parts),
        display_name: path.unwrap_or("[scratch]").to_string(),
        modified,
        formatter: false,
        auto_formatter: false,
        indent_style: IndentStyle::Spaces(4),
        line_ending: LineEnding::LF,
        encoding: "UTF-8".to_string(),
        language_name: Some("rust".to_string()),
        text_width: None,
        configured_servers: None,
        servers: Vec::new(),
        views: Vec::new(),
    }
}

fn editor(documents: Vec<Document>) -> Editor {
    let view = ViewId { number: 1 };
    let doc = documents[0].id;
    Editor {
        documents,
        current: 0,
        views: vec![ViewInfo { id: view, doc }],
        current_view: view,
        insert_final_newline: true,
        auto_format: true,
        unicode_lines: false,
        true_color: false,
        text_width: 80,
        selected_register: None,
        clipboard_provider: "none".to_string(),
        theme_name: "default".to_string(),
        last_cwd: None,
        last_selection: false,
        debugger: None,
        command_servers: Vec::new(),
        default_language: "text".to_string(),
    }
}

fn info(grapheme: &str, encoding: &str) -> Plan {
    let mut document = document(1, None, false);
    document.encoding = encoding.to_string();
    character_info(&editor(vec![document]), grapheme)
}

#[test]
fn characters_are_inspected_on_confirmation() {
    let editor = editor(vec![document(1, None, false)]);
    assert_eq!(
        get_character_info(&editor, Args::empty(), PromptEvent::Validate),
        Plan::doing(Op::InspectCharacter)
    );
    assert_eq!(get_character_info(&editor, Args::empty(), PromptEvent::Update), Plan::nothing());
}

#[test]
fn ascii_characters_have_a_decimal_value() {
    assert_eq!(info("h", "UTF-8"), Plan::status("\"h\" (U+0068) Dec 104 Hex 68"));
    assert_eq!(info("h", "windows-1252"), Plan::status("\"h\" Dec 104 Hex 68"));
}

#[test]
fn control_characters_are_escaped() {
    assert_eq!(info("\0", "UTF-8"), Plan::status("\"\\0\" (U+0000) Dec 0 Hex 00"));
    assert_eq!(info("\t", "UTF-8"), Plan::status("\"\\t\" (U+0009) Dec 9 Hex 09"));
    assert_eq!(info("\r\n", "UTF-8"), Plan::status("\"\\r\\n\" (U+000d U+000a) Hex 0d + 0a"));
}

#[test]
fn all_characters_of_a_grapheme_are_shown() {
    assert_eq!(
        info("e\u{301}", "UTF-8"),
        Plan::status("\"e\u{301}\" (U+0065 U+0301) Hex 65 + cc 81")
    );
    assert_eq!(
        info("\u{1f600}", "UTF-8"),
        Plan::status("\"\u{1f600}\" (U+1f600) Hex f0 9f 98 80")
    );
}

#[test]
fn bytes_are_those_of_the_encoding() {
    assert_eq!(info("\u{e9}", "windows-1252"), Plan::status("\"\u{e9}\" Hex e9"));
    assert_eq!(
        info("\u{30ab}", "ISO-2022-JP"),
        Plan::status("\"\u{30ab}\" Hex 1b 24 42 25 2b 1b 28 42")
    );
    assert_eq!(info("h", "ISO-2022-JP"), Plan::status("\"h\" Hex 68"));
    assert_eq!(info("h", "UTF-16LE"), Plan::status("\"h\" Hex 68"));
}

#[test]
fn characters_that_cannot_be_encoded_are_named() {
    assert_eq!(
        info("e\u{301}", "windows-1252"),
        Plan::failing("'\\u{301}' cannot be mapped to windows-1252")
    );
}

#[test]
fn escapes_have_no_encoding_among_escapes() {
    assert_eq!(
        info("\u{1b}", "ISO-2022-JP"),
        Plan::failing("'\u{fffd}' cannot be mapped to ISO-2022-JP")
    );
    assert_eq!(info("\u{1b}", "UTF-8"), Plan::status("\"\u{1b}\" (U+001b) Dec 27 Hex 1b"));
}

#[test]
fn nothing_is_known_at_the_end() {
    assert_eq!(info("", "UTF-8"), Plan::nothing());
}

#[test]
fn status_follows_from_the_encoded_characters() {
    assert_eq!(
        character_status("ab", "x", &vec![Ok(vec![1, 255]), Ok(vec![])]),
        Plan::status("\"ab\" Hex 01 ff +")
    );
    assert_eq!(
        character_status("ab", "x", &vec![Ok(vec![1]), Err('b')]),
        Plan::failing("'b' cannot be mapped to x")
    );
    assert_eq!(
        character_status("ab", "x", &vec![Err('a'), Err('b')]),
        Plan::failing("'a' cannot be mapped to x")
    );
}
