//! Commands about the text of the document in focus and how it is read.
use vstd::prelude::*;

use crate::args::{Args, ArgsView, PromptEvent};
use crate::buffers;
use crate::change;
use crate::change::LineEnding;
use crate::diff;
use crate::diff::Hunk;
use crate::editor::{Editor, IndentStyle, MAX_INDENT};
use crate::number;
use crate::plan;
use crate::plan::{Action, Op, Plan, PlanView, StepView};
use crate::text;

verus! {

/// What `format` does.
pub open spec fn format_plan(editor: Editor, event: PromptEvent) -> PlanView {
    buffers::on_validate(
        event,
        if editor.doc_spec().formatter {
            PlanView::doing(Op::Format(editor.place_spec()))
        } else {
            PlanView::failing(
                "A formatter isn't available, and no language server provides formatting capabilities"@,
            )
        },
    )
}

/// Formats the document in focus.
pub fn format(editor: &Editor, _args: Args, event: PromptEvent) -> (r: Plan)
    requires
        editor.wf(),
    ensures
        r@ == format_plan(*editor, event),
{
    if event != PromptEvent::Validate {
        return Plan::nothing();
    }
    if editor.doc().formatter {
        Plan::doing(Op::Format(editor.place()))
    } else {
        Plan::failing(
            "A formatter isn't available, and no language server provides formatting capabilities",
        )
    }
}

/// How an indent style is shown.
pub open spec fn indent_text(style: IndentStyle) -> Seq<char> {
    match style {
        IndentStyle::Tabs => "tabs"@,
        IndentStyle::Spaces(n) => if n == 1 {
            "1 space"@
        } else {
            text::decimal(n as nat) + " spaces"@
        },
    }
}

/// The indent style that an argument names: tabs by a beginning of that word or by zero, spaces
/// by their number.
pub open spec fn indent_style(arg: Seq<char>) -> Option<IndentStyle> {
    if text::lowercased(arg).is_prefix_of("tabs"@) || arg == "0"@ {
        Some(IndentStyle::Tabs)
    } else {
        match number::unsigned(arg, 255) {
            Ok(n) => if 1 <= n <= MAX_INDENT {
                Some(IndentStyle::Spaces(n as u8))
            } else {
                None
            },
            Err(_) => None,
        }
    }
}

/// The indent style that an argument names.
fn parse_indent_style(arg: &str) -> (r: Option<IndentStyle>)
    ensures
        r == indent_style(arg@),
{
    if text::starts_with("tabs", text::to_lowercase(arg).as_str()) || text::same(arg, "0") {
        return Some(IndentStyle::Tabs);
    }
    match number::parse_u8(arg) {
        Ok(n) => if 1 <= n && n <= MAX_INDENT {
            Some(IndentStyle::Spaces(n))
        } else {
            None
        },
        Err(_) => None,
    }
}

/// From one to sixteen, a number names that many spaces.
pub proof fn lemma_indent_number(n: nat)
    requires
        1 <= n <= MAX_INDENT,
    ensures
        indent_style(text::decimal(n)) == Some(IndentStyle::Spaces(n as u8)),
{
    let arg = text::decimal(n);
    number::lemma_decimal_read(n);
    assert forall|i: int| 0 <= i < arg.len() implies #[trigger] arg[i] <= '\u{7f}' by {
        assert(number::is_digit(arg[i]));
    }
    assert(number::is_digit(arg[0]));
    assert(text::lowercased(arg)[0] == arg[0]);
    reveal_strlit("tabs");
    if text::lowercased(arg).is_prefix_of("tabs"@) {
        assert("tabs"@.subrange(0, arg.len() as int)[0] == 't');
    }
    reveal_strlit("0");
    if arg == "0"@ {
        assert("0"@.drop_last() =~= Seq::<char>::empty());
        assert(number::digits_value("0"@) == number::digits_value("0"@.drop_last()) * 10 + 0);
    }
}

/// Every beginning of the word for tabs names tabs, in upper or lower case.
pub proof fn lemma_indent_tabs(arg: Seq<char>)
    requires
        text::all_ascii(arg),
        text::ascii_lowercased(arg).is_prefix_of("tabs"@),
    ensures
        indent_style(arg) == Some(IndentStyle::Tabs),
{
}

/// What `indent-style` does.
pub open spec fn set_indent_style_plan(
    editor: Editor,
    args: ArgsView,
    event: PromptEvent,
) -> PlanView {
    buffers::on_validate(
        event,
        if args.is_empty() {
            PlanView::status(indent_text(editor.doc_spec().indent_style))
        } else if args.next() is Some && indent_style(args.next()->0) is Some {
            PlanView::doing(Op::SetIndentStyle(indent_style(args.next()->0)->0))
        } else {
            PlanView::failing("invalid indent style"@)
        },
    )
}

/// Sets how the lines of the document in focus are indented, or shows it when there is no
/// argument.
pub fn set_indent_style(editor: &Editor, args: Args, event: PromptEvent) -> (r: Plan)
    requires
        editor.wf(),
    ensures
        r@ == set_indent_style_plan(*editor, args@, event),
{
    if event != PromptEvent::Validate {
        return Plan::nothing();
    }
    if args.is_empty() {
        return match editor.doc().indent_style {
            IndentStyle::Tabs => Plan::status("tabs"),
            IndentStyle::Spaces(n) => if n == 1 {
                Plan::status("1 space")
            } else {
                let mut message = text::to_digits(n as u64, 10, 0);
                message.append(" spaces");
                Plan::status(message.as_str())
            },
        };
    }
    let mut args = args;
    match args.next() {
        Some(arg) => match parse_indent_style(arg.as_str()) {
            Some(style) => Plan::doing(Op::SetIndentStyle(style)),
            None => Plan::failing("invalid indent style"),
        },
        None => Plan::failing("invalid indent style"),
    }
}

/// How a line ending is shown.
pub open spec fn line_ending_text(ending: LineEnding) -> Seq<char> {
    match ending {
        LineEnding::Crlf => "crlf"@,
        LineEnding::LF => "line feed"@,
        LineEnding::FF => "form feed"@,
        LineEnding::CR => "carriage return"@,
        LineEnding::Nel => "next line"@,
        // These should never be a document's line ending.
        LineEnding::VT | LineEnding::LS | LineEnding::PS => "error"@,
    }
}

/// The line ending that an argument names by its beginning, in either case.
pub open spec fn named_line_ending(arg: Seq<char>, unicode_lines: bool) -> Option<LineEnding> {
    let name = text::ascii_lowercased(arg);
    if "crlf"@.is_prefix_of(name) {
        Some(LineEnding::Crlf)
    } else if "lf"@.is_prefix_of(name) {
        Some(LineEnding::LF)
    } else if unicode_lines && "cr"@.is_prefix_of(name) {
        Some(LineEnding::CR)
    } else if unicode_lines && "ff"@.is_prefix_of(name) {
        Some(LineEnding::FF)
    } else if unicode_lines && "nel"@.is_prefix_of(name) {
        Some(LineEnding::Nel)
    } else {
        None
    }
}

/// The line ending that an argument names.
fn parse_line_ending(arg: &str, unicode_lines: bool) -> (r: Option<LineEnding>)
    ensures
        r == named_line_ending(arg@, unicode_lines),
{
    let name = text::to_ascii_lowercase(arg);
    if text::starts_with(name.as_str(), "crlf") {
        Some(LineEnding::Crlf)
    } else if text::starts_with(name.as_str(), "lf") {
        Some(LineEnding::LF)
    } else if unicode_lines && text::starts_with(name.as_str(), "cr") {
        Some(LineEnding::CR)
    } else if unicode_lines && text::starts_with(name.as_str(), "ff") {
        Some(LineEnding::FF)
    } else if unicode_lines && text::starts_with(name.as_str(), "nel") {
        Some(LineEnding::Nel)
    } else {
        None
    }
}

/// A document is only given a line ending that counts as one.
pub proof fn lemma_named_line_ending_recognized(arg: Seq<char>, unicode_lines: bool)
    ensures
        match named_line_ending(arg, unicode_lines) {
            Some(ending) => ending.recognized(unicode_lines),
            None => true,
        },
{
}

/// What `line-ending` does.
pub open spec fn set_line_ending_plan(
    editor: Editor,
    args: ArgsView,
    event: PromptEvent,
) -> PlanView {
    buffers::on_validate(
        event,
        if args.is_empty() {
            PlanView::status(line_ending_text(editor.doc_spec().line_ending))
        } else if args.next() is None {
            PlanView::failing("argument missing"@)
        } else {
            match named_line_ending(args.next()->0, editor.unicode_lines) {
                Some(ending) => PlanView::of(
                    seq![
                        Action::Do(Op::SetLineEnding(ending)),
                        Action::Do(Op::ConvertLineEndings(ending)),
                        Action::Do(Op::CommitChanges(editor.place_spec())),
                    ],
                ),
                None => PlanView::failing("invalid line ending"@),
            }
        },
    )
}

/// Sets how the lines of the document in focus end and changes their endings, or shows it when
/// there is no argument.
pub fn set_line_ending(editor: &Editor, args: Args, event: PromptEvent) -> (r: Plan)
    requires
        editor.wf(),
    ensures
        r@ == set_line_ending_plan(*editor, args@, event),
{
    if event != PromptEvent::Validate {
        return Plan::nothing();
    }
    if args.is_empty() {
        return match editor.doc().line_ending {
            LineEnding::Crlf => Plan::status("crlf"),
            LineEnding::LF => Plan::status("line feed"),
            LineEnding::FF => Plan::status("form feed"),
            LineEnding::CR => Plan::status("carriage return"),
            LineEnding::Nel => Plan::status("next line"),
            LineEnding::VT | LineEnding::LS | LineEnding::PS => Plan::status("error"),
        };
    }
    let ghost given = args@;
    let mut args = args;
    match args.next() {
        Some(arg) => match parse_line_ending(arg.as_str(), editor.unicode_lines) {
            Some(ending) => {
                let mut plan = Plan::doing(Op::SetLineEnding(ending));
                plan.push(Action::Do(Op::ConvertLineEndings(ending)));
                plan.push(Action::Do(Op::CommitChanges(editor.place())));
                assert(plan@.steps =~= set_line_ending_plan(*editor, given, event).steps);
                plan
            },
            None => Plan::failing("invalid line ending"),
        },
        None => Plan::failing("argument missing"),
    }
}

/// What `earlier` does.
pub open spec fn earlier_plan(args: ArgsView, event: PromptEvent) -> PlanView {
    buffers::on_validate(event, PlanView::of(seq![Action::Earlier(args.raw)]))
}

/// Goes back in history.
pub fn earlier(_editor: &Editor, args: Args, event: PromptEvent) -> (r: Plan)
    ensures
        r@ == earlier_plan(args@, event),
{
    if event != PromptEvent::Validate {
        return Plan::nothing();
    }
    Plan::one(Action::Earlier(args.raw))
}

/// What `later` does.
pub open spec fn later_plan(args: ArgsView, event: PromptEvent) -> PlanView {
    buffers::on_validate(event, PlanView::of(seq![Action::Later(args.raw)]))
}

/// Goes forward in history.
pub fn later(_editor: &Editor, args: Args, event: PromptEvent) -> (r: Plan)
    ensures
        r@ == later_plan(args@, event),
{
    if event != PromptEvent::Validate {
        return Plan::nothing();
    }
    Plan::one(Action::Later(args.raw))
}

/// What is said when history could not be traveled.
pub open spec fn traveled_plan(back: bool, success: bool) -> PlanView {
    if success {
        PlanView::nothing()
    } else if back {
        PlanView::status("Already at oldest change"@)
    } else {
        PlanView::status("Already at newest change"@)
    }
}

/// Goes on with `earlier` and `later` when it is known whether anything has changed.
pub fn traveled(back: bool, success: bool) -> (r: Plan)
    ensures
        r@ == traveled_plan(back, success),
{
    if success {
        Plan::nothing()
    } else if back {
        Plan::status("Already at oldest change")
    } else {
        Plan::status("Already at newest change")
    }
}

/// What `encoding` does.
pub open spec fn set_encoding_plan(
    editor: Editor,
    args: ArgsView,
    event: PromptEvent,
) -> PlanView {
    buffers::on_validate(
        event,
        match args.next() {
            Some(label) => PlanView::of(seq![Action::SetEncoding(label)]),
            None => PlanView::status(editor.doc_spec().encoding@),
        },
    )
}

/// Sets the encoding of the document in focus, or shows it when there is no argument.
pub fn set_encoding(editor: &Editor, args: Args, event: PromptEvent) -> (r: Plan)
    requires
        editor.wf(),
    ensures
        r@ == set_encoding_plan(*editor, args@, event),
{
    if event != PromptEvent::Validate {
        return Plan::nothing();
    }
    let mut args = args;
    match args.next() {
        Some(label) => Plan::one(Action::SetEncoding(label)),
        None => Plan::status(editor.doc().encoding.as_str()),
    }
}

/// The steps that follow a change of language.
pub open spec fn language_steps(editor: Editor) -> Seq<StepView> {
    seq![
        Action::Do(Op::DetectIndentAndLineEnding),
        Action::Do(Op::RefreshServers(editor.doc_spec().id)),
        Action::Do(Op::RefreshDiagnostics),
    ]
}

/// What `set-language` does.
pub open spec fn language_plan(editor: Editor, args: ArgsView, event: PromptEvent) -> PlanView {
    buffers::on_validate(
        event,
        if args.is_empty() {
            match editor.doc_spec().language_name {
                Some(name) => PlanView::status(name@),
                None => PlanView::status(editor.default_language@),
            }
        } else if args.words.len() != 1 {
            PlanView::failing("Bad arguments. Usage: `:set-language language`"@)
        } else {
            let name = args.next()->0;
            let first = if name == editor.default_language@ {
                Action::Do(Op::ClearLanguage)
            } else {
                Action::SetLanguage(name)
            };
            PlanView::of(seq![first] + language_steps(editor))
        },
    )
}

/// Changes the language of the document in focus, or shows it when there is no argument.
pub fn language(editor: &Editor, args: Args, event: PromptEvent) -> (r: Plan)
    requires
        editor.wf(),
        args@.taken == 0,
    ensures
        r@ == language_plan(*editor, args@, event),
{
    if event != PromptEvent::Validate {
        return Plan::nothing();
    }
    if args.is_empty() {
        return match &editor.doc().language_name {
            Some(name) => Plan::status(name.as_str()),
            None => Plan::status(editor.default_language.as_str()),
        };
    }
    if args.arg_count() != 1 {
        return Plan::failing("Bad arguments. Usage: `:set-language language`");
    }
    let ghost given = args@;
    let mut args = args;
    match args.next() {
        Some(name) => {
            let mut plan = if text::same(name.as_str(), editor.default_language.as_str()) {
                Plan::doing(Op::ClearLanguage)
            } else {
                Plan::one(Action::SetLanguage(name))
            };
            plan.push(Action::Do(Op::DetectIndentAndLineEnding));
            plan.push(Action::Do(Op::RefreshServers(editor.doc().id)));
            plan.push(Action::Do(Op::RefreshDiagnostics));
            assert(plan@.steps =~= language_plan(*editor, given, event).steps);
            plan
        },
        None => Plan::nothing(),
    }
}

/// A change of the document in focus, which becomes a step of its history, and scrolling to the
/// cursor.
pub open spec fn changing(editor: Editor, step: StepView) -> PlanView {
    PlanView::of(
        seq![
            step,
            Action::Do(Op::CommitChanges(editor.place_spec())),
            Action::Do(Op::EnsureCursorInView(editor.place_spec())),
        ],
    )
}

/// A change of the document in focus, which becomes a step of its history, and scrolling to the
/// cursor.
fn change_by(editor: &Editor, step: plan::Step) -> (r: Plan)
    requires
        editor.wf(),
    ensures
        r@ == changing(*editor, step@),
{
    let mut plan = Plan::one(step);
    plan.push(Action::Do(Op::CommitChanges(editor.place())));
    plan.push(Action::Do(Op::EnsureCursorInView(editor.place())));
    assert(plan@.steps =~= changing(*editor, step@).steps);
    plan
}

/// What sorting the selections does.
pub open spec fn sort_impl_plan(editor: Editor, reverse: bool) -> PlanView {
    changing(editor, Action::Do(Op::SortSelections { reverse }))
}

fn sort_impl(editor: &Editor, _args: Args, reverse: bool) -> (r: Plan)
    requires
        editor.wf(),
    ensures
        r@ == sort_impl_plan(*editor, reverse),
{
    change_by(editor, Action::Do(Op::SortSelections { reverse }))
}

/// What `sort` does.
pub open spec fn sort_plan(editor: Editor, event: PromptEvent) -> PlanView {
    buffers::on_validate(event, sort_impl_plan(editor, false))
}

/// Sorts the selections.
pub fn sort(editor: &Editor, args: Args, event: PromptEvent) -> (r: Plan)
    requires
        editor.wf(),
    ensures
        r@ == sort_plan(*editor, event),
{
    if event != PromptEvent::Validate {
        return Plan::nothing();
    }
    sort_impl(editor, args, false)
}

/// What `rsort` does.
pub open spec fn sort_reverse_plan(editor: Editor, event: PromptEvent) -> PlanView {
    buffers::on_validate(event, sort_impl_plan(editor, true))
}

/// Sorts the selections, the greatest first.
pub fn sort_reverse(editor: &Editor, args: Args, event: PromptEvent) -> (r: Plan)
    requires
        editor.wf(),
    ensures
        r@ == sort_reverse_plan(*editor, event),
{
    if event != PromptEvent::Validate {
        return Plan::nothing();
    }
    sort_impl(editor, args, true)
}

/// The width to which the selections are wrapped: the argument, or the width for the language, or
/// the width for all texts.
pub open spec fn reflow_width(editor: Editor, args: ArgsView) -> Result<nat, number::IntError> {
    match args.next() {
        Some(arg) => number::unsigned(arg, usize::MAX as nat),
        None => match editor.doc_spec().text_width {
            Some(width) => Ok(width as nat),
            None => Ok(editor.text_width as nat),
        },
    }
}

/// What `reflow` does.
pub open spec fn reflow_plan(editor: Editor, args: ArgsView, event: PromptEvent) -> PlanView {
    buffers::on_validate(
        event,
        match reflow_width(editor, args) {
            Ok(width) => changing(
                editor,
                Action::Do(Op::ReflowSelections { width: width as usize }),
            ),
            Err(error) => PlanView::failing(error.message_spec()),
        },
    )
}

/// Wraps the lines of the selections.
pub fn reflow(editor: &Editor, args: Args, event: PromptEvent) -> (r: Plan)
    requires
        editor.wf(),
    ensures
        r@ == reflow_plan(*editor, args@, event),
{
    if event != PromptEvent::Validate {
        return Plan::nothing();
    }
    let mut args = args;
    let width = match args.next() {
        Some(arg) => match number::parse_usize(arg.as_str()) {
            Ok(width) => width,
            Err(error) => {
                return Plan::failing(error.message().as_str());
            },
        },
        None => match editor.doc().text_width {
            Some(width) => width,
            None => editor.text_width,
        },
    };
    change_by(editor, Action::Do(Op::ReflowSelections { width }))
}

/// What `reset-diff-change` does.
pub open spec fn reset_diff_change_plan(args: ArgsView, event: PromptEvent) -> PlanView {
    buffers::on_validate(
        event,
        if args.is_empty() {
            PlanView::doing(Op::ResetDiff)
        } else {
            PlanView::failing(":reset-diff-change takes no arguments"@)
        },
    )
}

/// Takes back the changes under the selections.
pub fn reset_diff_change(_editor: &Editor, args: Args, event: PromptEvent) -> (r: Plan)
    ensures
        r@ == reset_diff_change_plan(args@, event),
{
    if event != PromptEvent::Validate {
        return Plan::nothing();
    }
    if args.is_empty() {
        Plan::doing(Op::ResetDiff)
    } else {
        Plan::failing(":reset-diff-change takes no arguments")
    }
}

/// What a document is compared with, and where it differs.
#[derive(Debug, PartialEq, Eq)]
pub struct Diff {
    /// The lines of what the document is compared with.
    pub base: Vec<String>,
    /// The lines of the document.
    pub lines: Vec<String>,
    /// The differences under the selections.
    pub hunks: Vec<Hunk>,
}

impl Diff {
    /// The differences are about lines that there are.
    pub open spec fn wf(self) -> bool {
        &&& change::concatenated(text::views(self.lines@)).len() <= usize::MAX
        &&& forall|i: int|
            0 <= i < self.hunks.len() ==> diff::within(
                (#[trigger] self.hunks[i]).before,
                self.base.len() as int,
            ) && diff::within(self.hunks[i].after, self.lines.len() as int)
    }
}

/// What is done when it is known where the document in focus differs.
pub open spec fn diff_reset_plan(editor: Editor, diff: Option<Diff>) -> PlanView {
    match diff {
        None => PlanView::failing("Diff is not available in the current buffer"@),
        Some(diff) => {
            let count = diff.hunks@.len();
            if count == 0 {
                PlanView::failing("There are no changes under any selection"@)
            } else {
                let changes = diff::hunk_changes(
                    text::views(diff.base@),
                    text::views(diff.lines@),
                    diff.hunks@,
                );
                changing(
                    editor,
                    Action::Apply { place: editor.place_spec(), changes },
                ).followed_by(
                    PlanView::status(
                        "Reset "@ + text::decimal(count) + " change"@ + text::plural(count),
                    ),
                )
            }
        },
    }
}

/// Goes on with `reset_diff_change` when it is known where the document in focus differs, if it
/// is compared with anything.
pub fn diff_reset(editor: &Editor, diff: &Option<Diff>) -> (r: Plan)
    requires
        editor.wf(),
        diff is Some ==> diff->0.wf(),
    ensures
        r@ == diff_reset_plan(*editor, *diff),
{
    match diff {
        None => Plan::failing("Diff is not available in the current buffer"),
        Some(diff) => {
            let count = diff.hunks.len();
            if count == 0 {
                return Plan::failing("There are no changes under any selection");
            }
            let changes = diff::diff_changes(&diff.base, &diff.lines, &diff.hunks);
            let mut message = "Reset ".to_owned();
            message.append(text::to_decimal(count).as_str());
            message.append(" change");
            message.append(text::plural_ending(count));
            change_by(editor, Action::Apply { place: editor.place(), changes }).followed_by(
                Plan::status(message.as_str()),
            )
        },
    }
}

/// What `move` does.
pub open spec fn move_buffer_plan(editor: Editor, args: ArgsView, event: PromptEvent) -> PlanView {
    buffers::on_validate(
        event,
        if args.words.len() != 1 {
            PlanView::failing(":move takes one argument"@)
        } else if editor.doc_spec().path is None {
            PlanView::failing("Scratch buffer cannot be moved. Use :write instead"@)
        } else {
            PlanView::of(seq![Action::MoveTo(args.next()->0)])
        },
    )
}

/// Moves the file of the document in focus.
pub fn move_buffer(editor: &Editor, args: Args, event: PromptEvent) -> (r: Plan)
    requires
        editor.wf(),
        args@.taken == 0,
    ensures
        r@ == move_buffer_plan(*editor, args@, event),
{
    if event != PromptEvent::Validate {
        return Plan::nothing();
    }
    if args.arg_count() != 1 {
        return Plan::failing(":move takes one argument");
    }
    if editor.doc().path.is_none() {
        return Plan::failing("Scratch buffer cannot be moved. Use :write instead");
    }
    let mut args = args;
    match args.next() {
        Some(path) => Plan::one(Action::MoveTo(path)),
        None => Plan::nothing(),
    }
}

/// What is said when a file could not be moved.
pub open spec fn moved_plan(error: Option<Seq<char>>) -> PlanView {
    match error {
        Some(error) => PlanView::failing("Could not move file: "@ + error),
        None => PlanView::nothing(),
    }
}

/// Goes on with `move_buffer` when it is known whether the file was moved.
pub fn moved(error: Option<String>) -> (r: Plan)
    ensures
        r@ == moved_plan(plan::maybe(error)),
{
    match error {
        Some(error) => {
            let mut message = "Could not move file: ".to_owned();
            message.append(error.as_str());
            Plan::failing(message.as_str())
        },
        None => Plan::nothing(),
    }
}

/// What `read` does.
pub open spec fn read_plan(args: ArgsView, event: PromptEvent) -> PlanView {
    buffers::on_validate(
        event,
        if args.is_empty() {
            PlanView::failing("file name is expected"@)
        } else if args.words.len() != 1 {
            PlanView::failing("only the file name is expected"@)
        } else {
            PlanView::of(seq![Action::ReadFile(args.next()->0)])
        },
    )
}

/// Inserts what a file holds before each selection.
pub fn read(_editor: &Editor, args: Args, event: PromptEvent) -> (r: Plan)
    requires
        args@.taken == 0,
    ensures
        r@ == read_plan(args@, event),
{
    if event != PromptEvent::Validate {
        return Plan::nothing();
    }
    if args.is_empty() {
        return Plan::failing("file name is expected");
    }
    if args.arg_count() != 1 {
        return Plan::failing("only the file name is expected");
    }
    let mut args = args;
    match args.next() {
        Some(path) => Plan::one(Action::ReadFile(path)),
        None => Plan::nothing(),
    }
}

/// What came of reading a file. `S` stands for a text.
#[derive(Debug, PartialEq, Eq)]
pub enum FileRead<S> {
    /// There is no file of that path, which is given as its `Debug` shows it.
    NotAFile(S),
    /// The file could not be opened, for that reason.
    NotOpened(S),
    /// The file could not be read, for that reason.
    NotRead(S),
    /// What the file holds.
    Contents(S),
}

impl View for FileRead<String> {
    type V = FileRead<Seq<char>>;

    open spec fn view(&self) -> FileRead<Seq<char>> {
        match *self {
            FileRead::NotAFile(path) => FileRead::NotAFile(path@),
            FileRead::NotOpened(error) => FileRead::NotOpened(error@),
            FileRead::NotRead(error) => FileRead::NotRead(error@),
            FileRead::Contents(contents) => FileRead::Contents(contents@),
        }
    }
}

/// What is done when a file has been read.
pub open spec fn file_read_plan(editor: Editor, outcome: FileRead<Seq<char>>) -> PlanView {
    match outcome {
        FileRead::NotAFile(path) => PlanView::failing("path is not a file: "@ + path),
        FileRead::NotOpened(error) => PlanView::failing("error opening file: "@ + error),
        FileRead::NotRead(error) => PlanView::failing("error reading file: "@ + error),
        FileRead::Contents(contents) => changing(editor, Action::InsertText(contents)),
    }
}

/// Goes on with `read` when it is known what came of reading the file.
pub fn file_read(editor: &Editor, outcome: FileRead<String>) -> (r: Plan)
    requires
        editor.wf(),
    ensures
        r@ == file_read_plan(*editor, outcome@),
{
    let (start, reason) = match outcome {
        FileRead::Contents(contents) => {
            return change_by(editor, Action::InsertText(contents));
        },
        FileRead::NotAFile(path) => ("path is not a file: ", path),
        FileRead::NotOpened(error) => ("error opening file: ", error),
        FileRead::NotRead(error) => ("error reading file: ", error),
    };
    let mut message = start.to_owned();
    message.append(reason.as_str());
    Plan::failing(message.as_str())
}

} // verus!
