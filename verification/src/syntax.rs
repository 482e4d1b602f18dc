//! The syntax of the document in focus.
use vstd::prelude::*;

use crate::args::{Args, PromptEvent};
use crate::buffers;
use crate::editor::Editor;
use crate::plan::{Action, Op, Plan, PlanView};
use crate::text;

verus! {

/// A text shown in a popup at the cursor.
pub open spec fn hover(contents: Seq<char>) -> PlanView {
    PlanView::of(seq![Action::Popup { id: "hover"@, contents, position: None }])
}

fn hover_with(contents: String) -> (r: Plan)
    ensures
        r@ == hover(contents@),
{
    Plan::one(Action::Popup { id: "hover".to_owned(), contents, position: None })
}

/// What `tree-sitter-scopes` does.
pub open spec fn tree_sitter_scopes_plan(event: PromptEvent) -> PlanView {
    buffers::on_validate(event, PlanView::doing(Op::ShowScopes))
}

/// Shows the syntax scopes under the primary cursor.
pub fn tree_sitter_scopes(_editor: &Editor, _args: Args, event: PromptEvent) -> (r: Plan)
    ensures
        r@ == tree_sitter_scopes_plan(event),
{
    if event != PromptEvent::Validate {
        return Plan::nothing();
    }
    Plan::doing(Op::ShowScopes)
}

/// How syntax scopes are shown.
pub open spec fn scopes_shown_plan(scopes: Seq<Seq<char>>) -> PlanView {
    hover("```json\n"@ + text::debug_list(scopes) + "\n````"@)
}

/// Goes on with `tree_sitter_scopes` when the scopes are known.
pub fn scopes_shown(scopes: &Vec<String>) -> (r: Plan)
    ensures
        r@ == scopes_shown_plan(text::views(scopes@)),
{
    let mut contents = "```json\n".to_owned();
    contents.append(text::to_debug_list(scopes).as_str());
    contents.append("\n````");
    hover_with(contents)
}

/// What `tree-sitter-highlight-name` does.
pub open spec fn tree_sitter_highlight_name_plan(event: PromptEvent) -> PlanView {
    buffers::on_validate(event, PlanView::doing(Op::ShowHighlight))
}

/// Shows the name of the highlight under the primary cursor.
pub fn tree_sitter_highlight_name(_editor: &Editor, _args: Args, event: PromptEvent) -> (r: Plan)
    ensures
        r@ == tree_sitter_highlight_name_plan(event),
{
    if event != PromptEvent::Validate {
        return Plan::nothing();
    }
    Plan::doing(Op::ShowHighlight)
}

/// The lesser of two numbers.
pub open spec fn lesser(a: int, b: int) -> int {
    if a <= b {
        a
    } else {
        b
    }
}

/// The greater of two numbers.
pub open spec fn greater(a: int, b: int) -> int {
    if a >= b {
        a
    } else {
        b
    }
}

/// The first of the lines that are seen, and the one behind the last of them, given the first
/// row, the height of the view and the number of lines.
pub open spec fn visible_lines(row: int, height: int, lines: int) -> (int, int) {
    let last_line = greater(lines - 1, 0);
    (lesser(row, last_line), lesser(greater(row + height - 1, 0), last_line) + 1)
}

/// The lines that are seen. These are the lines that syntax highlighting looks at.
pub fn highlight_lines(row: usize, height: u16, lines: usize) -> (r: (usize, usize))
    requires
        row + height <= usize::MAX,
    ensures
        (r.0 as int, r.1 as int) == visible_lines(row as int, height as int, lines as int),
{
    // Saturating subtraction, for lines counted from zero.
    let last_line = lines.saturating_sub(1);
    let below = (row + height as usize).saturating_sub(1);
    let last_visible_line = if below <= last_line {
        below
    } else {
        last_line
    };
    let first_line = if row <= last_line {
        row
    } else {
        last_line
    };
    assert(last_visible_line < usize::MAX) by {
        assert(last_line < usize::MAX);
    }
    (first_line, last_visible_line + 1)
}

/// What syntax highlighting comes upon in a text.
#[derive(Clone, Copy, Debug, PartialEq, Eq, Structural)]
pub enum HighlightEvent {
    /// A part of the text, by its bytes.
    Source { start: usize, end: usize },
    /// The start of a highlight.
    HighlightStart(usize),
    /// The end of a highlight.
    HighlightEnd,
}

/// The last highlight that starts among some events, if one does.
pub open spec fn last_started(events: Seq<HighlightEvent>) -> Option<usize>
    decreases events.len(),
{
    if events.len() == 0 {
        None
    } else {
        match events.last() {
            HighlightEvent::HighlightStart(highlight) => Some(highlight),
            _ => last_started(events.drop_last()),
        }
    }
}

/// The highlight in effect where the part of the text from `start` to `end` first comes: the one
/// that has started last.
pub open spec fn highlight_of(
    events: Seq<HighlightEvent>,
    start: usize,
    end: usize,
) -> Option<usize> {
    let source = HighlightEvent::Source { start, end };
    if events.contains(source) {
        last_started(events.take(events.index_of_first(source)->0))
    } else {
        None
    }
}

/// Finds the highlight in effect where the part of the text from `start` to `end` first comes.
pub fn highlight_at(events: &Vec<HighlightEvent>, start: usize, end: usize) -> (r: Option<usize>)
    ensures
        r == highlight_of(events@, start, end),
{
    let ghost source = HighlightEvent::Source { start, end };
    let mut highlight: Option<usize> = None;
    let mut i: usize = 0;
    while i < events.len()
        invariant
            source == (HighlightEvent::Source { start, end }),
            i <= events.len(),
            forall|j: int| 0 <= j < i ==> events@[j] != source,
            highlight == last_started(events@.take(i as int)),
        decreases events.len() - i,
    {
        assert(events@.take(i + 1).drop_last() =~= events@.take(i as int));
        match events[i] {
            HighlightEvent::Source { start: from, end: to } => {
                if from == start && to == end {
                    proof {
                        events@.index_of_first_ensures(source);
                        assert(events@[i as int] == source);
                    }
                    return highlight;
                }
            },
            HighlightEvent::HighlightStart(started) => {
                highlight = Some(started);
            },
            HighlightEvent::HighlightEnd => {},
        }
        i = i + 1;
    }
    None
}

/// Goes on with `tree_sitter_highlight_name` when the name of the highlight is known, if there
/// is one.
pub fn highlight_shown(scope: String) -> (r: Plan)
    ensures
        r@ == hover(scope@),
{
    hover_with(scope)
}

/// What `tree-sitter-subtree` does.
pub open spec fn tree_sitter_subtree_plan(event: PromptEvent) -> PlanView {
    buffers::on_validate(event, PlanView::doing(Op::ShowSubtree))
}

/// Shows the smallest part of the syntax tree that spans the primary selection.
pub fn tree_sitter_subtree(_editor: &Editor, _args: Args, event: PromptEvent) -> (r: Plan)
    ensures
        r@ == tree_sitter_subtree_plan(event),
{
    if event != PromptEvent::Validate {
        return Plan::nothing();
    }
    Plan::doing(Op::ShowSubtree)
}

/// How a part of the syntax tree is shown.
pub open spec fn subtree_shown_plan(tree: Seq<char>) -> PlanView {
    hover("```tsq\n"@ + tree + "\n```"@)
}

/// Goes on with `tree_sitter_subtree` when there is such a part.
pub fn subtree_shown(tree: &str) -> (r: Plan)
    ensures
        r@ == subtree_shown_plan(tree@),
{
    let mut contents = "```tsq\n".to_owned();
    contents.append(tree);
    contents.append("\n```");
    hover_with(contents)
}

} // verus!
