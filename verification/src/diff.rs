//! Taking changed lines back to the text that a diff is made against.
use vstd::prelude::*;

use crate::change;
use crate::change::Change;
use crate::selection::Range;
use crate::text;

verus! {

/// Lines that differ: those of the text that the diff is made against, and those that stand in
/// their place.
#[derive(Clone, Copy, Debug, PartialEq, Eq, Structural)]
pub struct Hunk {
    /// The lines in the text that the diff is made against.
    pub before: Range,
    /// The lines in the document.
    pub after: Range,
}

/// Where the line of the given number begins.
pub open spec fn line_start(lines: Seq<Seq<char>>, line: int) -> nat {
    change::concatenated(lines.take(line)).len()
}

/// The text of some lines.
pub open spec fn lines_text(lines: Seq<Seq<char>>, range: Range) -> Seq<char> {
    change::concatenated(lines.subrange(range.from as int, range.to as int))
}

/// Whether lines of that number are there.
pub open spec fn within(range: Range, lines: int) -> bool {
    range.from <= range.to <= lines
}

/// The change that takes a hunk back.
pub open spec fn hunk_change(base: Seq<Seq<char>>, lines: Seq<Seq<char>>, hunk: Hunk) -> Change<
    Seq<char>,
> {
    let text = lines_text(base, hunk.before);
    Change {
        from: line_start(lines, hunk.after.from as int) as usize,
        to: line_start(lines, hunk.after.to as int) as usize,
        text: if text.len() == 0 {
            None
        } else {
            Some(text)
        },
    }
}

/// The changes that take hunks back.
pub open spec fn hunk_changes(
    base: Seq<Seq<char>>,
    lines: Seq<Seq<char>>,
    hunks: Seq<Hunk>,
) -> Seq<Change<Seq<char>>> {
    hunks.map_values(|h: Hunk| hunk_change(base, lines, h))
}

/// Lines and then more lines read as the text of the first and then that of the others.
pub proof fn lemma_concatenated_add(a: Seq<Seq<char>>, b: Seq<Seq<char>>)
    ensures
        change::concatenated(a + b) == change::concatenated(a) + change::concatenated(b),
    decreases b.len(),
{
    if b.len() == 0 {
        assert(a + b =~= a);
        assert(change::concatenated(a) + change::concatenated(b) =~= change::concatenated(a));
    } else {
        assert((a + b).drop_last() =~= a + b.drop_last());
        lemma_concatenated_add(a, b.drop_last());
        assert(change::concatenated(a) + (change::concatenated(b.drop_last()) + b.last())
            =~= (change::concatenated(a) + change::concatenated(b.drop_last())) + b.last());
    }
}

/// A line begins no later than the text ends, and no earlier than the lines before it.
proof fn lemma_line_start(lines: Seq<Seq<char>>, a: int, b: int)
    requires
        0 <= a <= b <= lines.len(),
    ensures
        line_start(lines, a) <= line_start(lines, b),
        line_start(lines, b) <= change::concatenated(lines).len(),
        change::concatenated(lines).take(line_start(lines, a) as int) == change::concatenated(
            lines.take(a),
        ),
        change::concatenated(lines).skip(line_start(lines, a) as int) == change::concatenated(
            lines.skip(a),
        ),
{
    lemma_concatenated_add(lines.take(b), lines.skip(b));
    assert(lines.take(b) + lines.skip(b) =~= lines);
    lemma_concatenated_add(lines.take(a), lines.subrange(a, b));
    assert(lines.take(a) + lines.subrange(a, b) =~= lines.take(b));
    lemma_concatenated_add(lines.take(a), lines.skip(a));
    assert(lines.take(a) + lines.skip(a) =~= lines);
    let whole = change::concatenated(lines);
    assert(whole.take(line_start(lines, a) as int) =~= change::concatenated(lines.take(a)));
    assert(whole.skip(line_start(lines, a) as int) =~= change::concatenated(lines.skip(a)));
}

fn line_to_char(lines: &Vec<String>, line: usize) -> (r: usize)
    requires
        line <= lines.len(),
        change::concatenated(text::views(lines@)).len() <= usize::MAX,
    ensures
        r == line_start(text::views(lines@), line as int),
{
    let ghost all = text::views(lines@);
    let mut pos: usize = 0;
    let mut i: usize = 0;
    while i < line
        invariant
            i <= line <= lines.len(),
            all == text::views(lines@),
            change::concatenated(all).len() <= usize::MAX,
            pos == line_start(all, i as int),
        decreases line - i,
    {
        proof {
            lemma_line_start(all, i + 1, i + 1);
            assert(all.take(i + 1).drop_last() =~= all.take(i as int));
        }
        pos = pos + text::chars_of(lines[i].as_str()).len();
        i = i + 1;
    }
    pos
}

fn slice(lines: &Vec<String>, range: Range) -> (r: String)
    requires
        within(range, lines.len() as int),
    ensures
        r@ == lines_text(text::views(lines@), range),
{
    let ghost part = text::views(lines@).subrange(range.from as int, range.to as int);
    let mut out = String::new();
    let mut i: usize = range.from;
    while i < range.to
        invariant
            range.from <= i <= range.to <= lines.len(),
            part == text::views(lines@).subrange(range.from as int, range.to as int),
            out@ == change::concatenated(part.take(i - range.from)),
        decreases range.to - i,
    {
        assert(part.take(i - range.from + 1).drop_last() =~= part.take(i - range.from));
        out.append(lines[i].as_str());
        i = i + 1;
    }
    assert(part.take(i - range.from) =~= part);
    out
}

/// Finds the changes that take hunks back to the text that the diff is made against.
pub fn diff_changes(base: &Vec<String>, lines: &Vec<String>, hunks: &Vec<Hunk>) -> (r: Vec<
    Change<String>,
>)
    requires
        change::concatenated(text::views(lines@)).len() <= usize::MAX,
        forall|i: int|
            0 <= i < hunks.len() ==> within((#[trigger] hunks@[i]).before, base.len() as int)
                && within(hunks@[i].after, lines.len() as int),
    ensures
        change::change_views(r@) == hunk_changes(
            text::views(base@),
            text::views(lines@),
            hunks@,
        ),
{
    let ghost old_lines = text::views(base@);
    let ghost new_lines = text::views(lines@);
    let mut changes: Vec<Change<String>> = Vec::new();
    let mut i: usize = 0;
    while i < hunks.len()
        invariant
            i <= hunks.len(),
            old_lines == text::views(base@),
            new_lines == text::views(lines@),
            change::concatenated(new_lines).len() <= usize::MAX,
            forall|i: int|
                0 <= i < hunks.len() ==> within((#[trigger] hunks@[i]).before, base.len() as int)
                    && within(hunks@[i].after, lines.len() as int),
            changes.len() == i,
            forall|j: int|
                0 <= j < i ==> (#[trigger] changes@[j])@ == hunk_change(
                    old_lines,
                    new_lines,
                    hunks@[j],
                ),
        decreases hunks.len() - i,
    {
        let hunk = hunks[i];
        let from = line_to_char(lines, hunk.after.from);
        let to = line_to_char(lines, hunk.after.to);
        let text = slice(base, hunk.before);
        let text = if text.as_str().is_empty() {
            None
        } else {
            Some(text)
        };
        changes.push(Change { from, to, text });
        i = i + 1;
    }
    assert(change::change_views(changes@) =~= hunk_changes(old_lines, new_lines, hunks@));
    changes
}

/// Whether hunks are there and follow one another without overlap.
pub open spec fn hunks_in_order(hunks: Seq<Hunk>, base: int, lines: int) -> bool
    decreases hunks.len(),
{
    hunks.len() > 0 ==> {
        &&& within(hunks.last().before, base)
        &&& within(hunks.last().after, lines)
        &&& hunks_in_order(hunks.drop_last(), base, hunks.last().after.from as int)
    }
}

/// The lines of a document with the lines of each hunk taken back.
pub open spec fn reset_lines(
    base: Seq<Seq<char>>,
    lines: Seq<Seq<char>>,
    hunks: Seq<Hunk>,
) -> Seq<Seq<char>>
    decreases hunks.len(),
{
    if hunks.len() == 0 {
        lines
    } else {
        let last = hunks.last();
        reset_lines(base, lines.take(last.after.from as int), hunks.drop_last()) + base.subrange(
            last.before.from as int,
            last.before.to as int,
        ) + lines.skip(last.after.to as int)
    }
}

/// The changes that take hunks back are in order, and after them the text is that of the lines
/// with each hunk's lines replaced by those that the diff is made against.
pub proof fn lemma_diff_changes(base: Seq<Seq<char>>, lines: Seq<Seq<char>>, hunks: Seq<Hunk>)
    requires
        change::concatenated(lines).len() <= usize::MAX,
        hunks_in_order(hunks, base.len() as int, lines.len() as int),
    ensures
        change::in_order(
            hunk_changes(base, lines, hunks),
            change::concatenated(lines).len() as int,
        ),
        change::applied(change::concatenated(lines), hunk_changes(base, lines, hunks))
            == change::concatenated(reset_lines(base, lines, hunks)),
    decreases hunks.len(),
{
    if hunks.len() > 0 {
        let last = hunks.last();
        let first = hunks.drop_last();
        let kept = lines.take(last.after.from as int);
        let changes = hunk_changes(base, lines, hunks);
        lemma_line_start(lines, last.after.from as int, last.after.to as int);
        lemma_line_start(lines, last.after.to as int, last.after.to as int);
        lemma_diff_changes(base, kept, first);
        lemma_same_starts(base, lines, first, last.after.from as int);
        assert(changes.drop_last() =~= hunk_changes(base, kept, first));
        let fragment = base.subrange(last.before.from as int, last.before.to as int);
        let behind = lines.skip(last.after.to as int);
        assert(changes.last().replacement() =~= change::concatenated(fragment));
        lemma_concatenated_add(reset_lines(base, kept, first), fragment);
        lemma_concatenated_add(reset_lines(base, kept, first) + fragment, behind);
    } else {
        assert(hunk_changes(base, lines, hunks) =~= Seq::empty());
    }
}

/// Hunks that lie within some first lines are taken back by the same changes whatever follows.
proof fn lemma_same_starts(base: Seq<Seq<char>>, lines: Seq<Seq<char>>, hunks: Seq<Hunk>, k: int)
    requires
        0 <= k <= lines.len(),
        hunks_in_order(hunks, base.len() as int, k),
    ensures
        hunk_changes(base, lines, hunks) == hunk_changes(base, lines.take(k), hunks),
    decreases hunks.len(),
{
    if hunks.len() > 0 {
        let last = hunks.last();
        let from = last.after.from as int;
        lemma_same_starts(base, lines, hunks.drop_last(), from);
        lemma_same_starts(base, lines.take(k), hunks.drop_last(), from);
        assert(lines.take(k).take(from) =~= lines.take(from));
        assert(lines.take(k).take(last.after.to as int) =~= lines.take(last.after.to as int));
        assert(hunk_changes(base, lines, hunks) =~= hunk_changes(
            base,
            lines,
            hunks.drop_last(),
        ).push(hunk_change(base, lines, last)));
        assert(hunk_changes(base, lines.take(k), hunks) =~= hunk_changes(
            base,
            lines.take(k),
            hunks.drop_last(),
        ).push(hunk_change(base, lines.take(k), last)));
    } else {
        assert(hunk_changes(base, lines, hunks) =~= hunk_changes(base, lines.take(k), hunks));
    }
}

/// Whether lines differ from other lines in hunks only: between the hunks, before the first and
/// behind the last, the same lines stand in both.
pub open spec fn differ_in(
    base: Seq<Seq<char>>,
    lines: Seq<Seq<char>>,
    hunks: Seq<Hunk>,
) -> bool
    decreases hunks.len(),
{
    if hunks.len() == 0 {
        base == lines
    } else {
        let last = hunks.last();
        &&& within(last.before, base.len() as int)
        &&& within(last.after, lines.len() as int)
        &&& base.skip(last.before.to as int) == lines.skip(last.after.to as int)
        &&& differ_in(
            base.take(last.before.from as int),
            lines.take(last.after.from as int),
            hunks.drop_last(),
        )
    }
}

proof fn lemma_differ_in_order(
    base: Seq<Seq<char>>,
    lines: Seq<Seq<char>>,
    hunks: Seq<Hunk>,
    n: int,
)
    requires
        differ_in(base, lines, hunks),
        base.len() <= n,
    ensures
        hunks_in_order(hunks, n, lines.len() as int),
    decreases hunks.len(),
{
    if hunks.len() > 0 {
        let last = hunks.last();
        lemma_differ_in_order(
            base.take(last.before.from as int),
            lines.take(last.after.from as int),
            hunks.drop_last(),
            n,
        );
    }
}

proof fn lemma_reset_of_longer(
    base: Seq<Seq<char>>,
    longer: Seq<Seq<char>>,
    lines: Seq<Seq<char>>,
    hunks: Seq<Hunk>,
)
    requires
        differ_in(base, lines, hunks),
        base.is_prefix_of(longer),
    ensures
        reset_lines(longer, lines, hunks) == base,
    decreases hunks.len(),
{
    if hunks.len() > 0 {
        let last = hunks.last();
        let front = base.take(last.before.from as int);
        assert(front.is_prefix_of(longer)) by {
            assert(front =~= longer.subrange(0, front.len() as int));
        }
        lemma_reset_of_longer(
            front,
            longer,
            lines.take(last.after.from as int),
            hunks.drop_last(),
        );
        let middle = longer.subrange(last.before.from as int, last.before.to as int);
        assert(middle =~= base.subrange(last.before.from as int, last.before.to as int));
        assert(front + middle + base.skip(last.before.to as int) =~= base);
    }
}

/// Taking back all hunks of a diff gives the text that the diff is made against.
pub proof fn lemma_all_taken_back(
    base: Seq<Seq<char>>,
    lines: Seq<Seq<char>>,
    hunks: Seq<Hunk>,
)
    requires
        change::concatenated(lines).len() <= usize::MAX,
        differ_in(base, lines, hunks),
    ensures
        change::applied(change::concatenated(lines), hunk_changes(base, lines, hunks))
            == change::concatenated(base),
        hunk_changes(base, lines, hunks).len() == hunks.len(),
{
    lemma_differ_in_order(base, lines, hunks, base.len() as int);
    lemma_diff_changes(base, lines, hunks);
    lemma_reset_of_longer(base, base, lines, hunks);
}

/// Taking back one hunk puts its lines of the other text in the place of its own lines, and leaves
/// the lines before them and behind them.
pub proof fn lemma_one_taken_back(
    base: Seq<Seq<char>>,
    front: Seq<Seq<char>>,
    own: Seq<Seq<char>>,
    behind: Seq<Seq<char>>,
    hunk: Hunk,
)
    requires
        change::concatenated(front + own + behind).len() <= usize::MAX,
        hunk.before.from <= hunk.before.to <= base.len(),
        hunk.after.from == front.len(),
        hunk.after.to == front.len() + own.len(),
    ensures
        change::applied(
            change::concatenated(front + own + behind),
            hunk_changes(base, front + own + behind, seq![hunk]),
        ) == change::concatenated(front) + change::concatenated(
            base.subrange(hunk.before.from as int, hunk.before.to as int),
        ) + change::concatenated(behind),
        hunk_change(base, front + own + behind, hunk).text is None <==> change::concatenated(
            base.subrange(hunk.before.from as int, hunk.before.to as int),
        ).len() == 0,
{
    let lines = front + own + behind;
    let hunks = seq![hunk];
    let other = base.subrange(hunk.before.from as int, hunk.before.to as int);
    assert(hunks.drop_last() =~= Seq::empty());
    assert(hunks_in_order(hunks.drop_last(), base.len() as int, hunk.after.from as int));
    lemma_diff_changes(base, lines, hunks);
    assert(reset_lines(base, lines.take(hunk.after.from as int), hunks.drop_last()) =~= front);
    assert(reset_lines(base, lines, hunks) =~= front + other + behind);
    lemma_concatenated_add(front + other, behind);
    lemma_concatenated_add(front, other);
}

/// No lines read as nothing, one line as itself, and one more line is read behind the others.
pub proof fn lemma_concatenated_one(lines: Seq<Seq<char>>, line: Seq<char>)
    ensures
        change::concatenated(Seq::empty()).len() == 0,
        change::concatenated(seq![line]) == line,
        change::concatenated(lines.push(line)) == change::concatenated(lines) + line,
{
    assert(seq![line].drop_last() =~= Seq::empty());
    assert(change::concatenated(seq![line].drop_last()) =~= Seq::empty());
    assert(change::concatenated(seq![line]) =~= line);
    assert(lines.push(line).drop_last() =~= lines);
}

} // verus!
