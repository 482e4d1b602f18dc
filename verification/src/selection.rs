//! Edits of the selected parts of a text: sorting them, rewrapping them, taking them back to the
//! text that a diff is made against.
use vstd::prelude::*;
use vstd::multiset::*;

use crate::change;
use crate::change::Change;
use crate::text;

verus! {

/// A selected range: its first character and the one behind its last.
#[derive(Clone, Copy, Debug, PartialEq, Eq, Structural)]
pub struct Range {
    /// Where the range begins.
    pub from: usize,
    /// Where the range ends.
    pub to: usize,
}

/// The order of texts: by their first characters that differ, by code point, a text before every
/// longer one that begins with it.
pub open spec fn text_le(a: Seq<char>, b: Seq<char>) -> bool
    decreases a.len(),
{
    if a.len() == 0 {
        true
    } else if b.len() == 0 {
        false
    } else if a[0] != b[0] {
        a[0] < b[0]
    } else {
        text_le(a.skip(1), b.skip(1))
    }
}

/// Any two texts are in order one way or the other.
pub proof fn lemma_text_le_total(a: Seq<char>, b: Seq<char>)
    ensures
        text_le(a, b) || text_le(b, a),
    decreases a.len(),
{
    if a.len() > 0 && b.len() > 0 && a[0] == b[0] {
        lemma_text_le_total(a.skip(1), b.skip(1));
    }
}

/// The order of texts is transitive.
pub proof fn lemma_text_le_transitive(a: Seq<char>, b: Seq<char>, c: Seq<char>)
    requires
        text_le(a, b),
        text_le(b, c),
    ensures
        text_le(a, c),
    decreases a.len(),
{
    if a.len() > 0 && a[0] == b[0] && b[0] == c[0] {
        lemma_text_le_transitive(a.skip(1), b.skip(1), c.skip(1));
    }
}

/// Texts that are in order both ways are the same.
pub proof fn lemma_text_le_antisymmetric(a: Seq<char>, b: Seq<char>)
    requires
        text_le(a, b),
        text_le(b, a),
    ensures
        a == b,
    decreases a.len(),
{
    if a.len() > 0 && b.len() > 0 {
        lemma_text_le_antisymmetric(a.skip(1), b.skip(1));
        assert(a =~= seq![a[0]] + a.skip(1));
        assert(b =~= seq![b[0]] + b.skip(1));
    } else {
        assert(a =~= b);
    }
}

/// Whether one text may stand before another.
pub open spec fn before(a: Seq<char>, b: Seq<char>, reverse: bool) -> bool {
    if reverse {
        text_le(b, a)
    } else {
        text_le(a, b)
    }
}

/// Whether texts are sorted, from the least to the greatest or in reverse.
pub open spec fn sorted(texts: Seq<Seq<char>>, reverse: bool) -> bool {
    forall|i: int, j: int|
        0 <= i < j < texts.len() ==> before(#[trigger] texts[i], #[trigger] texts[j], reverse)
}

/// Sorted texts are determined by which texts they are.
pub proof fn lemma_sorted_unique(a: Seq<Seq<char>>, b: Seq<Seq<char>>, reverse: bool)
    requires
        sorted(a, reverse),
        sorted(b, reverse),
        a.to_multiset() == b.to_multiset(),
    ensures
        a == b,
    decreases a.len(),
{
    broadcast use vstd::seq_lib::group_to_multiset_ensures;

    a.to_multiset_ensures();
    b.to_multiset_ensures();
    assert(a.len() == b.len());
    if a.len() > 0 {
        assert(a.contains(a[0]) && a.to_multiset().count(a[0]) > 0);
        assert(b.to_multiset().count(a[0]) > 0 && b.contains(a[0]));
        assert(b.contains(b[0]) && b.to_multiset().count(b[0]) > 0);
        assert(a.to_multiset().count(b[0]) > 0 && a.contains(b[0]));
        let i = choose|i: int| 0 <= i < b.len() && b[i] == a[0];
        let j = choose|j: int| 0 <= j < a.len() && a[j] == b[0];
        if i > 0 && j > 0 {
            assert(before(b[0], b[i], reverse));
            assert(before(a[0], a[j], reverse));
            lemma_text_le_antisymmetric(a[0], b[0]);
        }
        assert(a[0] == b[0]);
        assert(a.remove(0) =~= a.skip(1));
        assert(b.remove(0) =~= b.skip(1));
        assert(a.remove(0).to_multiset() =~= a.to_multiset().remove(a[0]));
        assert(b.remove(0).to_multiset() =~= b.to_multiset().remove(b[0]));
        lemma_sorted_unique(a.skip(1), b.skip(1), reverse);
        assert(a =~= seq![a[0]] + a.skip(1));
        assert(b =~= seq![b[0]] + b.skip(1));
    } else {
        assert(a =~= b);
    }
}

/// Sorting in reverse is sorting, read from the end.
pub proof fn lemma_sorted_reverse(texts: Seq<Seq<char>>)
    ensures
        sorted(texts, false) <==> sorted(texts.reverse(), true),
{
    let n = texts.len() as int;
    if sorted(texts, false) {
        assert forall|i: int, j: int| 0 <= i < j < n implies before(
            #[trigger] texts.reverse()[i],
            #[trigger] texts.reverse()[j],
            true,
        ) by {
            assert(before(texts[n - 1 - j], texts[n - 1 - i], false));
        }
    }
    if sorted(texts.reverse(), true) {
        assert forall|i: int, j: int| 0 <= i < j < n implies before(
            #[trigger] texts[i],
            #[trigger] texts[j],
            false,
        ) by {
            assert(before(texts.reverse()[n - 1 - j], texts.reverse()[n - 1 - i], true));
        }
    }
}

fn is_le(a: &Vec<char>, b: &Vec<char>) -> (r: bool)
    ensures
        r == text_le(a@, b@),
{
    let mut i: usize = 0;
    assert(a@.skip(0) =~= a@);
    assert(b@.skip(0) =~= b@);
    while i < a.len() && i < b.len()
        invariant
            i <= a.len(),
            i <= b.len(),
            text_le(a@, b@) == text_le(a@.skip(i as int), b@.skip(i as int)),
        decreases a.len() - i,
    {
        if a[i] != b[i] {
            return a[i] < b[i];
        }
        assert(a@.skip(i as int).skip(1) =~= a@.skip(i + 1));
        assert(b@.skip(i as int).skip(1) =~= b@.skip(i + 1));
        i = i + 1;
    }
    i == a.len()
}

fn may_precede(a: &Vec<char>, b: &Vec<char>, reverse: bool) -> (r: bool)
    ensures
        r == before(a@, b@, reverse),
{
    if reverse {
        is_le(b, a)
    } else {
        is_le(a, b)
    }
}

/// The views of a vector of texts by their characters.
pub open spec fn char_views(texts: Seq<Vec<char>>) -> Seq<Seq<char>> {
    texts.map_values(|t: Vec<char>| t@)
}

fn insert_sorted(texts: &mut Vec<Vec<char>>, text: Vec<char>, reverse: bool)
    requires
        sorted(char_views(old(texts)@), reverse),
    ensures
        sorted(char_views(final(texts)@), reverse),
        char_views(final(texts)@).to_multiset() == char_views(old(texts)@).to_multiset().insert(
            text@,
        ),
        final(texts).len() == old(texts).len() + 1,
{
    let ghost all = char_views(texts@);
    let mut i: usize = texts.len();
    while i > 0 && !may_precede(&texts[i - 1], &text, reverse)
        invariant
            i <= texts.len(),
            all == char_views(texts@),
            sorted(all, reverse),
            forall|j: int| i <= j < all.len() ==> before(text@, #[trigger] all[j], reverse),
        decreases i,
    {
        proof {
            lemma_text_le_total(text@, all[i - 1]);
        }
        i = i - 1;
    }
    proof {
        assert forall|j: int| 0 <= j < i implies before(#[trigger] all[j], text@, reverse) by {
            let last = all[i - 1];
            if j < i - 1 {
                assert(before(all[j], last, reverse));
                if reverse {
                    lemma_text_le_transitive(text@, last, all[j]);
                } else {
                    lemma_text_le_transitive(all[j], last, text@);
                }
            }
        }
        vstd::seq_lib::to_multiset_insert(all, i as int, text@);
    }
    let ghost chars = text@;
    texts.insert(i, text);
    assert(char_views(texts@) =~= all.insert(i as int, chars));
    assert(sorted(char_views(texts@), reverse)) by {
        let now = all.insert(i as int, chars);
        assert forall|j: int, k: int| 0 <= j < k < now.len() implies before(
            #[trigger] now[j],
            #[trigger] now[k],
            reverse,
        ) by {
            let old_j = if j < i {
                j
            } else {
                j - 1
            };
            let old_k = if k < i {
                k
            } else {
                k - 1
            };
            if j != i && k != i {
                assert(before(all[old_j], all[old_k], reverse));
            }
        }
    }
}

/// The selected parts of a text.
pub open spec fn fragments(text: Seq<char>, ranges: Seq<Range>) -> Seq<Seq<char>> {
    ranges.map_values(|r: Range| text.subrange(r.from as int, r.to as int))
}

/// The texts that changes put in place.
pub open spec fn replacements(changes: Seq<Change<Seq<char>>>) -> Seq<Seq<char>> {
    changes.map_values(|c: Change<Seq<char>>| c.replacement())
}

/// Whether the changes give every selected range, in turn, a text.
pub open spec fn rewrites(changes: Seq<Change<Seq<char>>>, ranges: Seq<Range>) -> bool {
    &&& changes.len() == ranges.len()
    &&& forall|i: int|
        #![trigger changes[i]]
        0 <= i < changes.len() ==> changes[i].from == ranges[i].from && changes[i].to
            == ranges[i].to && changes[i].text is Some
}

/// Sorts the selected parts of a text among the selected ranges.
pub fn sort_changes(text: &str, ranges: &Vec<Range>, reverse: bool) -> (r: Vec<Change<String>>)
    requires
        forall|i: int|
            0 <= i < ranges.len() ==> (#[trigger] ranges@[i]).from <= ranges@[i].to <= text@.len(),
    ensures
        rewrites(change::change_views(r@), ranges@),
        sorted(replacements(change::change_views(r@)), reverse),
        replacements(change::change_views(r@)).to_multiset() == fragments(
            text@,
            ranges@,
        ).to_multiset(),
{
    broadcast use vstd::seq_lib::group_to_multiset_ensures;

    let chars = text::chars_of(text);
    let ghost parts = fragments(text@, ranges@);
    let mut texts: Vec<Vec<char>> = Vec::new();
    let mut i: usize = 0;
    assert(char_views(texts@) =~= parts.take(0));
    while i < ranges.len()
        invariant
            i <= ranges.len(),
            chars@ == text@,
            parts == fragments(text@, ranges@),
            forall|i: int|
                0 <= i < ranges.len() ==> (#[trigger] ranges@[i]).from <= ranges@[i].to
                    <= text@.len(),
            texts.len() == i,
            sorted(char_views(texts@), reverse),
            char_views(texts@).to_multiset() == parts.take(i as int).to_multiset(),
        decreases ranges.len() - i,
    {
        let range = ranges[i];
        let part = text::chars_of(text::range_text(&chars, range.from, range.to).as_str());
        assert(part@ == parts[i as int]);
        insert_sorted(&mut texts, part, reverse);
        assert(parts.take(i + 1) =~= parts.take(i as int).push(parts[i as int]));
        proof {
            parts.take(i as int).to_multiset_ensures();
        }
        i = i + 1;
    }
    assert(parts.take(i as int) =~= parts);
    let mut changes: Vec<Change<String>> = Vec::new();
    let mut k: usize = 0;
    while k < ranges.len()
        invariant
            k <= ranges.len(),
            texts.len() == ranges.len(),
            changes.len() == k,
            forall|j: int|
                0 <= j < k ==> (#[trigger] changes@[j])@ == (Change {
                    from: ranges@[j].from,
                    to: ranges@[j].to,
                    text: Some(texts@[j]@),
                }),
        decreases ranges.len() - k,
    {
        changes.push(
            Change { from: ranges[k].from, to: ranges[k].to, text: Some(text::text_of(&texts[k])) },
        );
        k = k + 1;
    }
    assert(replacements(change::change_views(changes@)) =~= char_views(texts@));
    changes
}

/// The selected parts of a text.
pub fn selected_texts(text: &str, ranges: &Vec<Range>) -> (r: Vec<String>)
    requires
        forall|i: int|
            0 <= i < ranges.len() ==> (#[trigger] ranges@[i]).from <= ranges@[i].to <= text@.len(),
    ensures
        text::views(r@) == fragments(text@, ranges@),
{
    let chars = text::chars_of(text);
    let mut texts: Vec<String> = Vec::new();
    let mut i: usize = 0;
    while i < ranges.len()
        invariant
            i <= ranges.len(),
            chars@ == text@,
            forall|i: int|
                0 <= i < ranges.len() ==> (#[trigger] ranges@[i]).from <= ranges@[i].to
                    <= text@.len(),
            texts.len() == i,
            forall|j: int|
                0 <= j < i ==> (#[trigger] texts@[j])@ == text@.subrange(
                    ranges@[j].from as int,
                    ranges@[j].to as int,
                ),
        decreases ranges.len() - i,
    {
        texts.push(text::range_text(&chars, ranges[i].from, ranges[i].to));
        i = i + 1;
    }
    assert(text::views(texts@) =~= fragments(text@, ranges@));
    texts
}

/// The changes that put one given text in place of each selected range.
pub open spec fn rewritten(ranges: Seq<Range>, texts: Seq<Seq<char>>) -> Seq<Change<Seq<char>>> {
    Seq::new(
        ranges.len(),
        |i: int| Change { from: ranges[i].from, to: ranges[i].to, text: Some(texts[i]) },
    )
}

/// Puts the rewrapped text of each selected range in its place.
pub fn reflow_changes(ranges: &Vec<Range>, texts: &Vec<String>) -> (r: Vec<Change<String>>)
    requires
        ranges.len() == texts.len(),
    ensures
        change::change_views(r@) == rewritten(ranges@, text::views(texts@)),
{
    let mut changes: Vec<Change<String>> = Vec::new();
    let mut k: usize = 0;
    while k < ranges.len()
        invariant
            k <= ranges.len(),
            texts.len() == ranges.len(),
            changes.len() == k,
            forall|j: int|
                0 <= j < k ==> (#[trigger] changes@[j])@ == (Change {
                    from: ranges@[j].from,
                    to: ranges@[j].to,
                    text: Some(texts@[j]@),
                }),
        decreases ranges.len() - k,
    {
        changes.push(
            Change { from: ranges[k].from, to: ranges[k].to, text: Some(texts[k].clone()) },
        );
        k = k + 1;
    }
    assert(change::change_views(changes@) =~= rewritten(ranges@, text::views(texts@)));
    changes
}

/// The first character in which two texts differ decides which of them is the lesser, by its code
/// point, and a text is less than every longer one that begins with it.
pub proof fn lemma_text_order(
    front: Seq<char>,
    a: char,
    b: char,
    behind_a: Seq<char>,
    behind_b: Seq<char>,
)
    requires
        a as int > b as int,
    ensures
        text_le(front + seq![b] + behind_b, front + seq![a] + behind_a),
        !text_le(front + seq![a] + behind_a, front + seq![b] + behind_b),
        text_le(front, front + seq![a] + behind_a),
        !text_le(front + seq![a] + behind_a, front),
    decreases front.len(),
{
    let greater = front + seq![a] + behind_a;
    let lesser = front + seq![b] + behind_b;
    if front.len() > 0 {
        lemma_text_order(front.skip(1), a, b, behind_a, behind_b);
        assert(greater.skip(1) =~= front.skip(1) + seq![a] + behind_a);
        assert(lesser.skip(1) =~= front.skip(1) + seq![b] + behind_b);
    }
}

/// What the changes of a sorting do: each range gets a text that some range had, the texts come in
/// their order from one range to the next, or in the reverse of it, and as often as before.
pub proof fn lemma_sort_changes(
    text: Seq<char>,
    ranges: Seq<Range>,
    changes: Seq<Change<Seq<char>>>,
    reverse: bool,
    i: int,
    j: int,
)
    requires
        rewrites(changes, ranges),
        sorted(replacements(changes), reverse),
        replacements(changes).to_multiset() == fragments(text, ranges).to_multiset(),
        0 <= i < j < ranges.len(),
    ensures
        changes.len() == ranges.len(),
        changes[i].from == ranges[i].from && changes[i].to == ranges[i].to,
        changes[j].from == ranges[j].from && changes[j].to == ranges[j].to,
        changes[i].text is Some && changes[j].text is Some,
        !reverse ==> text_le(changes[i].text->0, changes[j].text->0),
        reverse ==> text_le(changes[j].text->0, changes[i].text->0),
        exists|k: int|
            #![trigger ranges[k]]
            0 <= k < ranges.len() && changes[i].text->0 == text.subrange(
                ranges[k].from as int,
                ranges[k].to as int,
            ),
        exists|k: int|
            #![trigger changes[k]]
            0 <= k < changes.len() && changes[k].text == Some(
                text.subrange(ranges[i].from as int, ranges[i].to as int),
            ),
{
    broadcast use vstd::seq_lib::group_to_multiset_ensures;

    let texts = replacements(changes);
    let parts = fragments(text, ranges);
    texts.to_multiset_ensures();
    parts.to_multiset_ensures();
    assert(texts[i] == changes[i].text->0 && texts[j] == changes[j].text->0);
    assert(before(texts[i], texts[j], reverse));
    assert(texts.contains(texts[i]) && texts.to_multiset().count(texts[i]) > 0);
    assert(parts.contains(texts[i]));
    let k = choose|k: int| 0 <= k < parts.len() && parts[k] == texts[i];
    assert(parts[k] == text.subrange(ranges[k].from as int, ranges[k].to as int));
    assert(parts.contains(parts[i]) && parts.to_multiset().count(parts[i]) > 0);
    assert(texts.contains(parts[i]));
    let l = choose|l: int| 0 <= l < texts.len() && texts[l] == parts[i];
    assert(changes[l].text == Some(parts[i]));
}

/// The selected texts are what stands in the selected ranges, and rewrapping puts each rewrapped
/// text where the selected one stood.
pub proof fn lemma_rewrapped(text: Seq<char>, ranges: Seq<Range>, texts: Seq<Seq<char>>, i: int)
    requires
        0 <= i < ranges.len(),
        texts.len() == ranges.len(),
    ensures
        fragments(text, ranges).len() == ranges.len(),
        fragments(text, ranges)[i] == text.subrange(ranges[i].from as int, ranges[i].to as int),
        rewritten(ranges, texts).len() == ranges.len(),
        rewritten(ranges, texts)[i] == (Change {
            from: ranges[i].from,
            to: ranges[i].to,
            text: Some(texts[i]),
        }),
{
}

} // verus!
