//! Changes of a text: which characters are replaced, and by what.
use vstd::prelude::*;

use crate::text;

verus! {

/// The replacement of the characters from `from` up to `to`.
#[derive(Debug, PartialEq, Eq)]
#[verifier::ext_equal]
pub struct Change<S> {
    /// Where the replaced characters begin.
    pub from: usize,
    /// Where they end.
    pub to: usize,
    /// What stands there afterwards, if anything.
    pub text: Option<S>,
}

impl View for Change<String> {
    type V = Change<Seq<char>>;

    open spec fn view(&self) -> Change<Seq<char>> {
        Change {
            from: self.from,
            to: self.to,
            text: match self.text {
                Some(t) => Some(t@),
                None => None,
            },
        }
    }
}

/// The views of a vector of changes.
pub open spec fn change_views(changes: Seq<Change<String>>) -> Seq<Change<Seq<char>>> {
    changes.map_values(|c: Change<String>| c@)
}

impl Change<Seq<char>> {
    /// What stands in place of the replaced characters afterwards.
    pub open spec fn replacement(self) -> Seq<char> {
        match self.text {
            Some(t) => t,
            None => Seq::empty(),
        }
    }
}

/// Whether the changes follow one another without overlap within a text of the given length.
pub open spec fn in_order(changes: Seq<Change<Seq<char>>>, len: int) -> bool
    decreases changes.len(),
{
    changes.len() > 0 ==> {
        &&& changes.last().from <= changes.last().to <= len
        &&& in_order(changes.drop_last(), changes.last().from as int)
    }
}

/// The text after the changes, which are in order.
pub open spec fn applied(text: Seq<char>, changes: Seq<Change<Seq<char>>>) -> Seq<char>
    decreases changes.len(),
{
    if changes.len() == 0 {
        text
    } else {
        let last = changes.last();
        applied(text.take(last.from as int), changes.drop_last()) + last.replacement() + text.skip(
            last.to as int,
        )
    }
}

/// Changes within a text leave alone what is put behind it.
pub proof fn lemma_applied_before(
    text: Seq<char>,
    behind: Seq<char>,
    changes: Seq<Change<Seq<char>>>,
)
    requires
        in_order(changes, text.len() as int),
    ensures
        applied(text + behind, changes) == applied(text, changes) + behind,
{
    if changes.len() > 0 {
        let last = changes.last();
        assert((text + behind).take(last.from as int) =~= text.take(last.from as int));
        assert((text + behind).skip(last.to as int) =~= text.skip(last.to as int) + behind);
        assert(applied(text + behind, changes) =~= applied(text, changes) + behind);
    }
}

/// Changes that are in order within a text are so within a longer one.
pub proof fn lemma_in_order_longer(changes: Seq<Change<Seq<char>>>, len: int, longer: int)
    requires
        in_order(changes, len),
        len <= longer,
    ensures
        in_order(changes, longer),
{
}

/// How a line ends.
#[derive(Clone, Copy, Debug, PartialEq, Eq, Structural)]
pub enum LineEnding {
    /// Carriage return and line feed.
    Crlf,
    /// Line feed.
    LF,
    /// Vertical tab.
    VT,
    /// Form feed.
    FF,
    /// Carriage return.
    CR,
    /// Next line.
    Nel,
    /// Line separator.
    LS,
    /// Paragraph separator.
    PS,
}

impl LineEnding {
    /// The characters of the line ending.
    pub open spec fn chars(self) -> Seq<char> {
        match self {
            LineEnding::Crlf => seq!['\r', '\n'],
            LineEnding::LF => seq!['\n'],
            LineEnding::VT => seq!['\u{000B}'],
            LineEnding::FF => seq!['\u{000C}'],
            LineEnding::CR => seq!['\r'],
            LineEnding::Nel => seq!['\u{0085}'],
            LineEnding::LS => seq!['\u{2028}'],
            LineEnding::PS => seq!['\u{2029}'],
        }
    }

    /// The number of characters of the line ending.
    pub fn len_chars(&self) -> (r: usize)
        ensures
            r == self.chars().len(),
    {
        match self {
            LineEnding::Crlf => 2,
            _ => 1,
        }
    }

    /// The characters of the line ending, as a text.
    pub fn text(&self) -> (r: String)
        ensures
            r@ == self.chars(),
    {
        let mut out = String::new();
        match self {
            LineEnding::Crlf => {
                out.push('\r');
                out.push('\n');
            },
            LineEnding::LF => out.push('\n'),
            LineEnding::VT => out.push('\u{000B}'),
            LineEnding::FF => out.push('\u{000C}'),
            LineEnding::CR => out.push('\r'),
            LineEnding::Nel => out.push('\u{0085}'),
            LineEnding::LS => out.push('\u{2028}'),
            LineEnding::PS => out.push('\u{2029}'),
        }
        assert(out@ =~= self.chars());
        out
    }

    /// Whether a line may end so when, besides the line feed, Unicode's further line breaks
    /// count or do not count.
    pub open spec fn recognized(self, unicode_lines: bool) -> bool {
        unicode_lines || self == LineEnding::Crlf || self == LineEnding::LF
    }

    /// Whether a line may end so.
    pub fn is_recognized(&self, unicode_lines: bool) -> (r: bool)
        ensures
            r == self.recognized(unicode_lines),
    {
        unicode_lines || *self == LineEnding::Crlf || *self == LineEnding::LF
    }
}

/// The line ending that a single character is.
pub open spec fn char_line_ending(c: char, unicode_lines: bool) -> Option<LineEnding> {
    if c == '\n' {
        Some(LineEnding::LF)
    } else if !unicode_lines {
        None
    } else if c == '\r' {
        Some(LineEnding::CR)
    } else if c == '\u{000B}' {
        Some(LineEnding::VT)
    } else if c == '\u{000C}' {
        Some(LineEnding::FF)
    } else if c == '\u{0085}' {
        Some(LineEnding::Nel)
    } else if c == '\u{2028}' {
        Some(LineEnding::LS)
    } else if c == '\u{2029}' {
        Some(LineEnding::PS)
    } else {
        None
    }
}

/// The line ending that a text ends with: both characters of a carriage return and line feed.
pub open spec fn line_ending(text: Seq<char>, unicode_lines: bool) -> Option<LineEnding> {
    if text.len() >= 2 && text[text.len() - 2] == '\r' && text.last() == '\n' {
        Some(LineEnding::Crlf)
    } else if text.len() >= 1 {
        char_line_ending(text.last(), unicode_lines)
    } else {
        None
    }
}

/// The line ending that a line ends with.
pub fn get_line_ending(line: &str, unicode_lines: bool) -> (r: Option<LineEnding>)
    ensures
        r == line_ending(line@, unicode_lines),
{
    let chars = text::chars_of(line);
    let len = chars.len();
    if len == 0 {
        return None;
    }
    let c = chars[len - 1];
    if c == '\n' {
        if len >= 2 && chars[len - 2] == '\r' {
            Some(LineEnding::Crlf)
        } else {
            Some(LineEnding::LF)
        }
    } else if !unicode_lines {
        None
    } else if c == '\r' {
        Some(LineEnding::CR)
    } else if c == '\u{000B}' {
        Some(LineEnding::VT)
    } else if c == '\u{000C}' {
        Some(LineEnding::FF)
    } else if c == '\u{0085}' {
        Some(LineEnding::Nel)
    } else if c == '\u{2028}' {
        Some(LineEnding::LS)
    } else if c == '\u{2029}' {
        Some(LineEnding::PS)
    } else {
        None
    }
}

/// A line ending is found again where it stands.
pub proof fn lemma_line_ending_chars(text: Seq<char>, unicode_lines: bool)
    ensures
        match line_ending(text, unicode_lines) {
            Some(ending) => ending.recognized(unicode_lines) && ending.chars().is_suffix_of(text),
            None => true,
        },
{
    if let Some(ending) = line_ending(text, unicode_lines) {
        assert(ending.chars() =~= text.subrange(text.len() - ending.chars().len(), text.len() as int));
    }
}

/// The change that gives a text a line ending at its end, if it has none there.
pub open spec fn final_newline(
    text: Seq<char>,
    ending: LineEnding,
    unicode_lines: bool,
) -> Option<Change<Seq<char>>> {
    if line_ending(text, unicode_lines) is None {
        Some(
            Change {
                from: text.len() as usize,
                to: text.len() as usize,
                text: Some(ending.chars()),
            },
        )
    } else {
        None
    }
}

/// Appends the document's line ending to a text that does not end with one.
pub fn insert_final_newline(text: &str, ending: LineEnding, unicode_lines: bool) -> (r: Option<
    Change<String>,
>)
    ensures
        match r {
            Some(change) => final_newline(text@, ending, unicode_lines) == Some(change@),
            None => final_newline(text@, ending, unicode_lines) is None,
        },
{
    if get_line_ending(text, unicode_lines).is_none() {
        let len = text::chars_of(text).len();
        Some(Change { from: len, to: len, text: Some(ending.text()) })
    } else {
        None
    }
}

/// With its final line ending inserted a text ends with one, and is otherwise what it was.
pub proof fn lemma_final_newline(text: Seq<char>, ending: LineEnding, unicode_lines: bool)
    requires
        text.len() <= usize::MAX,
        ending.recognized(unicode_lines),
    ensures
        match final_newline(text, ending, unicode_lines) {
            Some(change) => {
                let after = applied(text, seq![change]);
                &&& after == text + ending.chars()
                &&& line_ending(after, unicode_lines) is Some
                &&& final_newline(after, ending, unicode_lines) is None
            },
            None => line_ending(text, unicode_lines) is Some,
        },
{
    if let Some(change) = final_newline(text, ending, unicode_lines) {
        let after = applied(text, seq![change]);
        assert(seq![change].drop_last() =~= Seq::empty());
        assert(applied(text.take(text.len() as int), Seq::<Change<Seq<char>>>::empty())
            =~= text);
        assert(after =~= text + ending.chars());
        assert(after.last() == ending.chars().last());
        if ending == LineEnding::Crlf {
            assert(after[after.len() - 2] == '\r');
        }
    }
}

/// Texts one directly behind the other.
pub open spec fn concatenated(texts: Seq<Seq<char>>) -> Seq<char>
    decreases texts.len(),
{
    if texts.len() == 0 {
        Seq::empty()
    } else {
        concatenated(texts.drop_last()) + texts.last()
    }
}

/// The changes that give every line that ends otherwise the wanted line ending.
pub open spec fn ending_changes(
    lines: Seq<Seq<char>>,
    wanted: LineEnding,
    unicode_lines: bool,
) -> Seq<Change<Seq<char>>>
    decreases lines.len(),
{
    if lines.len() == 0 {
        Seq::empty()
    } else {
        let before = ending_changes(lines.drop_last(), wanted, unicode_lines);
        let end = concatenated(lines).len();
        match line_ending(lines.last(), unicode_lines) {
            Some(ending) if ending != wanted => before.push(
                Change {
                    from: (end - ending.chars().len()) as usize,
                    to: end as usize,
                    text: Some(wanted.chars()),
                },
            ),
            _ => before,
        }
    }
}

/// Finds the changes that give every line of a text the wanted line ending.
pub fn line_ending_changes(lines: &Vec<String>, wanted: LineEnding, unicode_lines: bool) -> (r: Vec<
    Change<String>,
>)
    requires
        concatenated(text::views(lines@)).len() <= usize::MAX,
    ensures
        change_views(r@) == ending_changes(text::views(lines@), wanted, unicode_lines),
{
    let ghost all = text::views(lines@);
    let mut changes: Vec<Change<String>> = Vec::new();
    let mut pos: usize = 0;
    let mut i: usize = 0;
    while i < lines.len()
        invariant
            i <= lines.len(),
            all == text::views(lines@),
            concatenated(all).len() <= usize::MAX,
            pos == concatenated(all.take(i as int)).len(),
            change_views(changes@) == ending_changes(all.take(i as int), wanted, unicode_lines),
        decreases lines.len() - i,
    {
        let ghost done = changes@;
        proof {
            assert(all.take(i + 1).drop_last() =~= all.take(i as int));
            lemma_concatenated_prefix(all, i + 1);
            lemma_line_ending_chars(all[i as int], unicode_lines);
        }
        pos = pos + text::chars_of(lines[i].as_str()).len();
        match get_line_ending(lines[i].as_str(), unicode_lines) {
            Some(ending) => {
                if ending != wanted {
                    let start = pos - ending.len_chars();
                    changes.push(Change { from: start, to: pos, text: Some(wanted.text()) });
                    assert(change_views(changes@) =~= change_views(done).push(
                        changes@.last()@,
                    ));
                }
            },
            None => {},
        }
        i = i + 1;
    }
    assert(all.take(i as int) =~= all);
    changes
}

/// Some first lines of a text are no longer than the text.
proof fn lemma_concatenated_prefix(texts: Seq<Seq<char>>, k: int)
    requires
        0 <= k <= texts.len(),
    ensures
        concatenated(texts.take(k)).len() <= concatenated(texts).len(),
    decreases texts.len(),
{
    if k == texts.len() {
        assert(texts.take(k) =~= texts);
    } else {
        lemma_concatenated_prefix(texts.drop_last(), k);
        assert(texts.drop_last().take(k) =~= texts.take(k));
    }
}

/// A line with the wanted line ending in place of its own, if it has one.
pub open spec fn with_ending(line: Seq<char>, wanted: LineEnding, unicode_lines: bool) -> Seq<
    char,
> {
    match line_ending(line, unicode_lines) {
        Some(ending) => line.take(line.len() - ending.chars().len()) + wanted.chars(),
        None => line,
    }
}

/// One more line: the changes of the lines before it stay as they are, and its own ending is
/// replaced.
proof fn lemma_one_more_line(
    lines: Seq<Seq<char>>,
    text: Seq<char>,
    changes: Seq<Change<Seq<char>>>,
    wanted: LineEnding,
    unicode_lines: bool,
)
    requires
        lines.len() > 0,
        text == concatenated(lines.drop_last()),
        changes == ending_changes(lines.drop_last(), wanted, unicode_lines),
        concatenated(lines).len() <= usize::MAX,
        in_order(changes, text.len() as int),
    ensures
        in_order(
            ending_changes(lines, wanted, unicode_lines),
            concatenated(lines).len() as int,
        ),
        applied(concatenated(lines), ending_changes(lines, wanted, unicode_lines)) == applied(
            text,
            changes,
        ) + with_ending(lines.last(), wanted, unicode_lines),
{
    let line = lines.last();
    let whole = text + line;
    let all = ending_changes(lines, wanted, unicode_lines);
    assert(concatenated(lines) == whole);
    lemma_line_ending_chars(line, unicode_lines);
    match line_ending(line, unicode_lines) {
        Some(ending) if ending != wanted => {
            let start = whole.len() - ending.chars().len();
            let kept = line.take(line.len() - ending.chars().len());
            assert(all.drop_last() =~= changes);
            assert(whole.take(start) =~= text + kept);
            assert(whole.skip(whole.len() as int) =~= Seq::empty());
            lemma_applied_before(text, kept, changes);
            lemma_in_order_longer(changes, text.len() as int, start);
            assert(applied(whole, all) == applied(text + kept, changes) + wanted.chars()
                + Seq::<char>::empty());
            assert(applied(whole, all) =~= applied(text, changes) + (kept + wanted.chars()));
        },
        Some(ending) => {
            assert(all == changes);
            lemma_applied_before(text, line, changes);
            lemma_in_order_longer(changes, text.len() as int, whole.len() as int);
            assert(with_ending(line, wanted, unicode_lines) =~= line);
        },
        None => {
            assert(all == changes);
            lemma_applied_before(text, line, changes);
            lemma_in_order_longer(changes, text.len() as int, whole.len() as int);
        },
    }
}

/// The changes of the line endings are in order, and after them the text is that of the same
/// lines, each with the wanted ending in place of its own.
pub proof fn lemma_ending_changes(lines: Seq<Seq<char>>, wanted: LineEnding, unicode_lines: bool)
    requires
        concatenated(lines).len() <= usize::MAX,
    ensures
        in_order(
            ending_changes(lines, wanted, unicode_lines),
            concatenated(lines).len() as int,
        ),
        applied(concatenated(lines), ending_changes(lines, wanted, unicode_lines)) == concatenated(
            lines.map_values(|line: Seq<char>| with_ending(line, wanted, unicode_lines)),
        ),
    decreases lines.len(),
{
    let f = |line: Seq<char>| with_ending(line, wanted, unicode_lines);
    if lines.len() == 0 {
        assert(lines.map_values(f) =~= Seq::empty());
    } else {
        let first = lines.drop_last();
        lemma_ending_changes(first, wanted, unicode_lines);
        lemma_one_more_line(
            lines,
            concatenated(first),
            ending_changes(first, wanted, unicode_lines),
            wanted,
            unicode_lines,
        );
        assert(lines.map_values(f).drop_last() =~= first.map_values(f));
    }
}

/// Afterwards every line that had a line ending ends with the wanted one.
pub proof fn lemma_with_ending(line: Seq<char>, wanted: LineEnding, unicode_lines: bool)
    requires
        wanted.recognized(unicode_lines),
        line_ending(line, unicode_lines) is Some,
    ensures
        wanted.chars().is_suffix_of(with_ending(line, wanted, unicode_lines)),
{
    let after = with_ending(line, wanted, unicode_lines);
    lemma_line_ending_chars(line, unicode_lines);
    assert(wanted.chars() =~= after.subrange(after.len() - wanted.chars().len(), after.len() as int));
}

/// One change leaves the text before it and the text behind it, and puts its own text between
/// them.
pub proof fn lemma_applied_once(
    before: Seq<char>,
    replaced: Seq<char>,
    behind: Seq<char>,
    change: Change<Seq<char>>,
)
    requires
        change.from == before.len(),
        change.to == before.len() + replaced.len(),
    ensures
        change.text is Some ==> applied(before + replaced + behind, seq![change]) == before
            + change.text->0 + behind,
        change.text is None ==> applied(before + replaced + behind, seq![change]) == before
            + behind,
{
    let text = before + replaced + behind;
    assert(seq![change].drop_last() =~= Seq::<Change<Seq<char>>>::empty());
    assert(applied(before, seq![change].drop_last()) == before);
    assert(text.take(change.from as int) =~= before);
    assert(text.skip(change.to as int) =~= behind);
    assert(before + Seq::<char>::empty() + behind =~= before + behind);
}

/// Changes far from each other do not touch each other: what a change makes of the text behind
/// earlier changes does not depend on them.
pub proof fn lemma_applied_apart(
    first: Seq<char>,
    second: Seq<char>,
    replaced: Seq<char>,
    behind: Seq<char>,
    changes: Seq<Change<Seq<char>>>,
    change: Change<Seq<char>>,
)
    requires
        in_order(changes, first.len() as int),
        change.from == first.len() + second.len(),
        change.to == first.len() + second.len() + replaced.len(),
        change.text is Some,
    ensures
        applied(first + second + replaced + behind, changes.push(change)) == applied(first, changes)
            + second + change.text->0 + behind,
{
    let text = first + second + replaced + behind;
    assert(changes.push(change).drop_last() =~= changes);
    assert(text.take(change.from as int) =~= first + second);
    assert(text.skip(change.to as int) =~= behind);
    lemma_applied_before(first, second, changes);
}

/// Which characters the line endings are made of. No two are written the same way.
pub proof fn lemma_ending_characters(a: LineEnding, b: LineEnding)
    ensures
        a != b ==> a.chars() != b.chars(),
        a == LineEnding::Crlf <==> a.chars().len() == 2,
        a.chars().len() == 1 || a.chars().len() == 2,
        a == LineEnding::Crlf ==> a.chars()[0] as int == 13 && a.chars()[1] as int == 10,
        a == LineEnding::LF <==> a.chars()[0] as int == 10,
        a == LineEnding::VT <==> a.chars()[0] as int == 11,
        a == LineEnding::FF <==> a.chars()[0] as int == 12,
        a == LineEnding::CR <==> a.chars()[0] as int == 13 && a.chars().len() == 1,
        a == LineEnding::Nel <==> a.chars()[0] as int == 133,
        a == LineEnding::LS <==> a.chars()[0] as int == 8232,
        a == LineEnding::PS <==> a.chars()[0] as int == 8233,
{
    if a != b && a.chars() == b.chars() {
        assert(a.chars()[0] == b.chars()[0]);
        assert(a.chars().len() == b.chars().len());
    }
}

/// The endings of every text are recognized; the others only where lines end at all line breaks
/// of Unicode.
pub proof fn lemma_recognized_endings(ending: LineEnding, unicode_lines: bool)
    ensures
        ending.recognized(true),
        ending.recognized(false) <==> ending.chars() == seq!['\n'] || ending.chars() == seq![
            '\r',
            '\n',
        ],
        ending.recognized(false) ==> ending.recognized(unicode_lines),
{
    if ending.chars() == seq!['\n'] {
        assert(ending.chars()[0] == '\n');
    }
    if ending.chars() == seq!['\r', '\n'] {
        assert(ending.chars().len() == 2);
    }
}

/// A text that a recognized ending is written behind ends with that ending, unless a line feed is
/// written behind a carriage return: the two are one ending.
pub proof fn lemma_written_ending(body: Seq<char>, ending: LineEnding, unicode_lines: bool)
    requires
        ending.recognized(unicode_lines),
    ensures
        ending == LineEnding::LF && body.len() > 0 && body.last() == '\r' ==> line_ending(
            body + ending.chars(),
            unicode_lines,
        ) == Some(LineEnding::Crlf),
        !(ending == LineEnding::LF && body.len() > 0 && body.last() == '\r') ==> line_ending(
            body + ending.chars(),
            unicode_lines,
        ) == Some(ending),
{
    let text = body + ending.chars();
    assert(text.last() == ending.chars().last());
    if text.len() >= 2 && ending.chars().len() == 1 {
        assert(text[text.len() - 2] == body.last());
    }
}

/// A text is without an ending exactly when no recognized ending stands at its end.
pub proof fn lemma_no_ending(text: Seq<char>, unicode_lines: bool)
    ensures
        line_ending(text, unicode_lines) is None <==> forall|ending: LineEnding|
            ending.recognized(unicode_lines) ==> !#[trigger] ending.chars().is_suffix_of(text),
{
    if line_ending(text, unicode_lines) is Some {
        lemma_line_ending_chars(text, unicode_lines);
    } else {
        assert forall|ending: LineEnding| ending.recognized(unicode_lines) implies !#[trigger] ending.chars().is_suffix_of(
            text,
        ) by {
            if ending.chars().is_suffix_of(text) {
                let body = text.take(text.len() - ending.chars().len());
                assert(text =~= body + ending.chars());
                lemma_written_ending(body, ending, unicode_lines);
            }
        }
    }
}

/// The ending of a line is taken off whole and the wanted one stands in its place. Read again, the
/// line ends as wanted, unless a line feed now stands behind a carriage return of the line itself.
pub proof fn lemma_line_converted(
    body: Seq<char>,
    ending: LineEnding,
    wanted: LineEnding,
    unicode_lines: bool,
)
    requires
        line_ending(body + ending.chars(), unicode_lines) == Some(ending),
    ensures
        with_ending(body + ending.chars(), wanted, unicode_lines) == body + wanted.chars(),
        wanted.recognized(unicode_lines) && !(wanted == LineEnding::LF && body.len() > 0
            && body.last() == '\r') ==> line_ending(
            with_ending(body + ending.chars(), wanted, unicode_lines),
            unicode_lines,
        ) == Some(wanted),
{
    let line = body + ending.chars();
    assert(line.take(line.len() - ending.chars().len()) =~= body);
    if wanted.recognized(unicode_lines) {
        lemma_written_ending(body, wanted, unicode_lines);
    }
}

/// Whether lines are made of bodies and of the endings behind them, where they have one.
pub open spec fn made_of(
    lines: Seq<Seq<char>>,
    bodies: Seq<Seq<char>>,
    endings: Seq<Option<LineEnding>>,
    unicode_lines: bool,
) -> bool {
    &&& bodies.len() == lines.len()
    &&& endings.len() == lines.len()
    &&& forall|i: int|
        0 <= i < lines.len() ==> line_ending(#[trigger] lines[i], unicode_lines) == endings[i]
            && lines[i] == (match endings[i] {
            Some(ending) => bodies[i] + ending.chars(),
            None => bodies[i],
        })
}

/// Converting a text leaves the body of every line as it is, puts the wanted ending behind each
/// body that had one, and adds none where there was none.
pub proof fn lemma_text_converted(
    lines: Seq<Seq<char>>,
    bodies: Seq<Seq<char>>,
    endings: Seq<Option<LineEnding>>,
    wanted: LineEnding,
    unicode_lines: bool,
)
    requires
        concatenated(lines).len() <= usize::MAX,
        made_of(lines, bodies, endings, unicode_lines),
    ensures
        applied(concatenated(lines), ending_changes(lines, wanted, unicode_lines)) == concatenated(
            Seq::new(
                lines.len(),
                |i: int|
                    if endings[i] is Some {
                        bodies[i] + wanted.chars()
                    } else {
                        bodies[i]
                    },
            ),
        ),
{
    let converted = Seq::new(
        lines.len(),
        |i: int|
            if endings[i] is Some {
                bodies[i] + wanted.chars()
            } else {
                bodies[i]
            },
    );
    let mapped = lines.map_values(|line: Seq<char>| with_ending(line, wanted, unicode_lines));
    lemma_ending_changes(lines, wanted, unicode_lines);
    assert forall|i: int| 0 <= i < lines.len() implies #[trigger] mapped[i] == converted[i] by {
        let line = lines[i];
        if endings[i] is Some {
            lemma_line_converted(bodies[i], endings[i]->0, wanted, unicode_lines);
        }
    }
    assert(mapped =~= converted);
}

/// Converting a text changes nothing but endings, and only those that are not the wanted one
/// already: each change takes one recognized ending away, from the end of a line, and writes the
/// wanted one.
pub proof fn lemma_only_endings_change(
    lines: Seq<Seq<char>>,
    wanted: LineEnding,
    unicode_lines: bool,
    k: int,
)
    requires
        concatenated(lines).len() <= usize::MAX,
        0 <= k < ending_changes(lines, wanted, unicode_lines).len(),
    ensures
        ({
            let change = ending_changes(lines, wanted, unicode_lines)[k];
            let text = concatenated(lines);
            &&& change.from < change.to <= text.len()
            &&& change.text == Some(wanted.chars())
            &&& exists|ending: LineEnding|
                ending != wanted && ending.recognized(unicode_lines)
                    && #[trigger] ending.chars() == text.subrange(
                    change.from as int,
                    change.to as int,
                )
            &&& exists|i: int|
                0 < i <= lines.len() && change.to == concatenated(#[trigger] lines.take(i)).len()
        }),
    decreases lines.len(),
{
    let changes = ending_changes(lines, wanted, unicode_lines);
    let text = concatenated(lines);
    let first = lines.drop_last();
    let before = ending_changes(first, wanted, unicode_lines);
    let change = changes[k];
    if k < before.len() {
        lemma_only_endings_change(first, wanted, unicode_lines, k);
        assert(change == before[k]);
        assert(text.subrange(change.from as int, change.to as int) =~= concatenated(first).subrange(
            change.from as int,
            change.to as int,
        ));
        let i = choose|i: int|
            0 < i <= first.len() && change.to == concatenated(#[trigger] first.take(i)).len();
        assert(first.take(i) =~= lines.take(i));
    } else {
        lemma_line_ending_chars(lines.last(), unicode_lines);
        let ending = line_ending(lines.last(), unicode_lines)->0;
        assert(lines.take(lines.len() as int) =~= lines);
        assert(ending.chars() =~= text.subrange(change.from as int, change.to as int));
    }
}

} // verus!
