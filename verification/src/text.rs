//! Text helpers: comparison, trimming, case, and the digits of numbers.
use vstd::prelude::*;

verus! {

/// `String::push` appends the given character to the end of the string.
pub assume_specification[ String::push ](s: &mut String, c: char)
    ensures
        final(s)@ == old(s)@.push(c),
;

/// The lower-case equivalent of a text by Unicode's rules, as `str::to_lowercase` gives it.
pub uninterp spec fn unicode_lowercased(text: Seq<char>) -> Seq<char>;

/// Calls `str::to_lowercase`. Its result is a function of the text alone and is named
/// [`unicode_lowercased`].
#[verifier::external_body]
fn unicode_lowercase(text: &str) -> (r: String)
    ensures
        r@ == unicode_lowercased(text@),
{
    text.to_lowercase()
}

/// A text as the `Debug` formatting of `str` shows it: in quotes, with escapes.
pub uninterp spec fn debug_text(text: Seq<char>) -> Seq<char>;

/// Formats a `str` by its `Debug`. The result is a function of the text alone and is named
/// [`debug_text`].
#[verifier::external_body]
pub(crate) fn to_debug(text: &str) -> (r: String)
    ensures
        r@ == debug_text(text@),
{
    format!("{:?}", text)
}

/// A character as its `Debug` formatting shows it: in quotes, with escapes.
pub uninterp spec fn debug_char(c: char) -> Seq<char>;

/// Formats a `char` by its `Debug`. The result is a function of the character alone and is
/// named [`debug_char`].
#[verifier::external_body]
pub(crate) fn to_debug_char(c: char) -> (r: String)
    ensures
        r@ == debug_char(c),
{
    format!("{:?}", c)
}

/// Whether two texts are the same, character by character.
pub(crate) fn same(a: &str, b: &str) -> (r: bool)
    ensures
        r == (a@ == b@),
{
    let left = chars_of(a);
    let right = chars_of(b);
    if left.len() != right.len() {
        return false;
    }
    let mut i: usize = 0;
    while i < left.len()
        invariant
            left@ == a@,
            right@ == b@,
            left.len() == right.len(),
            i <= left.len(),
            forall|j: int| 0 <= j < i ==> left@[j] == right@[j],
        decreases left.len() - i,
    {
        if left[i] != right[i] {
            assert(a@[i as int] != b@[i as int]);
            return false;
        }
        i = i + 1;
    }
    assert(a@ =~= b@);
    true
}

/// The characters of a text.
pub(crate) fn chars_of(text: &str) -> (r: Vec<char>)
    ensures
        r@ == text@,
{
    let mut out: Vec<char> = Vec::new();
    for c in it: text.chars()
        invariant
            out@ == text@.take(it.index() as int),
            it.seq() == text@,
    {
        assert(text@.take(it.index() as int).push(c) =~= text@.take(it.index() + 1));
        out.push(c);
    }
    assert(text@.take(text@.len() as int) =~= text@);
    out
}

/// The text made of the given characters.
pub(crate) fn text_of(chars: &Vec<char>) -> (r: String)
    ensures
        r@ == chars@,
{
    range_text(chars, 0, chars.len())
}

/// The text made of the characters from `from` up to `to`.
pub(crate) fn range_text(chars: &Vec<char>, from: usize, to: usize) -> (r: String)
    requires
        from <= to <= chars@.len(),
    ensures
        r@ == chars@.subrange(from as int, to as int),
{
    let mut out = String::new();
    let mut i: usize = from;
    while i < to
        invariant
            from <= i <= to <= chars@.len(),
            out@ == chars@.subrange(from as int, i as int),
        decreases to - i,
    {
        out.push(chars[i]);
        i = i + 1;
        assert(out@ =~= chars@.subrange(from as int, i as int));
    }
    out
}

/// Whether a text begins with another.
pub(crate) fn starts_with(text: &str, start: &str) -> (r: bool)
    ensures
        r == start@.is_prefix_of(text@),
{
    let whole = chars_of(text);
    let part = chars_of(start);
    if part.len() > whole.len() {
        return false;
    }
    let mut i: usize = 0;
    while i < part.len()
        invariant
            whole@ == text@,
            part@ == start@,
            part.len() <= whole.len(),
            i <= part.len(),
            forall|j: int| 0 <= j < i ==> whole@[j] == part@[j],
        decreases part.len() - i,
    {
        if whole[i] != part[i] {
            assert(start@[i as int] != text@.subrange(0, start@.len() as int)[i as int]);
            return false;
        }
        i = i + 1;
    }
    assert(start@ =~= text@.subrange(0, start@.len() as int));
    true
}

/// A text without the occurrences of `c` that it begins with.
pub open spec fn trimmed_start(text: Seq<char>, c: char) -> Seq<char>
    decreases text.len(),
{
    if text.len() > 0 && text[0] == c {
        trimmed_start(text.skip(1), c)
    } else {
        text
    }
}

/// Drops the occurrences of `c` that a text begins with.
pub(crate) fn trim_start(text: &str, c: char) -> (r: String)
    ensures
        r@ == trimmed_start(text@, c),
{
    let chars = chars_of(text);
    let mut i: usize = 0;
    assert(chars@.skip(0) =~= chars@);
    while i < chars.len() && chars[i] == c
        invariant
            chars@ == text@,
            i <= chars.len(),
            trimmed_start(chars@.skip(i as int), c) == trimmed_start(text@, c),
        decreases chars.len() - i,
    {
        assert(chars@.skip(i as int).skip(1) =~= chars@.skip(i + 1));
        i = i + 1;
    }
    assert(chars@.skip(i as int) =~= chars@.subrange(i as int, chars@.len() as int));
    range_text(&chars, i, chars.len())
}

/// Whether Unicode counts a character as white space.
pub open spec fn is_white_space(c: char) -> bool {
    ('\u{9}' <= c && c <= '\u{d}') || c == ' ' || c == '\u{85}' || c == '\u{a0}' || c
        == '\u{1680}' || ('\u{2000}' <= c && c <= '\u{200a}') || c == '\u{2028}' || c
        == '\u{2029}' || c == '\u{202f}' || c == '\u{205f}' || c == '\u{3000}'
}

fn white_space(c: char) -> (r: bool)
    ensures
        r == is_white_space(c),
{
    ('\u{9}' <= c && c <= '\u{d}') || c == ' ' || c == '\u{85}' || c == '\u{a0}' || c
        == '\u{1680}' || ('\u{2000}' <= c && c <= '\u{200a}') || c == '\u{2028}' || c
        == '\u{2029}' || c == '\u{202f}' || c == '\u{205f}' || c == '\u{3000}'
}

/// A text without the white space that it ends with.
pub open spec fn trimmed_end(text: Seq<char>) -> Seq<char>
    decreases text.len(),
{
    if text.len() > 0 && is_white_space(text.last()) {
        trimmed_end(text.drop_last())
    } else {
        text
    }
}

/// Drops the white space that a text ends with.
pub(crate) fn trim_end(text: &str) -> (r: String)
    ensures
        r@ == trimmed_end(text@),
{
    let chars = chars_of(text);
    let mut n: usize = chars.len();
    assert(chars@.take(n as int) =~= chars@);
    while n > 0 && white_space(chars[n - 1])
        invariant
            chars@ == text@,
            n <= chars.len(),
            trimmed_end(chars@.take(n as int)) == trimmed_end(text@),
        decreases n,
    {
        assert(chars@.take(n as int).drop_last() =~= chars@.take(n - 1));
        n = n - 1;
    }
    range_text(&chars, 0, n)
}

/// A character with the ASCII upper-case letters made lower-case.
pub open spec fn ascii_lower(c: char) -> char {
    if 'A' <= c && c <= 'Z' {
        (c as u32 + 32) as char
    } else {
        c
    }
}

/// A text with the ASCII upper-case letters made lower-case.
pub open spec fn ascii_lowercased(text: Seq<char>) -> Seq<char> {
    text.map_values(|c: char| ascii_lower(c))
}

/// Makes the ASCII upper-case letters of a text lower-case.
pub(crate) fn to_ascii_lowercase(text: &str) -> (r: String)
    ensures
        r@ == ascii_lowercased(text@),
{
    let chars = chars_of(text);
    let mut out = String::new();
    let mut i: usize = 0;
    while i < chars.len()
        invariant
            chars@ == text@,
            i <= chars.len(),
            out@ == ascii_lowercased(text@.take(i as int)),
        decreases chars.len() - i,
    {
        let c = chars[i];
        let lower = if 'A' <= c && c <= 'Z' {
            (c as u8 + 32) as char
        } else {
            c
        };
        out.push(lower);
        i = i + 1;
        assert(out@ =~= ascii_lowercased(text@.take(i as int)));
    }
    assert(text@.take(i as int) =~= text@);
    out
}

/// Whether a text holds only ASCII characters.
pub open spec fn all_ascii(text: Seq<char>) -> bool {
    forall|i: int| 0 <= i < text.len() ==> #[trigger] text[i] <= '\u{7f}'
}

/// The lower-case equivalent of a text.
pub open spec fn lowercased(text: Seq<char>) -> Seq<char> {
    if all_ascii(text) {
        ascii_lowercased(text)
    } else {
        unicode_lowercased(text)
    }
}

/// Makes a text lower-case.
pub(crate) fn to_lowercase(text: &str) -> (r: String)
    ensures
        r@ == lowercased(text@),
{
    let chars = chars_of(text);
    let mut i: usize = 0;
    while i < chars.len()
        invariant
            chars@ == text@,
            i <= chars.len(),
            forall|j: int| 0 <= j < i ==> #[trigger] chars@[j] <= '\u{7f}',
        decreases chars.len() - i,
    {
        if chars[i] > '\u{7f}' {
            assert(!(text@[i as int] <= '\u{7f}'));
            return unicode_lowercase(text);
        }
        i = i + 1;
    }
    to_ascii_lowercase(text)
}

/// A text with every occurrence of one character replaced by another.
pub open spec fn char_replaced(text: Seq<char>, from: char, to: char) -> Seq<char> {
    text.map_values(|c: char| if c == from { to } else { c })
}

/// Replaces every occurrence of one character by another.
pub(crate) fn replace_char(text: &str, from: char, to: char) -> (r: String)
    ensures
        r@ == char_replaced(text@, from, to),
{
    let chars = chars_of(text);
    let mut out = String::new();
    let mut i: usize = 0;
    while i < chars.len()
        invariant
            chars@ == text@,
            i <= chars.len(),
            out@ == char_replaced(text@.take(i as int), from, to),
        decreases chars.len() - i,
    {
        out.push(if chars[i] == from { to } else { chars[i] });
        i = i + 1;
        assert(out@ =~= char_replaced(text@.take(i as int), from, to));
    }
    assert(text@.take(i as int) =~= text@);
    out
}

/// Texts one after the other, with a separator between them.
pub open spec fn joined(texts: Seq<Seq<char>>, separator: Seq<char>) -> Seq<char>
    decreases texts.len(),
{
    if texts.len() == 0 {
        Seq::empty()
    } else if texts.len() == 1 {
        texts[0]
    } else {
        joined(texts.drop_last(), separator) + separator + texts.last()
    }
}

/// The views of a vector of texts.
pub open spec fn views(texts: Seq<String>) -> Seq<Seq<char>> {
    texts.map_values(|t: String| t@)
}

/// Joins texts with a separator between them.
pub(crate) fn join(texts: &Vec<String>, separator: &str) -> (r: String)
    ensures
        r@ == joined(views(texts@), separator@),
{
    let mut out = String::new();
    let mut i: usize = 0;
    while i < texts.len()
        invariant
            i <= texts.len(),
            out@ == joined(views(texts@).take(i as int), separator@),
        decreases texts.len() - i,
    {
        assert(views(texts@).take(i + 1).drop_last() =~= views(texts@).take(i as int));
        if i > 0 {
            out.append(separator);
        }
        out.append(texts[i].as_str());
        i = i + 1;
        assert(out@ =~= joined(views(texts@).take(i as int), separator@));
    }
    assert(views(texts@).take(i as int) =~= views(texts@));
    out
}

/// A list of texts as its `Debug` formatting shows it: the texts in quotes, between brackets.
pub open spec fn debug_list(texts: Seq<Seq<char>>) -> Seq<char> {
    seq!['['] + joined(texts.map_values(|t: Seq<char>| debug_text(t)), ", "@) + seq![']']
}

/// Formats a list of texts as its `Debug` does.
pub(crate) fn to_debug_list(texts: &Vec<String>) -> (r: String)
    ensures
        r@ == debug_list(views(texts@)),
{
    let mut shown: Vec<String> = Vec::new();
    let mut i: usize = 0;
    while i < texts.len()
        invariant
            i <= texts.len(),
            shown.len() == i,
            forall|j: int| 0 <= j < i ==> shown@[j]@ == debug_text(#[trigger] texts@[j]@),
        decreases texts.len() - i,
    {
        shown.push(to_debug(texts[i].as_str()));
        i = i + 1;
    }
    assert(views(shown@) =~= views(texts@).map_values(|t: Seq<char>| debug_text(t)));
    let mut out = String::new();
    out.push('[');
    out.append(join(&shown, ", ").as_str());
    out.push(']');
    assert(out@ =~= debug_list(views(texts@)));
    out
}

/// The ending that makes a noun plural, except for one.
pub open spec fn plural(n: nat) -> Seq<char> {
    if n == 1 {
        ""@
    } else {
        "s"@
    }
}

/// The ending that makes a noun plural, except for one.
pub(crate) fn plural_ending(n: usize) -> (r: &'static str)
    ensures
        r@ == plural(n as nat),
{
    if n == 1 {
        ""
    } else {
        "s"
    }
}

/// The character that stands for a digit below sixteen.
pub open spec fn digit_char(d: nat) -> char {
    if d < 10 {
        (48 + d) as char
    } else {
        (87 + d) as char
    }
}

/// A number in a positional notation, without leading zeros.
pub open spec fn digits(n: nat, base: nat) -> Seq<char>
    decreases n,
{
    if base < 2 || n < base {
        seq![digit_char(n)]
    } else {
        proof {
            assert(n / base < n) by (nonlinear_arith)
                requires
                    2 <= base <= n,
            ;
        }
        digits(n / base, base).push(digit_char(n % base))
    }
}

/// A number in decimal notation.
pub open spec fn decimal(n: nat) -> Seq<char> {
    digits(n, 10)
}

/// A number in hexadecimal notation, filled up with zeros on the left to the given width.
pub open spec fn hexadecimal(n: nat, width: nat) -> Seq<char> {
    padded(digits(n, 16), width)
}

/// A text filled up with zeros on the left to the given width.
pub open spec fn padded(text: Seq<char>, width: nat) -> Seq<char>
    decreases width - text.len(),
{
    if text.len() >= width {
        text
    } else {
        padded(seq!['0'] + text, width)
    }
}

fn to_digit_char(d: u64) -> (r: char)
    requires
        d < 16,
    ensures
        r == digit_char(d as nat),
{
    if d < 10 {
        (48 + d as u8) as char
    } else {
        (87 + d as u8) as char
    }
}

/// Writes a number in a positional notation, filled up with zeros on the left.
pub(crate) fn to_digits(n: u64, base: u64, width: usize) -> (r: String)
    requires
        2 <= base <= 16,
    ensures
        r@ == padded(digits(n as nat, base as nat), width as nat),
{
    let mut reversed: Vec<char> = Vec::new();
    let mut left: u64 = n;
    assert(digits(n as nat, base as nat) =~= digits(left as nat, base as nat)
        + reversed@.reverse());
    while left >= base
        invariant
            2 <= base <= 16,
            digits(n as nat, base as nat) == digits(left as nat, base as nat)
                + reversed@.reverse(),
        decreases left,
    {
        let ghost before = reversed@;
        assert(left % base < base && left / base < left) by (nonlinear_arith)
            requires
                2 <= base <= left,
        ;
        reversed.push(to_digit_char(left % base));
        assert(reversed@.reverse() =~= seq![digit_char((left % base) as nat)]
            + before.reverse());
        assert(digits(left as nat, base as nat) =~= digits((left / base) as nat, base as nat)
            + seq![digit_char((left % base) as nat)]);
        left = left / base;
        assert(digits(n as nat, base as nat) =~= digits(left as nat, base as nat)
            + reversed@.reverse());
    }
    let ghost before = reversed@;
    reversed.push(to_digit_char(left));
    assert(reversed@.reverse() =~= seq![digit_char(left as nat)] + before.reverse());
    assert(digits(n as nat, base as nat) =~= reversed@.reverse());
    while reversed.len() < width
        invariant
            padded(reversed@.reverse(), width as nat) == padded(
                digits(n as nat, base as nat),
                width as nat,
            ),
        decreases width - reversed.len(),
    {
        let ghost before = reversed@;
        reversed.push('0');
        assert(reversed@.reverse() =~= seq!['0'] + before.reverse());
    }
    let mut out = String::new();
    let mut i: usize = reversed.len();
    while i > 0
        invariant
            i <= reversed.len(),
            out@ == reversed@.reverse().take(reversed.len() - i),
        decreases i,
    {
        i = i - 1;
        out.push(reversed[i]);
        assert(out@ =~= reversed@.reverse().take(reversed.len() - i));
    }
    assert(reversed@.reverse().take(reversed.len() as int) =~= reversed@.reverse());
    out
}

/// Writes a number in decimal notation.
pub(crate) fn to_decimal(n: usize) -> (r: String)
    ensures
        r@ == decimal(n as nat),
{
    to_digits(n as u64, 10, 0)
}

/// Trimming the end of a text takes all white space off it, and nothing else.
pub proof fn lemma_trimmed_end(text: Seq<char>, blank: Seq<char>)
    requires
        forall|i: int| 0 <= i < blank.len() ==> is_white_space(#[trigger] blank[i]),
        text.len() > 0 ==> !is_white_space(text.last()),
    ensures
        trimmed_end(text + blank) == text,
    decreases blank.len(),
{
    if blank.len() == 0 {
        assert(text + blank =~= text);
    } else {
        assert((text + blank).last() == blank[blank.len() - 1]);
        assert((text + blank).drop_last() =~= text + blank.drop_last());
        lemma_trimmed_end(text, blank.drop_last());
    }
}

/// Trimming the start of a text takes all of a character off it, and nothing else.
pub proof fn lemma_trimmed_start(front: Seq<char>, text: Seq<char>, c: char)
    requires
        forall|i: int| 0 <= i < front.len() ==> #[trigger] front[i] == c,
        text.len() > 0 ==> text[0] != c,
    ensures
        trimmed_start(front + text, c) == text,
    decreases front.len(),
{
    if front.len() == 0 {
        assert(front + text =~= text);
    } else {
        assert((front + text)[0] == front[0]);
        assert((front + text).skip(1) =~= front.skip(1) + text);
        lemma_trimmed_start(front.skip(1), text, c);
    }
}

/// Lower case letters are those of the alphabet, each 32 places behind its upper case letter.
/// Other characters stay, and a text stays as long as it is.
pub proof fn lemma_ascii_lowercased(text: Seq<char>, i: int)
    requires
        0 <= i < text.len(),
    ensures
        ascii_lowercased(text).len() == text.len(),
        65 <= text[i] as int <= 90 ==> ascii_lowercased(text)[i] as int == text[i] as int + 32,
        !(65 <= text[i] as int <= 90) ==> ascii_lowercased(text)[i] == text[i],
        all_ascii(text) ==> lowercased(text) == ascii_lowercased(text),
        !(65 <= ascii_lowercased(text)[i] as int <= 90),
{
}

/// A character is replaced wherever it stands, and nothing else is.
pub proof fn lemma_char_replaced(text: Seq<char>, from: char, to: char, i: int)
    requires
        0 <= i < text.len(),
    ensures
        char_replaced(text, from, to).len() == text.len(),
        text[i] == from ==> char_replaced(text, from, to)[i] == to,
        text[i] != from ==> char_replaced(text, from, to)[i] == text[i],
{
}

/// One text joined is that text, and texts joined with others are the two joined texts with a
/// separator between them.
pub proof fn lemma_joined(a: Seq<Seq<char>>, b: Seq<Seq<char>>, separator: Seq<char>)
    ensures
        joined(Seq::empty(), separator).len() == 0,
        a.len() == 1 ==> joined(a, separator) == a[0],
        a.len() > 0 && b.len() > 0 ==> joined(a + b, separator) == joined(a, separator) + separator
            + joined(b, separator),
    decreases b.len(),
{
    if a.len() > 0 && b.len() == 1 {
        assert((a + b).drop_last() =~= a);
        assert((a + b).last() == b[0]);
    } else if a.len() > 0 && b.len() > 1 {
        lemma_joined(a, b.drop_last(), separator);
        assert((a + b).drop_last() =~= a + b.drop_last());
        assert((a + b).last() == b.last());
        assert(joined(a + b, separator) =~= joined(a, separator) + separator + joined(
            b,
            separator,
        ));
    }
}

/// A list is shown in square brackets, its texts as they are shown for debugging with a comma and
/// a space between two of them.
pub proof fn lemma_debug_list(a: Seq<Seq<char>>, t: Seq<char>)
    ensures
        debug_list(Seq::empty()) == seq!['[', ']'],
        debug_list(seq![t]) == seq!['['] + debug_text(t) + seq![']'],
        a.len() > 0 ==> debug_list(a.push(t)) == debug_list(a).drop_last() + seq![',', ' ']
            + debug_text(t) + seq![']'],
{
    reveal_strlit(", ");
    assert(", "@ =~= seq![',', ' ']);
    let show = |t: Seq<char>| debug_text(t);
    let none = Seq::<Seq<char>>::empty();
    assert(none.map_values(show) =~= none);
    assert(debug_list(none) =~= seq!['[', ']']);
    assert(seq![t].map_values(show) =~= seq![debug_text(t)]);
    lemma_joined(seq![debug_text(t)], none, ", "@);
    if a.len() > 0 {
        let shown = a.map_values(show);
        assert(a.push(t).map_values(show) =~= shown + seq![debug_text(t)]);
        lemma_joined(shown, seq![debug_text(t)], ", "@);
        assert(debug_list(a.push(t)) =~= debug_list(a).drop_last() + seq![',', ' '] + debug_text(t)
            + seq![']']);
    }
}

/// The number that a digit stands for.
pub open spec fn digit_value(c: char) -> int {
    if '0' <= c && c <= '9' {
        c as int - 48
    } else {
        c as int - 87
    }
}

/// The number that digits stand for in some base.
pub open spec fn value_of(written: Seq<char>, base: nat) -> int
    decreases written.len(),
{
    if written.len() == 0 {
        0
    } else {
        value_of(written.drop_last(), base) * base + digit_value(written.last())
    }
}

/// A number that is written in a base up to sixteen is read again as it was. It is written in
/// digits and lower case letters, and with no zero before the others.
pub proof fn lemma_digits_read(n: nat, base: nat)
    requires
        2 <= base <= 16,
    ensures
        value_of(digits(n, base), base) == n,
        digits(n, base).len() > 0,
        n > 0 ==> digits(n, base)[0] != '0',
        forall|i: int|
            0 <= i < digits(n, base).len() ==> ('0' <= #[trigger] digits(n, base)[i] && digits(
                n,
                base,
            )[i] <= '9') || ('a' <= digits(n, base)[i] && digits(n, base)[i] <= 'f'),
    decreases n,
{
    let written = digits(n, base);
    if n < base {
        assert(written.drop_last() =~= Seq::empty());
        assert(value_of(written.drop_last(), base) == 0);
        assert(0 * base == 0);
    } else {
        assert(n / base < n && n / base > 0) by (nonlinear_arith)
            requires
                2 <= base <= n,
        ;
        assert(n == (n / base) * base + n % base && 0 <= n % base < base) by (nonlinear_arith)
            requires
                base > 0,
        ;
        lemma_digits_read(n / base, base);
        assert(written.drop_last() =~= digits(n / base, base));
    }
}

/// Padding puts as many zeros before a text as it takes to reach the width, and none if it has it.
pub proof fn lemma_padded(text: Seq<char>, width: nat)
    ensures
        text.len() >= width ==> padded(text, width) == text,
        text.len() < width ==> padded(text, width) == Seq::new(
            (width - text.len()) as nat,
            |i: int| '0',
        ) + text,
    decreases width - text.len(),
{
    if text.len() < width {
        lemma_padded(seq!['0'] + text, width);
        assert(padded(text, width) =~= Seq::new((width - text.len()) as nat, |i: int| '0') + text);
    }
}

/// A number in hexadecimal notation is its digits in base sixteen behind as many zeros as the
/// width asks for.
pub proof fn lemma_hexadecimal(n: nat, width: nat)
    ensures
        value_of(hexadecimal(n, width), 16) == n,
        hexadecimal(n, width).len() >= width,
        hexadecimal(n, width).len() > width && n > 0 ==> hexadecimal(n, width)[0] != '0',
{
    lemma_digits_read(n, 16);
    lemma_padded(digits(n, 16), width);
    let written = digits(n, 16);
    if written.len() < width {
        let zeros = Seq::new((width - written.len()) as nat, |i: int| '0');
        lemma_leading_zeros(zeros, written, 16);
    }
}

proof fn lemma_leading_zeros(zeros: Seq<char>, written: Seq<char>, base: nat)
    requires
        forall|i: int| 0 <= i < zeros.len() ==> #[trigger] zeros[i] == '0',
    ensures
        value_of(zeros + written, base) == value_of(written, base),
    decreases zeros.len() + written.len(),
{
    let all = zeros + written;
    if written.len() > 0 {
        lemma_leading_zeros(zeros, written.drop_last(), base);
        assert(all.drop_last() =~= zeros + written.drop_last());
    } else if zeros.len() > 0 {
        lemma_leading_zeros(zeros.drop_last(), written, base);
        assert(all.drop_last() =~= zeros.drop_last() + written);
        assert(all.last() == zeros[zeros.len() - 1]);
        assert(0 * base == 0);
    }
}

/// Which characters are white space: the five from the tab to the carriage return, the space, and
/// those beyond ASCII that Unicode calls so.
pub proof fn lemma_white_space(c: char)
    ensures
        c as int <= 127 ==> (is_white_space(c) <==> 9 <= c as int <= 13 || c as int == 32),
        c as int > 127 ==> (is_white_space(c) <==> c as int == 133 || c as int == 160 || c as int
            == 5760 || 8192 <= c as int <= 8202 || c as int == 8232 || c as int == 8233 || c as int
            == 8239 || c as int == 8287 || c as int == 12288),
{
}

} // verus!
