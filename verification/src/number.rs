//! Reading whole numbers from text.
use vstd::prelude::*;

use crate::text;

use crate::text::chars_of;

verus! {

/// Why a text is not a whole number of the wanted type.
#[derive(Clone, Copy, Debug, PartialEq, Eq, Structural)]
pub enum IntError {
    /// There is no character at all.
    Empty,
    /// A character is not a decimal digit.
    InvalidDigit,
    /// The number is too large for the type.
    PosOverflow,
}

impl IntError {
    /// What the error says.
    pub open spec fn message_spec(self) -> Seq<char> {
        match self {
            IntError::Empty => "cannot parse integer from empty string"@,
            IntError::InvalidDigit => "invalid digit found in string"@,
            IntError::PosOverflow => "number too large to fit in target type"@,
        }
    }

    /// What the error says.
    pub fn message(&self) -> (r: String)
        ensures
            r@ == self.message_spec(),
    {
        match self {
            IntError::Empty => "cannot parse integer from empty string".to_owned(),
            IntError::InvalidDigit => "invalid digit found in string".to_owned(),
            IntError::PosOverflow => "number too large to fit in target type".to_owned(),
        }
    }
}

/// Whether a character is a decimal digit.
pub open spec fn is_digit(c: char) -> bool {
    '0' <= c && c <= '9'
}

/// Whether every character is a decimal digit.
pub open spec fn all_digits(text: Seq<char>) -> bool {
    forall|i: int| 0 <= i < text.len() ==> is_digit(#[trigger] text[i])
}

/// The number that decimal digits stand for.
pub open spec fn digits_value(text: Seq<char>) -> nat
    decreases text.len(),
{
    if text.len() == 0 {
        0
    } else {
        digits_value(text.drop_last()) * 10 + (text.last() as nat - 48) as nat
    }
}

/// A text without the one plus sign that it may begin with.
pub open spec fn unsigned_part(text: Seq<char>) -> Seq<char> {
    if text.len() > 0 && text[0] == '+' {
        text.skip(1)
    } else {
        text
    }
}

/// The number that a text of an optional plus sign and at least one digit stands for.
pub open spec fn unsigned_value(text: Seq<char>) -> Option<nat> {
    let part = unsigned_part(text);
    if part.len() > 0 && all_digits(part) {
        Some(digits_value(part))
    } else {
        None
    }
}

/// Whether some digits that the number begins with exceed `max` already.
pub open spec fn overflows(part: Seq<char>, max: nat) -> bool {
    exists|k: int|
        0 < k <= part.len() && all_digits(#[trigger] part.take(k)) && digits_value(part.take(k))
            > max
}

/// The outcome of reading an unsigned number of at most `max`.
pub open spec fn unsigned(text: Seq<char>, max: nat) -> Result<nat, IntError> {
    if unsigned_value(text) is Some && unsigned_value(text)->0 <= max {
        Ok(unsigned_value(text)->0)
    } else if text.len() == 0 {
        Err(IntError::Empty)
    } else if overflows(unsigned_part(text), max) {
        Err(IntError::PosOverflow)
    } else {
        Err(IntError::InvalidDigit)
    }
}

/// More digits make no smaller number.
proof fn lemma_digits_value_grows(part: Seq<char>, k: int)
    requires
        all_digits(part),
        0 <= k <= part.len(),
    ensures
        digits_value(part.take(k)) <= digits_value(part),
    decreases part.len(),
{
    if k == part.len() {
        assert(part.take(k) =~= part);
    } else {
        lemma_digits_value_grows(part.drop_last(), k);
        assert(part.drop_last().take(k) =~= part.take(k));
    }
}

fn read_digits(part: &Vec<char>, from: usize, max: u64) -> (r: Result<u64, IntError>)
    requires
        from < part@.len(),
    ensures
        ({
            let rest = part@.skip(from as int);
            match r {
                Ok(n) => all_digits(rest) && n == digits_value(rest) && n <= max,
                Err(e) => if overflows(rest, max as nat) {
                    e == IntError::PosOverflow && !(all_digits(rest) && digits_value(rest) <= max)
                } else {
                    e == IntError::InvalidDigit && !all_digits(rest)
                },
            }
        }),
{
    let ghost rest = part@.skip(from as int);
    let mut i: usize = from;
    let mut n: u64 = 0;
    while i < part.len()
        invariant
            from <= i <= part.len(),
            from < part.len(),
            rest == part@.skip(from as int),
            all_digits(rest.take(i - from)),
            n == digits_value(rest.take(i - from)),
            n <= max,
            forall|k: int|
                0 < k <= i - from ==> digits_value(#[trigger] rest.take(k)) <= max,
        decreases part.len() - i,
    {
        let c = part[i];
        let ghost here = rest.take(i - from + 1);
        assert(here.drop_last() =~= rest.take(i - from));
        assert(here.last() == c);
        if c < '0' || c > '9' {
            proof {
                assert(!is_digit(here[i - from]));
                assert forall|k: int| 0 < k <= rest.len() && all_digits(#[trigger] rest.take(k))
                    implies digits_value(rest.take(k)) <= max by {
                    if k > i - from {
                        assert(!is_digit(rest.take(k)[i - from]));
                    }
                }
                assert(!is_digit(rest[i - from]));
            }
            return Err(IntError::InvalidDigit);
        }
        let d: u64 = (c as u8 - 48) as u64;
        assert(all_digits(here)) by {
            assert forall|j: int| 0 <= j < here.len() implies is_digit(#[trigger] here[j]) by {
                if j < i - from {
                    assert(here[j] == rest.take(i - from)[j]);
                }
            }
        }
        if n > max / 10 || n * 10 > max || d > max - n * 10 {
            proof {
                assert(digits_value(here) > max);
                if all_digits(rest) {
                    lemma_digits_value_grows(rest, i - from + 1);
                }
            }
            return Err(IntError::PosOverflow);
        }
        n = n * 10 + d;
        i = i + 1;
    }
    assert(rest.take(i - from) =~= rest);
    assert forall|k: int| 0 < k <= rest.len() && all_digits(#[trigger] rest.take(k))
        implies digits_value(rest.take(k)) <= max by {}
    Ok(n)
}

fn read_unsigned(text: &str, max: u64) -> (r: Result<u64, IntError>)
    ensures
        match r {
            Ok(n) => unsigned(text@, max as nat) == Ok::<nat, IntError>(n as nat),
            Err(e) => unsigned(text@, max as nat) == Err::<nat, IntError>(e),
        },
{
    let part = chars_of(text);
    if part.len() == 0 {
        return Err(IntError::Empty);
    }
    let from: usize = if part[0] == '+' { 1 } else { 0 };
    assert(part@.skip(from as int) =~= unsigned_part(text@));
    if from == part.len() {
        return Err(IntError::InvalidDigit);
    }
    read_digits(&part, from, max)
}

/// Reads a `usize`: an optional plus sign and decimal digits.
pub fn parse_usize(text: &str) -> (r: Result<usize, IntError>)
    ensures
        match r {
            Ok(n) => unsigned(text@, usize::MAX as nat) == Ok::<nat, IntError>(n as nat),
            Err(e) => unsigned(text@, usize::MAX as nat) == Err::<nat, IntError>(e),
        },
{
    match read_unsigned(text, usize::MAX as u64) {
        Ok(n) => Ok(n as usize),
        Err(e) => Err(e),
    }
}

/// Reads a `u8`: an optional plus sign and decimal digits.
pub fn parse_u8(text: &str) -> (r: Result<u8, IntError>)
    ensures
        match r {
            Ok(n) => unsigned(text@, 255) == Ok::<nat, IntError>(n as nat),
            Err(e) => unsigned(text@, 255) == Err::<nat, IntError>(e),
        },
{
    match read_unsigned(text, 255) {
        Ok(n) => Ok(n as u8),
        Err(e) => Err(e),
    }
}

/// The number that an optional sign and at least one digit stand for.
pub open spec fn signed_value(text: Seq<char>) -> Option<int> {
    if text.len() > 1 && text[0] == '-' {
        if all_digits(text.skip(1)) {
            Some(-digits_value(text.skip(1)))
        } else {
            None
        }
    } else {
        match unsigned_value(text) {
            Some(n) => Some(n as int),
            None => None,
        }
    }
}

/// Reads an `i32`: an optional sign and decimal digits.
pub fn parse_i32(text: &str) -> (r: Option<i32>)
    ensures
        match r {
            Some(n) => signed_value(text@) == Some(n as int),
            None => match signed_value(text@) {
                Some(n) => n < i32::MIN || n > i32::MAX,
                None => true,
            },
        },
{
    let part = chars_of(text);
    if part.len() > 1 && part[0] == '-' {
        match read_digits(&part, 1, 2147483648) {
            Ok(n) => Some((0 - n as i64) as i32),
            Err(_) => None,
        }
    } else {
        assert(2147483647 == i32::MAX);
        match read_unsigned(text, 2147483647) {
            Ok(n) => Some(n as i32),
            Err(_) => None,
        }
    }
}

/// A number that is written in decimal notation is read again as it was.
pub proof fn lemma_decimal_read(n: nat)
    ensures
        all_digits(text::decimal(n)),
        text::decimal(n).len() > 0,
        digits_value(text::decimal(n)) == n,
        unsigned_value(text::decimal(n)) == Some(n),
    decreases n,
{
    let written = text::decimal(n);
    let last = text::digit_char(n % 10);
    assert(n % 10 < 10);
    assert(is_digit(last) && last as nat - 48 == n % 10);
    if n < 10 {
        assert(written =~= seq![text::digit_char(n)]);
        assert(written.drop_last() =~= Seq::<char>::empty());
        assert(digits_value(Seq::<char>::empty()) == 0);
    } else {
        lemma_decimal_read(n / 10);
        assert(written == text::decimal(n / 10).push(last));
        assert(written.drop_last() =~= text::decimal(n / 10));
        assert(n / 10 * 10 + n % 10 == n);
    }
    assert(is_digit(written[0]));
    assert(unsigned_part(written) == written);
}

/// A number that is written with its sign is read again as it was.
pub proof fn lemma_signed_decimal(n: int)
    ensures
        n >= 0 ==> signed_value(text::decimal(n as nat)) == Some(n),
        n >= 0 ==> signed_value(seq!['+'] + text::decimal(n as nat)) == Some(n),
        n <= 0 ==> signed_value(seq!['-'] + text::decimal((0 - n) as nat)) == Some(n),
{
    if n >= 0 {
        lemma_decimal_read(n as nat);
        let written = seq!['+'] + text::decimal(n as nat);
        assert(written.skip(1) =~= text::decimal(n as nat));
    }
    if n <= 0 {
        lemma_decimal_read((0 - n) as nat);
        let written = seq!['-'] + text::decimal((0 - n) as nat);
        assert(written.skip(1) =~= text::decimal((0 - n) as nat));
    }
}

/// What holds anything but digits behind its sign is no number.
pub proof fn lemma_no_number(text: Seq<char>)
    requires
        exists|i: int|
            0 <= i < text.len() && !('0' <= #[trigger] text[i] && text[i] <= '9') && (i > 0 || (
            text[i] != '-' && text[i] != '+')),
    ensures
        signed_value(text) is None,
        unsigned_value(text) is None,
{
    let i = choose|i: int|
        0 <= i < text.len() && !('0' <= #[trigger] text[i] && text[i] <= '9') && (i > 0 || (text[i]
            != '-' && text[i] != '+'));
    if i > 0 {
        assert(text.skip(1)[i - 1] == text[i]);
    }
}

/// A number is read up to the greatest that is allowed, with or without a plus sign before it, and
/// a greater one is too large.
pub proof fn lemma_unsigned_decimal(n: nat, max: nat)
    ensures
        n <= max ==> unsigned(text::decimal(n), max) == Ok::<nat, IntError>(n),
        n <= max ==> unsigned(seq!['+'] + text::decimal(n), max) == Ok::<nat, IntError>(n),
        n > max ==> unsigned(text::decimal(n), max) == Err::<nat, IntError>(IntError::PosOverflow),
        n > max ==> unsigned(seq!['+'] + text::decimal(n), max) == Err::<nat, IntError>(
            IntError::PosOverflow,
        ),
{
    lemma_decimal_read(n);
    let written = text::decimal(n);
    let signed = seq!['+'] + written;
    assert(is_digit(written[0]));
    assert(signed.skip(1) =~= written);
    assert(unsigned_part(written) == written);
    assert(unsigned_part(signed) == written);
    if n > max {
        assert(written.take(written.len() as int) =~= written);
    }
}

/// What is no number is refused for its first flaw: that there is nothing, or a character that is
/// no digit where the digits before it are not too many yet.
pub proof fn lemma_unsigned_refused(n: nat, c: char, behind: Seq<char>, max: nat)
    requires
        n <= max,
        !('0' <= c && c <= '9'),
    ensures
        unsigned(Seq::empty(), max) == Err::<nat, IntError>(IntError::Empty),
        unsigned(text::decimal(n) + seq![c] + behind, max) == Err::<nat, IntError>(
            IntError::InvalidDigit,
        ),
        c != '+' ==> unsigned(seq![c] + behind, max) == Err::<nat, IntError>(
            IntError::InvalidDigit,
        ),
        unsigned(seq!['+', c] + behind, max) == Err::<nat, IntError>(IntError::InvalidDigit),
        unsigned(seq!['+'], max) == Err::<nat, IntError>(IntError::InvalidDigit),
{
    lemma_decimal_read(n);
    let written = text::decimal(n);
    let long = written + seq![c] + behind;
    assert(is_digit(written[0]) && long[0] == written[0]);
    assert(long[written.len() as int] == c);
    assert forall|k: int| 0 < k <= long.len() && all_digits(#[trigger] long.take(k)) implies digits_value(
        long.take(k),
    ) <= max by {
        if k > written.len() {
            assert(long.take(k)[written.len() as int] == c);
        } else {
            assert(long.take(k) =~= written.take(k));
            lemma_digits_value_grows(written, k);
        }
    }
    let short = seq![c] + behind;
    assert(short[0] == c);
    assert forall|k: int| 0 < k <= short.len() implies !all_digits(#[trigger] short.take(k)) by {
        assert(short.take(k)[0] == c);
    }
    let plus = seq!['+', c] + behind;
    assert(plus.skip(1) =~= short);
    assert(seq!['+'].skip(1) =~= Seq::empty());
    assert(unsigned_part(seq!['+']) =~= Seq::empty());
}

/// What an error says tells the errors apart.
pub proof fn lemma_error_messages(error: IntError)
    ensures
        error == IntError::Empty ==> error.message_spec()
            == "cannot parse integer from empty string"@,
        error == IntError::InvalidDigit ==> error.message_spec()
            == "invalid digit found in string"@,
        error == IntError::PosOverflow ==> error.message_spec()
            == "number too large to fit in target type"@,
{
}

/// Digits stand for their number in base ten, zeros before it or not.
pub proof fn lemma_digits_value(part: Seq<char>)
    requires
        all_digits(part),
    ensures
        digits_value(part) == text::value_of(part, 10),
    decreases part.len(),
{
    if part.len() > 0 {
        assert(is_digit(part[part.len() - 1]));
        assert(all_digits(part.drop_last())) by {
            assert forall|i: int| 0 <= i < part.drop_last().len() implies is_digit(
                #[trigger] part.drop_last()[i],
            ) by {
                assert(is_digit(part[i]));
            }
        }
        lemma_digits_value(part.drop_last());
    }
}

/// Digits are read as the number that they stand for, with or without a sign before them, as long
/// as it is not too large. A sign alone is no number.
pub proof fn lemma_digits_read(part: Seq<char>, max: nat)
    requires
        forall|i: int| 0 <= i < part.len() ==> '0' <= #[trigger] part[i] && part[i] <= '9',
    ensures
        ({
            let n = text::value_of(part, 10);
            &&& part.len() > 0 ==> {
                &&& signed_value(part) == Some(n)
                &&& signed_value(seq!['+'] + part) == Some(n)
                &&& signed_value(seq!['-'] + part) == Some(0 - n)
                &&& 0 <= n <= max ==> unsigned(part, max) == Ok::<nat, IntError>(n as nat)
                &&& 0 <= n <= max ==> unsigned(seq!['+'] + part, max) == Ok::<nat, IntError>(
                    n as nat,
                )
                &&& n > max ==> unsigned(part, max) == Err::<nat, IntError>(IntError::PosOverflow)
                &&& n > max ==> unsigned(seq!['+'] + part, max) == Err::<nat, IntError>(
                    IntError::PosOverflow,
                )
                &&& n >= 0
            }
            &&& part.len() == 0 ==> {
                &&& signed_value(part) is None
                &&& signed_value(seq!['+'] + part) is None
                &&& signed_value(seq!['-'] + part) is None
            }
        }),
{
    assert(all_digits(part)) by {
        assert forall|i: int| 0 <= i < part.len() implies is_digit(#[trigger] part[i]) by {}
    }
    lemma_digits_value(part);
    let plus = seq!['+'] + part;
    let minus = seq!['-'] + part;
    assert(plus.skip(1) =~= part);
    assert(minus.skip(1) =~= part);
    assert(unsigned_part(plus) == part);
    if part.len() > 0 {
        assert(is_digit(part[0]));
        assert(unsigned_part(part) == part);
        assert(part.take(part.len() as int) =~= part);
    } else {
        assert(minus[0] == '-');
        assert(unsigned_part(minus) == minus);
        assert(!is_digit(minus[0]));
    }
}

} // verus!
