//! Positional argument variables, `%{arg}` and `%{arg:INT}`, in the text of a command.
use vstd::prelude::*;
use vstd::string::*;

verus! {

/// Whether the bytes begin with `%{`.
pub open spec fn opens(bytes: Seq<u8>) -> bool {
    bytes.len() >= 2 && bytes[0] == '%' as u8 && bytes[1] == '{' as u8
}

/// Whether the bytes begin with `arg` and then `next`.
pub open spec fn names_arg(bytes: Seq<u8>, next: u8) -> bool {
    bytes.len() >= 4 && bytes[0] == 'a' as u8 && bytes[1] == 'r' as u8 && bytes[2] == 'g' as u8 && bytes[3]
        == next
}

/// Whether a byte is a decimal digit.
pub open spec fn digit_byte(byte: u8) -> bool {
    '0' as u8 <= byte && byte <= '9' as u8
}

/// Whether the bytes begin with `k` digits and then `}`.
pub open spec fn index_of_length(bytes: Seq<u8>, k: int) -> bool {
    &&& 0 < k < bytes.len()
    &&& bytes[k] == '}' as u8
    &&& forall|j: int| 0 <= j < k ==> digit_byte(#[trigger] bytes[j])
}

/// Whether the bytes begin with at least one digit and then `}`.
pub open spec fn closes_index(bytes: Seq<u8>) -> bool {
    exists|k: int| index_of_length(bytes, k)
}

/// Whether the bytes begin with `%{arg}` or `%{arg:INT}`.
pub open spec fn is_variable(bytes: Seq<u8>) -> bool {
    &&& opens(bytes)
    &&& {
        ||| names_arg(bytes.skip(2), '}' as u8)
        ||| names_arg(bytes.skip(2), ':' as u8) && closes_index(bytes.skip(6))
    }
}

/// Whether a variable begins somewhere in the bytes.
pub open spec fn holds_variable(bytes: Seq<u8>) -> bool {
    exists|i: int| 0 <= i < bytes.len() && is_variable(#[trigger] bytes.skip(i))
}

/// Reads on behind `%{arg:`: whether digits and the closing bracket follow.
fn reads_index(bytes: &[u8], from: usize) -> (r: bool)
    requires
        from <= bytes@.len(),
    ensures
        r == closes_index(bytes@.skip(from as int)),
{
    let ghost rest = bytes@.skip(from as int);
    let mut i: usize = from;
    while i < bytes.len()
        invariant
            from <= i <= bytes@.len(),
            rest == bytes@.skip(from as int),
            forall|j: int| 0 <= j < i - from ==> digit_byte(#[trigger] rest[j]),
        decreases bytes@.len() - i,
    {
        let byte = bytes[i];
        assert(rest[i - from] == byte);
        if byte == '}' as u8 && i > from {
            assert(index_of_length(rest, i - from));
            return true;
        }
        if byte < '0' as u8 || byte > '9' as u8 {
            assert forall|k: int| !index_of_length(rest, k) by {
                if index_of_length(rest, k) {
                    if k < i - from {
                        assert(digit_byte(rest[k]));
                    } else if k > i - from {
                        assert(digit_byte(rest[i - from]));
                    }
                }
            }
            return false;
        }
        i = i + 1;
    }
    assert forall|k: int| !index_of_length(rest, k) by {
        if index_of_length(rest, k) {
            assert(digit_byte(rest[k]));
        }
    }
    false
}

/// Whether a variable begins at a place.
fn begins_variable(bytes: &[u8], at: usize) -> (r: bool)
    requires
        at < bytes@.len(),
    ensures
        r == is_variable(bytes@.skip(at as int)),
{
    let ghost rest = bytes@.skip(at as int);
    let left = bytes.len() - at;
    if left < 6 || bytes[at] != '%' as u8 || bytes[at + 1] != '{' as u8 {
        return false;
    }
    assert(rest.skip(2) =~= bytes@.skip(at + 2));
    if bytes[at + 2] != 'a' as u8 || bytes[at + 3] != 'r' as u8 || bytes[at + 4] != 'g' as u8 {
        return false;
    }
    if bytes[at + 5] == '}' as u8 {
        return true;
    }
    assert(rest.skip(6) =~= bytes@.skip(at + 6));
    bytes[at + 5] == ':' as u8 && reads_index(bytes, at + 6)
}

/// Whether a command contains a positional argument variable.
pub fn contains_arg_variable(command: &str) -> (r: bool)
    ensures
        r == holds_variable(command.spec_bytes()),
{
    let bytes = command.as_bytes();
    let mut idx: usize = 0;
    while idx < bytes.len()
        invariant
            bytes@ == command.spec_bytes(),
            forall|i: int| 0 <= i < idx ==> !is_variable(#[trigger] bytes@.skip(i)),
        decreases bytes@.len() - idx,
    {
        if begins_variable(bytes, idx) {
            return true;
        }
        idx = idx + 1;
    }
    false
}

/// A command in which no `%{` occurs contains no variable.
pub proof fn lemma_no_opening_no_variable(bytes: Seq<u8>)
    requires
        forall|j: int| 0 <= j < bytes.len() ==> !opens(#[trigger] bytes.skip(j)),
    ensures
        !holds_variable(bytes),
{
}

/// A command that contains a variable contains it whatever is put before or behind it.
pub proof fn lemma_variable_in_longer(before: Seq<u8>, bytes: Seq<u8>, behind: Seq<u8>)
    requires
        holds_variable(bytes),
    ensures
        holds_variable(before + bytes + behind),
{
    let i = choose|i: int| 0 <= i < bytes.len() && is_variable(#[trigger] bytes.skip(i));
    let part = bytes.skip(i);
    let whole = before + bytes + behind;
    let longer = whole.skip(before.len() + i);
    assert(longer =~= part + behind);
    if !names_arg(part.skip(2), '}' as u8) {
        let k = choose|k: int| index_of_length(part.skip(6), k);
        assert forall|j: int| 0 <= j < k implies digit_byte(#[trigger] longer.skip(6)[j]) by {
            assert(digit_byte(part.skip(6)[j]));
        }
        assert(index_of_length(longer.skip(6), k));
    }
    assert(is_variable(longer));
}

/// A variable is found wherever it is written: without an index, and with one of any number of
/// digits.
pub proof fn lemma_written_variable(before: Seq<u8>, index: Seq<u8>, behind: Seq<u8>)
    ensures
        holds_variable(before + seq![37u8, 123, 97, 114, 103, 125] + behind),
        index.len() > 0 && (forall|i: int|
            0 <= i < index.len() ==> 48 <= #[trigger] index[i] <= 57) ==> holds_variable(
            before + (seq![37u8, 123, 97, 114, 103, 58] + index + seq![125u8]) + behind,
        ),
{
    let plain = seq![37u8, 123, 97, 114, 103, 125];
    assert(is_variable(plain)) by {
        assert(plain.skip(2) =~= seq![97u8, 114, 103, 125]);
    }
    assert(plain.skip(0) =~= plain);
    assert(holds_variable(plain));
    lemma_variable_in_longer(before, plain, behind);
    if index.len() > 0 && (forall|i: int|
        0 <= i < index.len() ==> 48 <= #[trigger] index[i] <= 57) {
        let indexed = seq![37u8, 123, 97, 114, 103, 58] + index + seq![125u8];
        assert(indexed.skip(6) =~= index + seq![125u8]);
        assert(index_of_length(indexed.skip(6), index.len() as int));
        assert(indexed.skip(0) =~= indexed);
        assert(is_variable(indexed.skip(0)));
        assert(holds_variable(indexed));
        lemma_variable_in_longer(before, indexed, behind);
    }
}

/// Whether a variable stands at some place, byte by byte: `n` digits behind a colon, or no colon if
/// there are none.
pub open spec fn stands_at(bytes: Seq<u8>, i: int, n: int) -> bool {
    &&& 0 <= i
    &&& 0 <= n
    &&& i + 6 + n < bytes.len() || (n == 0 && i + 6 == bytes.len())
    &&& bytes[i] == 37 && bytes[i + 1] == 123
    &&& bytes[i + 2] == 97 && bytes[i + 3] == 114 && bytes[i + 4] == 103
    &&& n == 0 ==> bytes[i + 5] == 125
    &&& n > 0 ==> bytes[i + 5] == 58 && bytes[i + 6 + n] == 125
    &&& forall|k: int| i + 6 <= k < i + 6 + n ==> 48 <= #[trigger] bytes[k] <= 57
}

/// Nothing else is taken for a variable: where one is found, one is written.
pub proof fn lemma_found_variable(bytes: Seq<u8>)
    requires
        holds_variable(bytes),
    ensures
        exists|i: int, n: int| stands_at(bytes, i, n),
{
    let i = choose|i: int| 0 <= i < bytes.len() && is_variable(#[trigger] bytes.skip(i));
    let tail = bytes.skip(i);
    if names_arg(tail.skip(2), '}' as u8) {
        assert(tail.skip(2)[0] == bytes[i + 2]);
        assert(tail.skip(2)[1] == bytes[i + 3]);
        assert(tail.skip(2)[2] == bytes[i + 4]);
        assert(tail.skip(2)[3] == bytes[i + 5]);
        assert(stands_at(bytes, i, 0));
    } else {
        let digits = tail.skip(6);
        let n = choose|n: int| index_of_length(digits, n);
        assert(tail.skip(2)[0] == bytes[i + 2]);
        assert(tail.skip(2)[1] == bytes[i + 3]);
        assert(tail.skip(2)[2] == bytes[i + 4]);
        assert(tail.skip(2)[3] == bytes[i + 5]);
        assert(digits[n] == bytes[i + 6 + n]);
        assert forall|k: int| i + 6 <= k < i + 6 + n implies 48 <= #[trigger] bytes[k] <= 57 by {
            assert(digit_byte(digits[k - i - 6]));
        }
        assert(stands_at(bytes, i, n));
    }
}

} // verus!
