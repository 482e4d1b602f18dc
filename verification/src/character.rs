//! What is known about the character under the cursor.
use vstd::prelude::*;

use crate::args::{Args, PromptEvent};
use crate::buffers;
use crate::editor::Editor;
use crate::plan::{Op, Plan, PlanView, StepView};
use crate::text;

verus! {

/// The bytes that a character is encoded to by the encoding of a name, as `encoding_rs` encodes
/// it at the end of a text, or else the character that is said to have no encoding. Where there is
/// no such encoding, that is the character itself.
pub uninterp spec fn encoded_char(encoding: Seq<char>, c: char) -> Result<Seq<u8>, char>;

/// An encoded character, as a mathematical value.
pub open spec fn encoded_view(encoded: Result<Vec<u8>, char>) -> Result<Seq<u8>, char> {
    match encoded {
        Ok(bytes) => Ok(bytes@),
        Err(unmappable) => Err(unmappable),
    }
}

/// A character as UTF-8 encodes it.
pub open spec fn utf8_char(c: char) -> Result<Seq<u8>, char> {
    Ok(vstd::utf8::encode_utf8(seq![c]))
}

/// Encodes a character on its own with a new encoder of the encoding that `Encoding::for_label`
/// finds, by `Encoder::encode_from_utf8_to_vec_without_replacement` into a buffer that is large
/// enough. The result is a function of the name and the character and is named
/// [`encoded_char`]. By UTF-8 a character is encoded as in a `str`.
#[verifier::external_body]
fn encode_char(encoding: &str, c: char) -> (r: Result<Vec<u8>, char>)
    ensures
        encoded_view(r) == encoded_char(encoding@, c),
        encoding@ == "UTF-8"@ ==> encoded_view(r) == utf8_char(c),
{
    let mut encoder =
        encoding_rs::Encoding::for_label(encoding.as_bytes()).ok_or(c)?.new_encoder();
    let room = encoder.max_buffer_length_from_utf8_without_replacement(c.len_utf8()).ok_or(c)?;
    let mut bytes = Vec::with_capacity(room);
    let text = c.to_string();
    match encoder.encode_from_utf8_to_vec_without_replacement(&text, &mut bytes, true).0 {
        encoding_rs::EncoderResult::InputEmpty => Ok(bytes),
        encoding_rs::EncoderResult::OutputFull => Ok(bytes),
        encoding_rs::EncoderResult::Unmappable(unmappable) => Err(unmappable),
    }
}

/// The number that Unicode gives a character.
pub open spec fn code_point(c: char) -> nat {
    c as u32 as nat
}

fn code_point_of(c: char) -> (r: u64)
    ensures
        r == code_point(c),
{
    c as u32 as u64
}

/// A character as it is shown: some control characters by their escapes.
pub open spec fn printable_char(c: char) -> Seq<char> {
    if c == '\0' {
        "\\0"@
    } else if c == '\t' {
        "\\t"@
    } else if c == '\n' {
        "\\n"@
    } else if c == '\r' {
        "\\r"@
    } else {
        seq![c]
    }
}

/// Characters as they are shown.
pub open spec fn printable(chars: Seq<char>) -> Seq<char>
    decreases chars.len(),
{
    if chars.len() == 0 {
        Seq::empty()
    } else {
        printable(chars.drop_last()) + printable_char(chars.last())
    }
}

/// The code points of characters.
pub open spec fn code_points(chars: Seq<char>) -> Seq<char> {
    " ("@ + text::joined(
        chars.map_values(|c: char| "U+"@ + text::hexadecimal(code_point(c), 4)),
        " "@,
    ) + ")"@
}

/// Bytes in hexadecimal notation, each with a space before it.
pub open spec fn hex_bytes(bytes: Seq<u8>) -> Seq<char>
    decreases bytes.len(),
{
    if bytes.len() == 0 {
        Seq::empty()
    } else {
        hex_bytes(bytes.drop_last()) + " "@ + text::hexadecimal(bytes.last() as nat, 2)
    }
}

/// The encoded characters in hexadecimal notation, or the first character that has no encoding.
pub open spec fn hex_outcome(encoded: Seq<Result<Seq<u8>, char>>) -> Result<Seq<char>, char>
    decreases encoded.len(),
{
    if encoded.len() == 0 {
        Ok(Seq::empty())
    } else {
        match (hex_outcome(encoded.drop_last()), encoded.last()) {
            (Err(unmappable), _) => Err(unmappable),
            (Ok(_), Err(unmappable)) => Err(unmappable),
            (Ok(hex), Ok(bytes)) => if encoded.len() == 1 {
                Ok(hex_bytes(bytes))
            } else {
                Ok(hex + " +"@ + hex_bytes(bytes))
            },
        }
    }
}

/// Whether the bytes below 0x80 stand for the ASCII characters in an encoding, and only for
/// them.
pub open spec fn ascii_compatible(encoding: Seq<char>) -> bool {
    encoding != "replacement"@ && encoding != "UTF-16BE"@ && encoding != "UTF-16LE"@ && encoding
        != "ISO-2022-JP"@
}

/// Whether a text is encoded by UTF-8 in one byte.
pub open spec fn is_one_byte(chars: Seq<char>) -> bool {
    chars.len() == 1 && code_point(chars[0]) <= 127
}

/// The decimal value of a character, where it is an ASCII character.
pub open spec fn decimal_note(chars: Seq<char>, encoding: Seq<char>) -> Seq<char> {
    if ascii_compatible(encoding) && is_one_byte(chars) {
        " Dec "@ + text::decimal(code_point(chars[0]))
    } else {
        Seq::empty()
    }
}

/// The code points of characters, where they are encoded by UTF-8.
pub open spec fn unicode_note(chars: Seq<char>, encoding: Seq<char>) -> Seq<char> {
    if encoding == "UTF-8"@ {
        code_points(chars)
    } else {
        Seq::empty()
    }
}

/// What is shown about a grapheme, given its encoded characters.
pub open spec fn character_plan(
    grapheme: Seq<char>,
    encoding: Seq<char>,
    encoded: Seq<Result<Seq<u8>, char>>,
) -> PlanView {
    if grapheme.len() == 0 {
        PlanView::nothing()
    } else {
        match hex_outcome(encoded) {
            Err(unmappable) => PlanView::failing(
                text::debug_char(unmappable) + " cannot be mapped to "@ + encoding,
            ),
            Ok(hex) => PlanView::status(
                "\""@ + printable(grapheme) + "\""@ + unicode_note(grapheme, encoding)
                    + decimal_note(grapheme, encoding) + " Hex"@ + hex,
            ),
        }
    }
}

fn show_printable(chars: &Vec<char>) -> (r: String)
    ensures
        r@ == printable(chars@),
{
    let mut out = String::new();
    let mut i: usize = 0;
    while i < chars.len()
        invariant
            i <= chars.len(),
            out@ == printable(chars@.take(i as int)),
        decreases chars.len() - i,
    {
        assert(chars@.take(i + 1).drop_last() =~= chars@.take(i as int));
        let c = chars[i];
        if c == '\0' {
            out.append("\\0");
        } else if c == '\t' {
            out.append("\\t");
        } else if c == '\n' {
            out.append("\\n");
        } else if c == '\r' {
            out.append("\\r");
        } else {
            out.push(c);
        }
        i = i + 1;
        assert(out@ =~= printable(chars@.take(i as int)));
    }
    assert(chars@.take(i as int) =~= chars@);
    out
}

fn show_code_points(chars: &Vec<char>) -> (r: String)
    ensures
        r@ == code_points(chars@),
{
    let mut points: Vec<String> = Vec::new();
    let mut i: usize = 0;
    while i < chars.len()
        invariant
            i <= chars.len(),
            points.len() == i,
            forall|j: int|
                0 <= j < i ==> (#[trigger] points@[j])@ == "U+"@ + text::hexadecimal(
                    code_point(chars@[j]),
                    4,
                ),
        decreases chars.len() - i,
    {
        let c = chars[i];
        let mut point = "U+".to_owned();
        point.append(text::to_digits(code_point_of(c), 16, 4).as_str());
        points.push(point);
        i = i + 1;
    }
    assert(text::views(points@) =~= chars@.map_values(
        |c: char| "U+"@ + text::hexadecimal(code_point(c), 4),
    ));
    let mut out = " (".to_owned();
    out.append(text::join(&points, " ").as_str());
    out.append(")");
    out
}

fn show_hex_bytes(bytes: &Vec<u8>) -> (r: String)
    ensures
        r@ == hex_bytes(bytes@),
{
    let mut out = String::new();
    let mut i: usize = 0;
    while i < bytes.len()
        invariant
            i <= bytes.len(),
            out@ == hex_bytes(bytes@.take(i as int)),
        decreases bytes.len() - i,
    {
        assert(bytes@.take(i + 1).drop_last() =~= bytes@.take(i as int));
        out.append(" ");
        out.append(text::to_digits(bytes[i] as u64, 16, 2).as_str());
        i = i + 1;
        assert(out@ =~= hex_bytes(bytes@.take(i as int)));
    }
    assert(bytes@.take(i as int) =~= bytes@);
    out
}

/// The views of encoded characters.
pub open spec fn encoded_views(encoded: Seq<Result<Vec<u8>, char>>) -> Seq<
    Result<Seq<u8>, char>,
> {
    encoded.map_values(|e: Result<Vec<u8>, char>| encoded_view(e))
}

/// Once a character cannot be encoded, those behind it do not matter.
proof fn lemma_first_failure(encoded: Seq<Result<Seq<u8>, char>>, n: int)
    requires
        0 <= n <= encoded.len(),
        hex_outcome(encoded.take(n)) is Err,
    ensures
        hex_outcome(encoded) == hex_outcome(encoded.take(n)),
    decreases encoded.len() - n,
{
    if n < encoded.len() {
        assert(encoded.take(n + 1).drop_last() =~= encoded.take(n));
        lemma_first_failure(encoded, n + 1);
    } else {
        assert(encoded.take(n) =~= encoded);
    }
}

fn show_hex(encoded: &Vec<Result<Vec<u8>, char>>) -> (r: Result<String, char>)
    ensures
        match r {
            Ok(hex) => hex_outcome(encoded_views(encoded@)) == Ok::<Seq<char>, char>(hex@),
            Err(unmappable) => hex_outcome(encoded_views(encoded@)) == Err::<Seq<char>, char>(
                unmappable,
            ),
        },
{
    let ghost views = encoded_views(encoded@);
    let mut out = String::new();
    let mut i: usize = 0;
    while i < encoded.len()
        invariant
            views == encoded_views(encoded@),
            i <= encoded.len(),
            hex_outcome(views.take(i as int)) == Ok::<Seq<char>, char>(out@),
        decreases encoded.len() - i,
    {
        assert(views.take(i + 1).drop_last() =~= views.take(i as int));
        match &encoded[i] {
            Err(unmappable) => {
                proof {
                    lemma_first_failure(views, i + 1);
                }
                return Err(*unmappable);
            },
            Ok(bytes) => {
                if i != 0 {
                    out.append(" +");
                }
                out.append(show_hex_bytes(bytes).as_str());
                assert(i == 0 ==> out@ =~= hex_bytes(bytes@));
            },
        }
        i = i + 1;
    }
    assert(views.take(i as int) =~= views);
    Ok(out)
}

fn is_ascii_compatible(encoding: &str) -> (r: bool)
    ensures
        r == ascii_compatible(encoding@),
{
    !(text::same(encoding, "replacement") || text::same(encoding, "UTF-16BE") || text::same(
        encoding,
        "UTF-16LE",
    ) || text::same(encoding, "ISO-2022-JP"))
}

/// Shows what is known about a grapheme, given its encoded characters.
pub fn character_status(
    grapheme: &str,
    encoding: &str,
    encoded: &Vec<Result<Vec<u8>, char>>,
) -> (r: Plan)
    ensures
        r@ == character_plan(grapheme@, encoding@, encoded_views(encoded@)),
{
    let chars = text::chars_of(grapheme);
    if chars.len() == 0 {
        return Plan::nothing();
    }
    match show_hex(encoded) {
        Err(unmappable) => {
            let mut message = text::to_debug_char(unmappable);
            message.append(" cannot be mapped to ");
            message.append(encoding);
            Plan::failing(message.as_str())
        },
        Ok(hex) => {
            let mut message = "\"".to_owned();
            message.append(show_printable(&chars).as_str());
            message.append("\"");
            let ghost before = message@;
            // The code points, if the text is encoded by UTF-8.
            if text::same(encoding, "UTF-8") {
                message.append(show_code_points(&chars).as_str());
            }
            assert(message@ =~= before + unicode_note(grapheme@, encoding@));
            let ghost before = message@;
            // The decimal value, for ASCII characters.
            let c = chars[0];
            if is_ascii_compatible(encoding) && chars.len() == 1 && code_point_of(c) <= 127 {
                message.append(" Dec ");
                message.append(text::to_digits(code_point_of(c), 10, 0).as_str());
            }
            assert(message@ =~= before + decimal_note(grapheme@, encoding@));
            message.append(" Hex");
            message.append(hex.as_str());
            Plan::status(message.as_str())
        },
    }
}

/// What a character is encoded to.
pub open spec fn char_bytes(encoding: Seq<char>, c: char) -> Result<Seq<u8>, char> {
    if encoding == "UTF-8"@ {
        utf8_char(c)
    } else {
        encoded_char(encoding, c)
    }
}

/// What each character of a grapheme is encoded to.
pub open spec fn encoded_grapheme(grapheme: Seq<char>, encoding: Seq<char>) -> Seq<
    Result<Seq<u8>, char>,
> {
    grapheme.map_values(|c: char| char_bytes(encoding, c))
}

/// Goes on with `get_character_info` when the grapheme under the primary cursor is known, which
/// is empty at the end of the text.
pub fn character_info(editor: &Editor, grapheme: &str) -> (r: Plan)
    requires
        editor.wf(),
    ensures
        r@ == character_plan(
            grapheme@,
            editor.doc_spec().encoding@,
            encoded_grapheme(grapheme@, editor.doc_spec().encoding@),
        ),
{
    let encoding = editor.doc().encoding.as_str();
    let chars = text::chars_of(grapheme);
    let mut encoded: Vec<Result<Vec<u8>, char>> = Vec::new();
    let mut i: usize = 0;
    while i < chars.len()
        invariant
            i <= chars.len(),
            encoded.len() == i,
            forall|j: int|
                0 <= j < i ==> encoded_view(#[trigger] encoded@[j]) == char_bytes(
                    encoding@,
                    chars@[j],
                ),
        decreases chars.len() - i,
    {
        encoded.push(encode_char(encoding, chars[i]));
        i = i + 1;
    }
    assert(encoded_views(encoded@) =~= encoded_grapheme(grapheme@, encoding@));
    character_status(grapheme, encoding, &encoded)
}

/// By UTF-8 every grapheme can be encoded, so that there is no error.
pub proof fn lemma_utf8_encodes_all(grapheme: Seq<char>)
    ensures
        hex_outcome(encoded_grapheme(grapheme, "UTF-8"@)) is Ok,
        character_plan(grapheme, "UTF-8"@, encoded_grapheme(grapheme, "UTF-8"@)).error is None,
    decreases grapheme.len(),
{
    let encoded = encoded_grapheme(grapheme, "UTF-8"@);
    if grapheme.len() > 0 {
        lemma_utf8_encodes_all(grapheme.drop_last());
        assert(encoded.drop_last() =~= encoded_grapheme(grapheme.drop_last(), "UTF-8"@));
    }
}

/// What `character-info` does.
pub open spec fn get_character_info_plan(event: PromptEvent) -> PlanView {
    buffers::on_validate(event, PlanView::doing(Op::InspectCharacter))
}

/// Shows what is known about the character under the primary cursor.
pub fn get_character_info(_editor: &Editor, _args: Args, event: PromptEvent) -> (r: Plan)
    ensures
        r@ == get_character_info_plan(event),
{
    if event != PromptEvent::Validate {
        return Plan::nothing();
    }
    Plan::doing(Op::InspectCharacter)
}

/// Characters are shown as they are, but for the four that have an escape, and one after the
/// other.
pub proof fn lemma_printable(a: Seq<char>, b: Seq<char>, c: char)
    ensures
        printable(a + b) == printable(a) + printable(b),
        c as int == 0 ==> printable(seq![c]) == seq!['\\', '0'],
        c as int == 9 ==> printable(seq![c]) == seq!['\\', 't'],
        c as int == 10 ==> printable(seq![c]) == seq!['\\', 'n'],
        c as int == 13 ==> printable(seq![c]) == seq!['\\', 'r'],
        c as int != 0 && c as int != 9 && c as int != 10 && c as int != 13 ==> printable(seq![c])
            == seq![c],
    decreases b.len(),
{
    reveal_strlit("\\0");
    reveal_strlit("\\t");
    reveal_strlit("\\n");
    reveal_strlit("\\r");
    assert("\\0"@ =~= seq!['\\', '0']);
    assert("\\t"@ =~= seq!['\\', 't']);
    assert("\\n"@ =~= seq!['\\', 'n']);
    assert("\\r"@ =~= seq!['\\', 'r']);
    assert(seq![c].drop_last() =~= Seq::empty());
    assert(printable(seq![c].drop_last()) =~= Seq::empty());
    assert(printable(seq![c]) =~= printable_char(c));
    if b.len() == 0 {
        assert(a + b =~= a);
        assert(printable(a) + printable(b) =~= printable(a));
    } else {
        lemma_printable(a, b.drop_last(), c);
        assert((a + b).drop_last() =~= a + b.drop_last());
        assert(printable(a + b) =~= printable(a) + printable(b));
    }
}

/// Code points are shown in parentheses, each in hexadecimal notation of at least four digits, with
/// a space between two of them.
pub proof fn lemma_code_points(chars: Seq<char>, c: char)
    ensures
        code_points(seq![c]) == seq![' ', '(', 'U', '+'] + text::hexadecimal(c as nat, 4) + seq![
            ')',
        ],
        chars.len() > 0 ==> code_points(chars.push(c)) == code_points(chars).drop_last() + seq![
            ' ',
            'U',
            '+',
        ] + text::hexadecimal(c as nat, 4) + seq![')'],
{
    reveal_strlit(" (");
    reveal_strlit(")");
    reveal_strlit(" ");
    reveal_strlit("U+");
    let show = |c: char| "U+"@ + text::hexadecimal(code_point(c), 4);
    assert(seq![c].map_values(show) =~= seq![show(c)]);
    assert(code_point(c) == c as nat);
    text::lemma_joined(seq![show(c)], Seq::empty(), " "@);
    assert(code_points(seq![c]) =~= seq![' ', '(', 'U', '+'] + text::hexadecimal(c as nat, 4)
        + seq![')']);
    if chars.len() > 0 {
        let shown = chars.map_values(show);
        assert(chars.push(c).map_values(show) =~= shown + seq![show(c)]);
        text::lemma_joined(shown, seq![show(c)], " "@);
        assert(code_points(chars.push(c)) =~= code_points(chars).drop_last() + seq![' ', 'U', '+']
            + text::hexadecimal(c as nat, 4) + seq![')']);
    }
}

/// Bytes are shown one after the other, each behind a space in two hexadecimal digits.
pub proof fn lemma_hex_bytes(a: Seq<u8>, b: Seq<u8>, byte: u8)
    ensures
        hex_bytes(Seq::empty()).len() == 0,
        hex_bytes(seq![byte]) == seq![' '] + text::hexadecimal(byte as nat, 2),
        hex_bytes(a + b) == hex_bytes(a) + hex_bytes(b),
    decreases b.len(),
{
    reveal_strlit(" ");
    assert(" "@ =~= seq![' ']);
    assert(seq![byte].drop_last() =~= Seq::empty());
    assert(hex_bytes(seq![byte].drop_last()) =~= Seq::empty());
    assert(hex_bytes(seq![byte]) =~= seq![' '] + text::hexadecimal(byte as nat, 2));
    if b.len() == 0 {
        assert(a + b =~= a);
        assert(hex_bytes(a) + hex_bytes(b) =~= hex_bytes(a));
    } else {
        lemma_hex_bytes(a, b.drop_last(), byte);
        assert((a + b).drop_last() =~= a + b.drop_last());
        assert(hex_bytes(a + b) =~= hex_bytes(a) + hex_bytes(b));
    }
}

/// The bytes of the characters of a grapheme are shown with a plus sign between two characters. If
/// a character has none, the first such character is the outcome.
pub proof fn lemma_hex_outcome(encoded: Seq<Result<Seq<u8>, char>>, failing: int)
    ensures
        (forall|i: int| 0 <= i < encoded.len() ==> #[trigger] encoded[i] is Ok) ==> hex_outcome(
            encoded,
        ) == Ok::<Seq<char>, char>(
            text::joined(
                Seq::new(encoded.len(), |i: int| hex_bytes(encoded[i]->Ok_0)),
                seq![' ', '+'],
            ),
        ),
        0 <= failing < encoded.len() && encoded[failing] is Err && (forall|i: int|
            0 <= i < failing ==> #[trigger] encoded[i] is Ok) ==> hex_outcome(encoded) == Err::<
            Seq<char>,
            char,
        >(encoded[failing]->Err_0),
    decreases encoded.len(),
{
    reveal_strlit(" +");
    assert(" +"@ =~= seq![' ', '+']);
    if encoded.len() > 0 {
        let first = encoded.drop_last();
        lemma_hex_outcome(first, failing);
        let all = Seq::new(encoded.len(), |i: int| hex_bytes(encoded[i]->Ok_0));
        let fewer = Seq::new(first.len(), |i: int| hex_bytes(first[i]->Ok_0));
        assert(all.drop_last() =~= fewer);
        if forall|i: int| 0 <= i < encoded.len() ==> #[trigger] encoded[i] is Ok {
            assert forall|i: int| 0 <= i < first.len() implies #[trigger] first[i] is Ok by {
                assert(encoded[i] is Ok);
            }
            assert(encoded[encoded.len() - 1] is Ok);
        }
        if 0 <= failing < encoded.len() && encoded[failing] is Err && (forall|i: int|
            0 <= i < failing ==> #[trigger] encoded[i] is Ok) {
            assert forall|i: int| 0 <= i < failing implies #[trigger] first[i] is Ok by {
                assert(encoded[i] is Ok);
            }
        }
    }
}

/// What is said of a grapheme: the grapheme in quotation marks, its code points where the document
/// is in UTF-8, its number where it is one byte in ASCII and the encoding agrees with that, and its
/// bytes. A character without bytes is an error, and without a grapheme nothing is said.
pub proof fn lemma_character(
    grapheme: Seq<char>,
    encoding: Seq<char>,
    encoded: Seq<Result<Seq<u8>, char>>,
    unmappable: char,
    hex: Seq<char>,
)
    ensures
        ({
            let plan = character_plan(grapheme, encoding, encoded);
            let same = encoding != "replacement"@ && encoding != "UTF-16BE"@ && encoding
                != "UTF-16LE"@ && encoding != "ISO-2022-JP"@;
            let quoted = seq!['"'] + printable(grapheme) + seq!['"'];
            let points = if encoding == "UTF-8"@ {
                quoted + code_points(grapheme)
            } else {
                quoted
            };
            let number = if same && grapheme.len() == 1 && grapheme[0] as u32 <= 127 {
                points + " Dec "@ + text::decimal(grapheme[0] as u32 as nat)
            } else {
                points
            };
            &&& grapheme.len() == 0 ==> plan == (PlanView {
                steps: Seq::empty(),
                error: None,
            })
            &&& grapheme.len() > 0 && hex_outcome(encoded) == Err::<Seq<char>, char>(unmappable)
                ==> plan == (PlanView {
                steps: Seq::empty(),
                error: Some(
                    text::debug_char(unmappable) + " cannot be mapped to "@ + encoding,
                ),
            })
            &&& grapheme.len() > 0 && hex_outcome(encoded) == Ok::<Seq<char>, char>(hex) ==> plan
                == (PlanView {
                steps: seq![StepView::SetStatus(number + " Hex"@ + hex)],
                error: None,
            })
        }),
{
    reveal_strlit("\"");
    assert("\""@ =~= seq!['"']);
    let quoted = "\""@ + printable(grapheme) + "\""@;
    let points = quoted + unicode_note(grapheme, encoding);
    assert(quoted + Seq::<char>::empty() =~= quoted);
    assert(points + Seq::<char>::empty() =~= points);
    if ascii_compatible(encoding) && is_one_byte(grapheme) {
        let decimal = text::decimal(code_point(grapheme[0]));
        assert(points + (" Dec "@ + decimal) =~= points + " Dec "@ + decimal);
    }
}

/// Which bytes stand for a character: those of UTF-8 where the document is in UTF-8, and otherwise
/// what the encoding makes of it; each character of a grapheme for itself.
pub proof fn lemma_character_bytes(grapheme: Seq<char>, encoding: Seq<char>, i: int)
    requires
        0 <= i < grapheme.len(),
    ensures
        encoded_grapheme(grapheme, encoding).len() == grapheme.len(),
        encoding == "UTF-8"@ ==> encoded_grapheme(grapheme, encoding)[i] == Ok::<Seq<u8>, char>(
            vstd::utf8::encode_utf8(seq![grapheme[i]]),
        ),
        encoding != "UTF-8"@ ==> encoded_grapheme(grapheme, encoding)[i] == encoded_char(
            encoding,
            grapheme[i],
        ),
{
}

} // verus!
