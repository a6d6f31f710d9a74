//! What the text of a string, character or byte literal stands for: Rust's
//! escapes, as spec functions over code points.
use vstd::prelude::*;

verus! {

/// The value of a hexadecimal digit, or -1 for any other character.
pub open spec fn hex_digit_value(c: char) -> int {
    if '0' <= c <= '9' {
        c as int - 0x30
    } else if 'a' <= c <= 'f' {
        c as int - 0x61 + 10
    } else if 'A' <= c <= 'F' {
        c as int - 0x41 + 10
    } else {
        -1
    }
}

/// Every character of `digits` is a hexadecimal digit.
pub open spec fn is_hex_digits(digits: Seq<char>) -> bool {
    forall|i: int| 0 <= i < digits.len() ==> hex_digit_value(#[trigger] digits[i]) >= 0
}

/// The number that the hexadecimal digits `digits` spell, most significant
/// first.
pub open spec fn hex_value(digits: Seq<char>) -> int
    decreases digits.len(),
{
    if digits.len() == 0 {
        0
    } else {
        16 * hex_value(digits.drop_last()) + hex_digit_value(digits.last())
    }
}

/// `text` starts with `\u{`, and `k` is the index of the brace that closes
/// it after one to six hexadecimal digits.
pub open spec fn is_unicode_escape_end(text: Seq<char>, k: int) -> bool {
    &&& 4 <= k <= 9
    &&& k < text.len()
    &&& text[k] == '}'
    &&& is_hex_digits(text.subrange(3, k))
}

/// The escape at the start of `text`, if it starts with one: the code it
/// stands for and the number of characters it takes. `\0 \t \n \r \\ \' \"`
/// stand for the character they name; `\xHH` for the code `HH` (at most
/// `0x7F` outside byte literals); `\u{H..}`, outside byte literals only, for
/// the code its digits spell.
pub open spec fn escape_at(text: Seq<char>, bytes: bool) -> Option<(int, int)> {
    if text.len() < 2 || text[0] != '\\' {
        None
    } else {
        let e = text[1];
        if e == '0' {
            Some((0, 2))
        } else if e == 't' {
            Some((9, 2))
        } else if e == 'n' {
            Some((10, 2))
        } else if e == 'r' {
            Some((13, 2))
        } else if e == '\\' {
            Some((0x5c, 2))
        } else if e == '\'' {
            Some((0x27, 2))
        } else if e == '"' {
            Some((0x22, 2))
        } else if e == 'x' {
            if text.len() >= 4 && is_hex_digits(text.subrange(2, 4)) && (bytes || hex_value(
                text.subrange(2, 4),
            ) <= 0x7f) {
                Some((hex_value(text.subrange(2, 4)), 4))
            } else {
                None
            }
        } else if e == 'u' && !bytes && text.len() >= 3 && text[2] == '{' && exists|k: int|
            #[trigger] is_unicode_escape_end(text, k) {
            let k = choose|k: int| #[trigger] is_unicode_escape_end(text, k);
            Some((hex_value(text.subrange(3, k)), k + 1))
        } else {
            None
        }
    }
}

/// The first unit of the text between a literal's quotes, `quote` being the
/// closing quote: an escape, or a character other than the backslash and
/// `quote` that stands for itself (in byte literals, an ASCII one). Gives
/// the code and the number of characters taken.
pub open spec fn unit_at(text: Seq<char>, quote: char, bytes: bool) -> Option<(int, int)> {
    if text.len() == 0 {
        None
    } else if text[0] == '\\' {
        escape_at(text, bytes)
    } else if text[0] == quote || (bytes && text[0] as int >= 0x80) {
        None
    } else {
        Some((text[0] as int, 1))
    }
}

/// The text between a literal's quotes stands for the codes `codes`, unit
/// by unit.
pub open spec fn decodes_to(text: Seq<char>, codes: Seq<int>, quote: char, bytes: bool) -> bool
    decreases text.len(),
{
    if text.len() == 0 {
        codes.len() == 0
    } else {
        match unit_at(text, quote, bytes) {
            None => false,
            Some(unit) => 0 < unit.1 <= text.len() && codes.len() > 0 && codes[0] == unit.0
                && decodes_to(text.skip(unit.1), codes.drop_first(), quote, bytes),
        }
    }
}

/// The code points of `s`.
pub open spec fn char_codes(s: Seq<char>) -> Seq<int> {
    s.map_values(|c: char| c as int)
}

/// The values of `bytes`.
pub open spec fn byte_codes(bytes: Seq<u8>) -> Seq<int> {
    bytes.map_values(|b: u8| b as int)
}

/// A text decodes to one sequence of codes at most: reading a literal back
/// gives one value.
pub proof fn law_decoding_is_functional(
    text: Seq<char>,
    codes1: Seq<int>,
    codes2: Seq<int>,
    quote: char,
    bytes: bool,
)
    requires
        decodes_to(text, codes1, quote, bytes),
        decodes_to(text, codes2, quote, bytes),
    ensures
        codes1 == codes2,
    decreases text.len(),
{
    if text.len() == 0 {
        assert(codes1 =~= codes2);
    } else {
        let unit = unit_at(text, quote, bytes)->0;
        law_decoding_is_functional(
            text.skip(unit.1),
            codes1.drop_first(),
            codes2.drop_first(),
            quote,
            bytes,
        );
        assert(codes1 =~= seq![codes1[0]] + codes1.drop_first());
        assert(codes2 =~= seq![codes2[0]] + codes2.drop_first());
    }
}

/// Printable ASCII other than the backslash and the closing quote stands for
/// itself: such a text decodes to its own code points.
pub proof fn law_printable_text_decodes_to_itself(text: Seq<char>, quote: char, bytes: bool)
    requires
        forall|i: int|
            0 <= i < text.len() ==> ' ' <= #[trigger] text[i] <= '~' && text[i] != '\\'
                && text[i] != quote,
    ensures
        decodes_to(text, char_codes(text), quote, bytes),
    decreases text.len(),
{
    if text.len() > 0 {
        let rest = text.skip(1);
        assert forall|i: int| 0 <= i < rest.len() implies ' ' <= #[trigger] rest[i] <= '~'
            && rest[i] != '\\' && rest[i] != quote by {
            assert(rest[i] == text[i + 1]);
        }
        law_printable_text_decodes_to_itself(rest, quote, bytes);
        assert(char_codes(text).drop_first() =~= char_codes(rest));
    }
}

} // verus!
