use crate::models::label_config::SerializableColor;
use crate::render::text_renderer::chars_of;
use crate::utils::text::{decimal, decimal_string};
use vstd::prelude::*;
use vstd::string::StringExecFns;

verus! {

/// The value of a hexadecimal digit, in either case.
pub open spec fn hex_value(c: char) -> Option<u8> {
    let u = c as u32;
    if 0x30 <= u <= 0x39 {
        Some((u - 0x30) as u8)
    } else if 0x61 <= u <= 0x66 {
        Some((u - 0x61 + 10) as u8)
    } else if 0x41 <= u <= 0x46 {
        Some((u - 0x41 + 10) as u8)
    } else {
        None
    }
}

/// The byte that two characters spell in hexadecimal: two digits, or a
/// plus sign and one digit.
pub open spec fn hex_byte(high: char, low: char) -> Option<u8> {
    if high == '+' {
        hex_value(low)
    } else if hex_value(high) is Some && hex_value(low) is Some {
        Some((hex_value(high)->0 * 16 + hex_value(low)->0) as u8)
    } else {
        None
    }
}

/// How many number signs a text begins with.
pub open spec fn leading_hashes(s: Seq<char>) -> nat
    decreases s.len(),
{
    if s.len() > 0 && s[0] == '#' {
        1 + leading_hashes(s.drop_first())
    } else {
        0
    }
}

/// The colour that a text spells: after any number signs in front, six
/// characters, two for each of red, green and blue. The colour is opaque.
pub open spec fn spec_from_hex(s: Seq<char>) -> Option<SerializableColor> {
    let digits = s.skip(leading_hashes(s) as int);
    if digits.len() == 6 && hex_byte(digits[0], digits[1]) is Some && hex_byte(
        digits[2],
        digits[3],
    ) is Some && hex_byte(digits[4], digits[5]) is Some {
        Some(
            SerializableColor {
                r: hex_byte(digits[0], digits[1])->0,
                g: hex_byte(digits[2], digits[3])->0,
                b: hex_byte(digits[4], digits[5])->0,
                a: 255,
            },
        )
    } else {
        None
    }
}

/// Whether a character is a decimal digit.
pub open spec fn is_digit(c: char) -> bool {
    0x30 <= c as u32 <= 0x39
}

/// The number that a text of decimal digits spells.
pub open spec fn decimal_value(s: Seq<char>) -> nat
    decreases s.len(),
{
    if s.len() == 0 {
        0
    } else {
        decimal_value(s.drop_last()) * 10 + (s.last() as u32 - 0x30) as nat
    }
}

/// Whether every character is a decimal digit.
pub open spec fn all_digits(s: Seq<char>) -> bool {
    forall|i: int| 0 <= i < s.len() ==> is_digit(#[trigger] s[i])
}

/// The byte that a text spells in decimal: one digit at least, with a
/// plus sign in front or without, and no more than 255.
pub open spec fn spec_parse_u8(s: Seq<char>) -> Option<u8> {
    let digits = if s.len() > 0 && s[0] == '+' {
        s.skip(1)
    } else {
        s
    };
    if digits.len() > 0 && all_digits(digits) && decimal_value(digits) <= 255 {
        Some(decimal_value(digits) as u8)
    } else {
        None
    }
}

/// What is said of a number outside its range.
pub open spec fn range_message(min: u8, max: u8) -> Seq<char> {
    "value not in range "@ + decimal(min as nat) + "-"@ + decimal(max as nat)
}

/// Why a setting typed as text was turned down.
#[derive(Debug, Clone, Copy, PartialEq, Eq, Structural)]
pub enum ParseFailure {
    /// The text is empty.
    Empty,
    /// The text does not spell a number of the kind asked for.
    NotANumber,
    /// The number lies outside the range allowed.
    OutOfRange,
}

fn hex_digit(c: char) -> (value: Option<u8>)
    ensures
        value == hex_value(c),
{
    let u: u32 = c as u32;
    if 0x30 <= u && u <= 0x39 {
        Some((u - 0x30) as u8)
    } else if 0x61 <= u && u <= 0x66 {
        Some((u - 0x61 + 10) as u8)
    } else if 0x41 <= u && u <= 0x46 {
        Some((u - 0x41 + 10) as u8)
    } else {
        None
    }
}

fn hex_pair(high: char, low: char) -> (value: Option<u8>)
    ensures
        value == hex_byte(high, low),
{
    let second = hex_digit(low);
    if high == '+' {
        return second;
    }
    match (hex_digit(high), second) {
        (Some(h), Some(l)) => Some(h * 16 + l),
        _ => None,
    }
}

/// Skipping `k` number signs and then the number signs that follow skips
/// all the number signs in front.
proof fn lemma_leading_hashes(s: Seq<char>, k: int)
    requires
        0 <= k <= s.len(),
        forall|i: int| 0 <= i < k ==> s[i] == '#',
    ensures
        leading_hashes(s) == k + leading_hashes(s.skip(k)),
    decreases k,
{
    if k > 0 {
        assert(s.drop_first().skip(k - 1) =~= s.skip(k));
        lemma_leading_hashes(s.drop_first(), k - 1);
    } else {
        assert(s.skip(0) =~= s);
    }
}

/// Reads a colour written as `#rrggbb`.
pub fn parse_hex_color(hex: &str) -> (color: Option<SerializableColor>)
    ensures
        color == spec_from_hex(hex@),
{
    let chars = chars_of(hex);
    let mut start: usize = 0;
    while start < chars.len() && chars[start] == '#'
        invariant
            start <= chars@.len(),
            forall|i: int| 0 <= i < start ==> chars@[i] == '#',
        decreases chars@.len() - start,
    {
        start += 1;
    }
    proof {
        lemma_leading_hashes(chars@, start as int);
        assert(leading_hashes(chars@.skip(start as int)) == 0);
    }
    let ghost digits = chars@.skip(start as int);
    if chars.len() - start != 6 {
        return None;
    }
    let red = hex_pair(chars[start], chars[start + 1]);
    let green = hex_pair(chars[start + 2], chars[start + 3]);
    let blue = hex_pair(chars[start + 4], chars[start + 5]);
    match (red, green, blue) {
        (Some(r), Some(g), Some(b)) => Some(SerializableColor { r, g, b, a: 255 }),
        _ => None,
    }
}

/// Reads a byte written in decimal and checks it against a range, both
/// ends of which are allowed.
pub fn parse_u8_range(s: &str, min: u8, max: u8) -> (value: Result<u8, ParseFailure>)
    ensures
        value is Ok <==> spec_parse_u8(s@) is Some && min <= spec_parse_u8(s@)->0 <= max,
        value is Ok ==> value->Ok_0 == spec_parse_u8(s@)->0,
        value == Err::<u8, ParseFailure>(ParseFailure::Empty) <==> s@.len() == 0,
        value == Err::<u8, ParseFailure>(ParseFailure::OutOfRange) <==> spec_parse_u8(s@) is Some
            && !(min <= spec_parse_u8(s@)->0 <= max),
{
    let chars = chars_of(s);
    if chars.len() == 0 {
        return Err(ParseFailure::Empty);
    }
    let start: usize = if chars[0] == '+' {
        1
    } else {
        0
    };
    let ghost digits = chars@.skip(start as int);
    if chars.len() == start {
        return Err(ParseFailure::NotANumber);
    }
    let mut total: u32 = 0;
    let mut i: usize = start;
    while i < chars.len()
        invariant
            chars@ == s@,
            chars@.len() > start,
            start == (if chars@[0] == '+' {
                1int
            } else {
                0int
            }),
            start <= i <= chars@.len(),
            digits == chars@.skip(start as int),
            all_digits(digits.take(i - start)),
            total <= 256,
            total == (if decimal_value(digits.take(i - start)) <= 255 {
                decimal_value(digits.take(i - start))
            } else {
                256
            }),
        decreases chars@.len() - i,
    {
        let c = chars[i];
        let u: u32 = c as u32;
        let ghost before = digits.take(i - start);
        let ghost after = digits.take(i - start + 1);
        proof {
            assert(after.drop_last() =~= before);
            assert(after.last() == c);
        }
        if !(0x30 <= u && u <= 0x39) {
            proof {
                assert(digits[i - start] == c);
                assert(!is_digit(digits[i - start]));
                assert(chars@.skip(0) =~= chars@);
            }
            return Err(ParseFailure::NotANumber);
        }
        proof {
            assert forall|j: int| 0 <= j < after.len() implies is_digit(#[trigger] after[j]) by {
                if j < before.len() {
                    assert(after[j] == before[j]);
                }
            }
        }
        total = total * 10 + (u - 0x30);
        if total > 255 {
            total = 256;
        }
        i += 1;
    }
    proof {
        assert(digits.take(digits.len() as int) =~= digits);
        assert(chars@.skip(0) =~= chars@);
    }
    if total > 255 {
        return Err(ParseFailure::NotANumber);
    }
    let value = total as u8;
    if min <= value && value <= max {
        Ok(value)
    } else {
        Err(ParseFailure::OutOfRange)
    }
}

/// Takes a text that must not be empty.
pub fn parse_non_empty_string(s: &str) -> (value: Result<String, ParseFailure>)
    ensures
        value is Ok <==> s@.len() > 0,
        value is Ok ==> value->Ok_0@ == s@,
        value is Err ==> value->Err_0 == ParseFailure::Empty,
{
    if s.is_empty() {
        Err(ParseFailure::Empty)
    } else {
        Ok(String::from_str(s))
    }
}

/// The words for a failure to read a byte within a range.
pub fn failure_message(failure: ParseFailure, min: u8, max: u8) -> (message: String)
    ensures
        failure == ParseFailure::Empty ==> message@ == "value cannot be empty"@,
        failure == ParseFailure::NotANumber ==> message@ == "value is not a number"@,
        failure == ParseFailure::OutOfRange ==> message@ == range_message(min, max),
{
    match failure {
        ParseFailure::Empty => String::from_str("value cannot be empty"),
        ParseFailure::NotANumber => String::from_str("value is not a number"),
        ParseFailure::OutOfRange => {
            let mut message = String::from_str("value not in range ");
            message.append(decimal_string(min as u32).as_str());
            message.append("-");
            message.append(decimal_string(max as u32).as_str());
            message
        },
    }
}

/// The lower-case character of a hexadecimal digit.
pub open spec fn hex_char(digit: int) -> char {
    if digit == 10 {
        'a'
    } else if digit == 11 {
        'b'
    } else if digit == 12 {
        'c'
    } else if digit == 13 {
        'd'
    } else if digit == 14 {
        'e'
    } else if digit == 15 {
        'f'
    } else {
        crate::utils::text::digit_char(digit)
    }
}

/// A colour written as `#rrggbb`, in lower case. Opacity is left out.
pub open spec fn spec_to_hex(color: SerializableColor) -> Seq<char> {
    seq![
        '#',
        hex_char(color.r as int / 16),
        hex_char(color.r as int % 16),
        hex_char(color.g as int / 16),
        hex_char(color.g as int % 16),
        hex_char(color.b as int / 16),
        hex_char(color.b as int % 16),
    ]
}

fn hex_str(digit: u8) -> (text: &'static str)
    requires
        digit < 16,
    ensures
        text@ == seq![hex_char(digit as int)],
{
    proof {
        reveal_strlit("0");
        reveal_strlit("1");
        reveal_strlit("2");
        reveal_strlit("3");
        reveal_strlit("4");
        reveal_strlit("5");
        reveal_strlit("6");
        reveal_strlit("7");
        reveal_strlit("8");
        reveal_strlit("9");
        reveal_strlit("a");
        reveal_strlit("b");
        reveal_strlit("c");
        reveal_strlit("d");
        reveal_strlit("e");
        reveal_strlit("f");
    }
    let text = match digit {
        0 => "0",
        1 => "1",
        2 => "2",
        3 => "3",
        4 => "4",
        5 => "5",
        6 => "6",
        7 => "7",
        8 => "8",
        9 => "9",
        10 => "a",
        11 => "b",
        12 => "c",
        13 => "d",
        14 => "e",
        _ => "f",
    };
    assert(text@ =~= seq![hex_char(digit as int)]);
    text
}

/// Writes a colour as `#rrggbb`.
pub fn format_hex_color(color: SerializableColor) -> (text: String)
    ensures
        text@ == spec_to_hex(color),
{
    proof {
        reveal_strlit("#");
    }
    let mut text = String::from_str("#");
    text.append(hex_str(color.r / 16));
    text.append(hex_str(color.r % 16));
    text.append(hex_str(color.g / 16));
    text.append(hex_str(color.g % 16));
    text.append(hex_str(color.b / 16));
    text.append(hex_str(color.b % 16));
    assert(text@ =~= spec_to_hex(color));
    text
}

/// A colour that is written out and read back is the same colour, made
/// opaque.
pub proof fn lemma_hex_round_trip(color: SerializableColor)
    ensures
        spec_from_hex(spec_to_hex(color)) == Some(
            SerializableColor { r: color.r, g: color.g, b: color.b, a: 255 },
        ),
{
    let text = spec_to_hex(color);
    lemma_hex_digits_read_back(color.r);
    lemma_hex_digits_read_back(color.g);
    lemma_hex_digits_read_back(color.b);
    assert(text.drop_first()[0] != '#');
    assert(leading_hashes(text.drop_first()) == 0);
    assert(leading_hashes(text) == 1);
    let digits = text.skip(1);
    assert(digits.len() == 6);
    assert(digits[0] == text[1] && digits[1] == text[2] && digits[2] == text[3] && digits[3]
        == text[4] && digits[4] == text[5] && digits[5] == text[6]);
}

/// The two hexadecimal digits of a byte spell that byte.
pub proof fn lemma_hex_digits_read_back(value: u8)
    ensures
        hex_byte(hex_char(value as int / 16), hex_char(value as int % 16)) == Some(value),
        hex_char(value as int / 16) != '#',
        hex_char(value as int / 16) != '+',
{
    let high = value as int / 16;
    let low = value as int % 16;
    lemma_hex_char_value(high);
    lemma_hex_char_value(low);
}

/// The character of a hexadecimal digit has that digit's value.
pub proof fn lemma_hex_char_value(digit: int)
    requires
        0 <= digit < 16,
    ensures
        hex_value(hex_char(digit)) == Some(digit as u8),
        hex_char(digit) != '#',
        hex_char(digit) != '+',
{
}


} // verus!
