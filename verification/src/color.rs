//! Color codec: an RGB triple and its 6-digit hex literal form.

use vstd::prelude::*;
use vstd::arithmetic::div_mod::lemma_fundamental_div_mod;
use vstd::string::StrSliceExecFns;
use vstd::string::StringExecFns;
use crate::Error;

verus! {

/// An opaque triple of 8-bit channels. Two colors are equal iff all three
/// channels match exactly.
#[derive(Clone, Copy, Debug, PartialEq, Eq, Structural)]
pub struct Color {
    pub red: u8,
    pub green: u8,
    pub blue: u8,
}

/// Value of a hex digit character, or -1 when the character is not one.
/// Parsing is case-insensitive.
pub open spec fn hex_val(c: char) -> int {
    if c == '0' { 0 }
    else if c == '1' { 1 }
    else if c == '2' { 2 }
    else if c == '3' { 3 }
    else if c == '4' { 4 }
    else if c == '5' { 5 }
    else if c == '6' { 6 }
    else if c == '7' { 7 }
    else if c == '8' { 8 }
    else if c == '9' { 9 }
    else if c == 'a' || c == 'A' { 10 }
    else if c == 'b' || c == 'B' { 11 }
    else if c == 'c' || c == 'C' { 12 }
    else if c == 'd' || c == 'D' { 13 }
    else if c == 'e' || c == 'E' { 14 }
    else if c == 'f' || c == 'F' { 15 }
    else { -1 }
}

pub open spec fn is_hex_digit(c: char) -> bool {
    hex_val(c) >= 0
}

/// Uppercase hex digit for a value below 16.
pub open spec fn hex_upper(d: int) -> char
    recommends 0 <= d < 16,
{
    if d == 0 { '0' }
    else if d == 1 { '1' }
    else if d == 2 { '2' }
    else if d == 3 { '3' }
    else if d == 4 { '4' }
    else if d == 5 { '5' }
    else if d == 6 { '6' }
    else if d == 7 { '7' }
    else if d == 8 { '8' }
    else if d == 9 { '9' }
    else if d == 10 { 'A' }
    else if d == 11 { 'B' }
    else if d == 12 { 'C' }
    else if d == 13 { 'D' }
    else if d == 14 { 'E' }
    else { 'F' }
}

/// Lowercase hex digit for a value below 16.
pub open spec fn hex_lower(d: int) -> char
    recommends 0 <= d < 16,
{
    if d == 0 { '0' }
    else if d == 1 { '1' }
    else if d == 2 { '2' }
    else if d == 3 { '3' }
    else if d == 4 { '4' }
    else if d == 5 { '5' }
    else if d == 6 { '6' }
    else if d == 7 { '7' }
    else if d == 8 { '8' }
    else if d == 9 { '9' }
    else if d == 10 { 'a' }
    else if d == 11 { 'b' }
    else if d == 12 { 'c' }
    else if d == 13 { 'd' }
    else if d == 14 { 'e' }
    else { 'f' }
}

/// The text with one leading `#`, if any, removed.
pub open spec fn strip_hash(s: Seq<char>) -> Seq<char> {
    if s.len() >= 1 && s[0] == '#' { s.skip(1) } else { s }
}

/// A hex color literal: optional `#`, then exactly 6 hex digits.
pub open spec fn valid_hex(s: Seq<char>) -> bool {
    let t = strip_hash(s);
    t.len() == 6 && (forall|i: int| 0 <= i < 6 ==> is_hex_digit(#[trigger] t[i]))
}

/// The color denoted by a valid hex literal: red is the high-order byte
/// of the 24-bit value, blue the low-order one.
pub open spec fn spec_parse_hex(s: Seq<char>) -> Option<Color> {
    let t = strip_hash(s);
    if valid_hex(s) {
        Some(Color {
            red: (hex_val(t[0]) * 16 + hex_val(t[1])) as u8,
            green: (hex_val(t[2]) * 16 + hex_val(t[3])) as u8,
            blue: (hex_val(t[4]) * 16 + hex_val(t[5])) as u8,
        })
    } else {
        None
    }
}

/// Two uppercase hex digits of a channel value.
pub open spec fn hex2(v: int) -> Seq<char>
    recommends 0 <= v < 256,
{
    seq![hex_upper(v / 16), hex_upper(v % 16)]
}

/// The canonical literal for a color: `#` then 6 uppercase digits.
pub open spec fn spec_format_hex(c: Color) -> Seq<char> {
    seq!['#'] + hex2(c.red as int) + hex2(c.green as int) + hex2(c.blue as int)
}

/// Value of one character as a hex digit, `None` when it is not one.
pub(crate) fn hex_digit(c: char) -> (r: Option<u8>)
    ensures
        match r {
            Some(v) => v < 16 && hex_val(c) == v as int,
            None => !is_hex_digit(c),
        },
{
    if c == '0' { Some(0) }
    else if c == '1' { Some(1) }
    else if c == '2' { Some(2) }
    else if c == '3' { Some(3) }
    else if c == '4' { Some(4) }
    else if c == '5' { Some(5) }
    else if c == '6' { Some(6) }
    else if c == '7' { Some(7) }
    else if c == '8' { Some(8) }
    else if c == '9' { Some(9) }
    else if c == 'a' || c == 'A' { Some(10) }
    else if c == 'b' || c == 'B' { Some(11) }
    else if c == 'c' || c == 'C' { Some(12) }
    else if c == 'd' || c == 'D' { Some(13) }
    else if c == 'e' || c == 'E' { Some(14) }
    else if c == 'f' || c == 'F' { Some(15) }
    else { None }
}

/// Parse `#RRGGBB` (the `#` optional, digits of either case) into a color.
/// Any other shape is `InvalidColorFormat`.
pub fn parse_hex(text: &str) -> (r: Result<Color, Error>)
    ensures
        match spec_parse_hex(text@) {
            Some(c) => r == Ok::<Color, Error>(c),
            None => r == Err::<Color, Error>(Error::InvalidColorFormat),
        },
{
    let n = text.unicode_len();
    let start: usize = if n >= 1 && text.get_char(0) == '#' { 1 } else { 0 };
    proof {
        assert(strip_hash(text@) =~= text@.skip(start as int));
    }
    if n - start != 6 {
        return Err(Error::InvalidColorFormat);
    }
    let d0 = match hex_digit(text.get_char(start)) {
        Some(v) => v,
        None => { return Err(Error::InvalidColorFormat); },
    };
    let d1 = match hex_digit(text.get_char(start + 1)) {
        Some(v) => v,
        None => { return Err(Error::InvalidColorFormat); },
    };
    let d2 = match hex_digit(text.get_char(start + 2)) {
        Some(v) => v,
        None => { return Err(Error::InvalidColorFormat); },
    };
    let d3 = match hex_digit(text.get_char(start + 3)) {
        Some(v) => v,
        None => { return Err(Error::InvalidColorFormat); },
    };
    let d4 = match hex_digit(text.get_char(start + 4)) {
        Some(v) => v,
        None => { return Err(Error::InvalidColorFormat); },
    };
    let d5 = match hex_digit(text.get_char(start + 5)) {
        Some(v) => v,
        None => { return Err(Error::InvalidColorFormat); },
    };
    let red: u8 = d0 * 16 + d1;
    let green: u8 = d2 * 16 + d3;
    let blue: u8 = d4 * 16 + d5;
    Ok(Color { red, green, blue })
}

/// One uppercase hex digit as text.
fn hex_upper_str(v: u8) -> (r: &'static str)
    requires
        v < 16,
    ensures
        r@ =~= seq![hex_upper(v as int)],
{
    proof {
        reveal_strlit("0");
        reveal_strlit("1");
        reveal_strlit("2");
        reveal_strlit("3");
        reveal_strlit("4");
        reveal_strlit("5");
        reveal_strlit("6");
        reveal_strlit("7");
        reveal_strlit("8");
        reveal_strlit("9");
        reveal_strlit("A");
        reveal_strlit("B");
        reveal_strlit("C");
        reveal_strlit("D");
        reveal_strlit("E");
        reveal_strlit("F");
    }
    if v == 0 { "0" }
    else if v == 1 { "1" }
    else if v == 2 { "2" }
    else if v == 3 { "3" }
    else if v == 4 { "4" }
    else if v == 5 { "5" }
    else if v == 6 { "6" }
    else if v == 7 { "7" }
    else if v == 8 { "8" }
    else if v == 9 { "9" }
    else if v == 10 { "A" }
    else if v == 11 { "B" }
    else if v == 12 { "C" }
    else if v == 13 { "D" }
    else if v == 14 { "E" }
    else { "F" }
}

/// One lowercase hex digit as text.
pub fn hex_lower_str(v: u8) -> (r: &'static str)
    requires
        v < 16,
    ensures
        r@ =~= seq![hex_lower(v as int)],
{
    proof {
        reveal_strlit("0");
        reveal_strlit("1");
        reveal_strlit("2");
        reveal_strlit("3");
        reveal_strlit("4");
        reveal_strlit("5");
        reveal_strlit("6");
        reveal_strlit("7");
        reveal_strlit("8");
        reveal_strlit("9");
        reveal_strlit("a");
        reveal_strlit("b");
        reveal_strlit("c");
        reveal_strlit("d");
        reveal_strlit("e");
        reveal_strlit("f");
    }
    if v == 0 { "0" }
    else if v == 1 { "1" }
    else if v == 2 { "2" }
    else if v == 3 { "3" }
    else if v == 4 { "4" }
    else if v == 5 { "5" }
    else if v == 6 { "6" }
    else if v == 7 { "7" }
    else if v == 8 { "8" }
    else if v == 9 { "9" }
    else if v == 10 { "a" }
    else if v == 11 { "b" }
    else if v == 12 { "c" }
    else if v == 13 { "d" }
    else if v == 14 { "e" }
    else { "f" }
}

/// Append the two uppercase digits of one channel value.
fn push_hex2(s: &mut String, v: u8)
    ensures
        final(s)@ == old(s)@ + hex2(v as int),
{
    proof {
        lemma_fundamental_div_mod(v as int, 16);
    }
    let hi: u8 = v / 16;
    let lo: u8 = v % 16;
    s.append(hex_upper_str(hi));
    s.append(hex_upper_str(lo));
    proof {
        assert(final(s)@ =~= old(s)@ + hex2(v as int));
    }
}

/// Format a color as `#` followed by exactly 6 uppercase hex digits,
/// each channel zero-padded to 2 digits.
pub fn format_hex(c: &Color) -> (r: String)
    ensures
        r@ == spec_format_hex(*c),
{
    let mut s = String::from_str("#");
    proof {
        reveal_strlit("#");
        assert(s@ =~= seq!['#']);
    }
    push_hex2(&mut s, c.red);
    push_hex2(&mut s, c.green);
    push_hex2(&mut s, c.blue);
    proof {
        assert(s@ =~= spec_format_hex(*c));
    }
    s
}

/// For a value below 16, the uppercase digit reads back as that value.
proof fn lemma_hex_digit_inverse(d: int)
    requires
        0 <= d < 16,
    ensures
        hex_val(hex_upper(d)) == d,
{
}

/// Round trip: parsing the canonical literal of any color yields exactly
/// that color back.
pub proof fn lemma_hex_round_trip(c: Color)
    ensures
        spec_parse_hex(spec_format_hex(c)) == Some(c),
{
    let s = spec_format_hex(c);
    let t = strip_hash(s);
    assert(t =~= hex2(c.red as int) + hex2(c.green as int) + hex2(c.blue as int));
    lemma_fundamental_div_mod(c.red as int, 16);
    lemma_fundamental_div_mod(c.green as int, 16);
    lemma_fundamental_div_mod(c.blue as int, 16);
    assert forall|d: int| 0 <= d < 16 implies hex_val(#[trigger] hex_upper(d)) == d by {
        lemma_hex_digit_inverse(d);
    }
    assert(valid_hex(s));
}

} // verus!
