//! String literals for texts that the generated resolver holds.

use vstd::prelude::*;
use vstd::string::*;

verus! {

/// The hexadecimal digit for `digit`, for a number below sixteen.
pub open spec fn hex_digit(digit: int) -> Seq<char> {
    if digit == 0 {
        "0"@
    } else if digit == 1 {
        "1"@
    } else if digit == 2 {
        "2"@
    } else if digit == 3 {
        "3"@
    } else if digit == 4 {
        "4"@
    } else if digit == 5 {
        "5"@
    } else if digit == 6 {
        "6"@
    } else if digit == 7 {
        "7"@
    } else if digit == 8 {
        "8"@
    } else if digit == 9 {
        "9"@
    } else if digit == 10 {
        "a"@
    } else if digit == 11 {
        "b"@
    } else if digit == 12 {
        "c"@
    } else if digit == 13 {
        "d"@
    } else if digit == 14 {
        "e"@
    } else {
        "f"@
    }
}

/// `number` in hexadecimal digits, without leading zeros.
pub open spec fn hex(number: nat) -> Seq<char>
    decreases number,
{
    if number < 16 {
        hex_digit(number as int)
    } else {
        hex(number / 16) + hex_digit((number % 16) as int)
    }
}

/// Whether `c` stands for itself between the quotes of a string literal: a
/// printable ASCII character other than the quote and the backslash.
pub open spec fn is_plain(c: char) -> bool {
    0x20 <= c as u32 <= 0x7e && c != '"' && c != '\\'
}

/// What stands for `c` between the quotes of a string literal: the character
/// itself where it is plain, else the escape with its number.
pub open spec fn escaped_char(c: char) -> Seq<char> {
    if is_plain(c) {
        seq![c]
    } else {
        "\\u{"@ + hex(c as u32 as nat) + "}"@
    }
}

/// What stands for `text` between the quotes of a string literal.
pub open spec fn escaped(text: Seq<char>) -> Seq<char>
    decreases text.len(),
{
    if text.len() == 0 {
        Seq::empty()
    } else {
        escaped(text.drop_last()) + escaped_char(text.last())
    }
}

/// The string literal that denotes `text`.
pub open spec fn quoted(text: Seq<char>) -> Seq<char> {
    "\""@ + escaped(text) + "\""@
}

/// The hexadecimal digit for `digit`.
fn hex_digit_of(digit: u32) -> (text: &'static str)
    requires
        digit < 16,
    ensures
        text@ == hex_digit(digit as int),
{
    if digit == 0 {
        "0"
    } else if digit == 1 {
        "1"
    } else if digit == 2 {
        "2"
    } else if digit == 3 {
        "3"
    } else if digit == 4 {
        "4"
    } else if digit == 5 {
        "5"
    } else if digit == 6 {
        "6"
    } else if digit == 7 {
        "7"
    } else if digit == 8 {
        "8"
    } else if digit == 9 {
        "9"
    } else if digit == 10 {
        "a"
    } else if digit == 11 {
        "b"
    } else if digit == 12 {
        "c"
    } else if digit == 13 {
        "d"
    } else if digit == 14 {
        "e"
    } else {
        "f"
    }
}

/// Writes `number` in hexadecimal digits, without leading zeros.
pub fn hex_of(number: u32) -> (text: String)
    ensures
        text@ == hex(number as nat),
    decreases number,
{
    if number < 16 {
        String::from_str(hex_digit_of(number))
    } else {
        let mut text = hex_of(number / 16);
        text.append(hex_digit_of(number % 16));
        text
    }
}

/// Writes the string literal that denotes `text`.
pub fn string_literal(text: &str) -> (literal: String)
    ensures
        literal@ == quoted(text@),
{
    let mut literal = String::from_str("\"");
    let count = text.unicode_len();
    let mut i: usize = 0;
    assert(text@.take(0) =~= Seq::<char>::empty());
    while i < count
        invariant
            i <= count,
            count == text@.len(),
            literal@ == "\""@ + escaped(text@.take(i as int)),
        decreases count - i,
    {
        let c = text.get_char(i);
        proof {
            let after = text@.take(i + 1);
            assert(after.drop_last() =~= text@.take(i as int));
            assert(after.last() == c);
        }
        let code = c as u32;
        if 0x20 <= code && code <= 0x7e && c != '"' && c != '\\' {
            let plain = text.substring_char(i, i + 1);
            assert(plain@ =~= seq![c]);
            literal.append(plain);
        } else {
            literal.append("\\u{");
            literal.append(hex_of(code).as_str());
            literal.append("}");
        }
        i += 1;
    }
    assert(text@.take(count as int) =~= text@);
    literal.append("\"");
    literal
}

} // verus!
