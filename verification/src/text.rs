//! Texts, and decimal numbers as text.

use vstd::prelude::*;
use vstd::string::{StrSliceExecFns, StringExecFns};

verus! {

/// The characters of an optional text.
pub open spec fn text_view(text: Option<String>) -> Option<Seq<char>> {
    match text {
        Some(text) => Some(text@),
        None => None,
    }
}

/// The character of one decimal digit.
pub open spec fn digit_char(digit: nat) -> char {
    (48 + digit) as char
}

/// Whether `c` is a decimal digit.
pub open spec fn is_digit(c: char) -> bool {
    '0' <= c <= '9'
}

/// The decimal form of `n`, without leading zeros.
pub open spec fn decimal(n: nat) -> Seq<char>
    decreases n,
{
    if n < 10 {
        seq![digit_char(n)]
    } else {
        decimal(n / 10).push(digit_char(n % 10))
    }
}

/// The number that a run of decimal digits stands for.
pub open spec fn digits_value(digits: Seq<char>) -> nat
    decreases digits.len(),
{
    if digits.len() == 0 {
        0
    } else {
        (digits_value(digits.drop_last()) * 10 + (digits.last() as nat - 48)) as nat
    }
}

/// Whether every character is a decimal digit.
pub open spec fn all_digits(chars: Seq<char>) -> bool {
    forall|i: int| 0 <= i < chars.len() ==> is_digit(#[trigger] chars[i])
}

/// The digits of a number that may carry a plus sign in front.
pub open spec fn unsigned_digits(chars: Seq<char>) -> Seq<char> {
    if chars.len() > 1 && chars[0] == '+' {
        chars.skip(1)
    } else {
        chars
    }
}

/// The byte that `chars` spells: an optional plus sign and at least one decimal digit, of a
/// value that a byte holds.
pub open spec fn byte_of_text(chars: Seq<char>) -> Option<u8> {
    let digits = unsigned_digits(chars);
    if digits.len() > 0 && all_digits(digits) && digits_value(digits) <= 255 {
        Some(digits_value(digits) as u8)
    } else {
        None
    }
}

/// One decimal digit as text.
fn digit_str(digit: u64) -> (text: &'static str)
    requires
        digit < 10,
    ensures
        text@ == seq![digit_char(digit as nat)],
{
    proof {
        reveal_strlit("0");
        reveal_strlit("1");
        reveal_strlit("2");
        reveal_strlit("3");
        reveal_strlit("4");
        reveal_strlit("5");
        reveal_strlit("6");
        reveal_strlit("7");
        reveal_strlit("8");
        reveal_strlit("9");
    }
    if digit == 0 {
        "0"
    } else if digit == 1 {
        "1"
    } else if digit == 2 {
        "2"
    } else if digit == 3 {
        "3"
    } else if digit == 4 {
        "4"
    } else if digit == 5 {
        "5"
    } else if digit == 6 {
        "6"
    } else if digit == 7 {
        "7"
    } else if digit == 8 {
        "8"
    } else {
        "9"
    }
}

/// Writes `n` in decimal.
pub fn decimal_text(n: u64) -> (text: String)
    ensures
        text@ == decimal(n as nat),
    decreases n,
{
    if n < 10 {
        digit_str(n).to_owned()
    } else {
        let mut text = decimal_text(n / 10);
        text.append(digit_str(n % 10));
        assert(text@ =~= decimal(n as nat));
        text
    }
}

/// Reads a byte in decimal.
pub fn parse_byte(text: &str) -> (byte: Option<u8>)
    ensures
        byte == byte_of_text(text@),
{
    let len = text.unicode_len();
    let start: usize = if len > 1 && text.get_char(0) == '+' { 1 } else { 0 };
    let ghost digits = unsigned_digits(text@);
    if len == start {
        return None;
    }
    let mut value: u32 = 0;
    let mut i: usize = start;
    while i < len
        invariant
            start <= i <= len,
            len == text@.len(),
            digits == unsigned_digits(text@),
            start == (if text@.len() > 1 && text@[0] == '+' { 1int } else { 0int }),
            digits.len() == len - start,
            all_digits(digits.take(i - start)),
            value <= 256,
            value == digits_value(digits.take(i - start)) || (value == 256 && digits_value(
                digits.take(i - start),
            ) > 256),
        decreases len - i,
    {
        let c = text.get_char(i);
        let ghost j = i - start;
        assert(digits[j] == c);
        assert(digits.take(j + 1).drop_last() =~= digits.take(j));
        assert(digits.take(j + 1).last() == c);
        if !('0' <= c && c <= '9') {
            assert(!is_digit(digits[j]));
            return None;
        }
        let digit: u32 = c as u32 - 48;
        value = value * 10 + digit;
        if value > 256 {
            value = 256;
        }
        i = i + 1;
    }
    assert(digits.take(len - start) =~= digits);
    if value > 255 {
        None
    } else {
        Some(value as u8)
    }
}

} // verus!
