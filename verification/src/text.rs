//! Comparing text.

use vstd::prelude::*;
use vstd::string::*;

verus! {

/// Tells whether a string holds exactly the characters of `word`.
pub fn is_word(text: &String, word: &str) -> (same: bool)
    ensures
        same == (text@ == word@),
{
    *text == String::from_str(word)
}

/// Tells whether an optional string is present and holds exactly the
/// characters of `word`.
pub fn names_word(text: &Option<String>, word: &str) -> (same: bool)
    ensures
        same == match *text {
            Some(t) => t@ == word@,
            None => false,
        },
{
    match text {
        Some(t) => is_word(t, word),
        None => false,
    }
}

/// The decimal digit `d` as text.
pub open spec fn digit_text(d: int) -> Seq<char> {
    if d == 0 {
        "0"@
    } else if d == 1 {
        "1"@
    } else if d == 2 {
        "2"@
    } else if d == 3 {
        "3"@
    } else if d == 4 {
        "4"@
    } else if d == 5 {
        "5"@
    } else if d == 6 {
        "6"@
    } else if d == 7 {
        "7"@
    } else if d == 8 {
        "8"@
    } else {
        "9"@
    }
}

/// The decimal digits of a natural number, highest first, without leading zeros.
pub open spec fn spec_digits(n: nat) -> Seq<char>
    decreases n,
{
    if n < 10 {
        digit_text(n as int)
    } else {
        spec_digits(n / 10) + digit_text((n % 10) as int)
    }
}

/// A whole number in decimal, with a minus sign in front if it is negative.
pub open spec fn spec_decimal(n: int) -> Seq<char> {
    if n < 0 {
        "-"@ + spec_digits((-n) as nat)
    } else {
        spec_digits(n as nat)
    }
}

/// The text of one decimal digit.
fn digit(d: u32) -> (text: &'static str)
    requires
        d < 10,
    ensures
        text@ == digit_text(d as int),
{
    if d == 0 {
        "0"
    } else if d == 1 {
        "1"
    } else if d == 2 {
        "2"
    } else if d == 3 {
        "3"
    } else if d == 4 {
        "4"
    } else if d == 5 {
        "5"
    } else if d == 6 {
        "6"
    } else if d == 7 {
        "7"
    } else if d == 8 {
        "8"
    } else {
        "9"
    }
}

/// Writes a natural number in decimal.
fn digits(n: u32) -> (text: String)
    ensures
        text@ == spec_digits(n as nat),
    decreases n,
{
    if n < 10 {
        String::from_str(digit(n))
    } else {
        let mut text = digits(n / 10);
        text.append(digit(n % 10));
        text
    }
}

/// Writes a whole number in decimal.
pub fn decimal(n: i32) -> (text: String)
    ensures
        text@ == spec_decimal(n as int),
{
    if n < 0 {
        let magnitude: u32 = (-(n as i64)) as u32;
        let mut text = String::from_str("-");
        let rest = digits(magnitude);
        text.append(rest.as_str());
        text
    } else {
        digits(n as u32)
    }
}

} // verus!
