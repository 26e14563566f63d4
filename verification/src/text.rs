//! Decimal rendering of numbers, as file names and identifiers need it.

use vstd::prelude::*;
use vstd::string::*;

verus! {

/// The character of one decimal digit.
pub open spec fn digit_char(d: int) -> char {
    if d == 0 {
        '0'
    } else if d == 1 {
        '1'
    } else if d == 2 {
        '2'
    } else if d == 3 {
        '3'
    } else if d == 4 {
        '4'
    } else if d == 5 {
        '5'
    } else if d == 6 {
        '6'
    } else if d == 7 {
        '7'
    } else if d == 8 {
        '8'
    } else {
        '9'
    }
}

/// The decimal digits of `n`, most significant first, without leading zeros.
pub open spec fn decimal_digits(n: nat) -> Seq<char>
    decreases n,
{
    if n < 10 {
        seq![digit_char(n as int)]
    } else {
        decimal_digits(n / 10).push(digit_char((n % 10) as int))
    }
}

/// The decimal digits of `n`, filled with leading zeros up to `width`.
pub open spec fn zero_padded_digits(n: nat, width: nat) -> Seq<char> {
    let digits = decimal_digits(n);
    if digits.len() >= width {
        digits
    } else {
        Seq::new((width - digits.len()) as nat, |i: int| '0') + digits
    }
}

fn digit_text(d: u64) -> (text: &'static str)
    requires
        d < 10,
    ensures
        text@ == seq![digit_char(d as int)],
{
    proof {
        reveal_strlit("0");
        reveal_strlit("1");
        reveal_strlit("2");
        reveal_strlit("3");
        reveal_strlit("4");
        reveal_strlit("5");
        reveal_strlit("6");
        reveal_strlit("7");
        reveal_strlit("8");
        reveal_strlit("9");
    }
    let text = if d == 0 {
        "0"
    } else if d == 1 {
        "1"
    } else if d == 2 {
        "2"
    } else if d == 3 {
        "3"
    } else if d == 4 {
        "4"
    } else if d == 5 {
        "5"
    } else if d == 6 {
        "6"
    } else if d == 7 {
        "7"
    } else if d == 8 {
        "8"
    } else {
        "9"
    };
    assert(text@ =~= seq![digit_char(d as int)]);
    text
}

/// Render a number of up to 128 bits in decimal.
pub fn decimal_wide(n: u128) -> (text: String)
    ensures
        text@ == decimal_digits(n as nat),
    decreases n,
{
    if n < 10 {
        String::from_str(digit_text(n as u64))
    } else {
        let mut text = decimal_wide(n / 10);
        text.append(digit_text((n % 10) as u64));
        assert(text@ =~= decimal_digits(n as nat));
        text
    }
}

/// Render a number in decimal.
pub fn decimal(n: u64) -> (text: String)
    ensures
        text@ == decimal_digits(n as nat),
{
    decimal_wide(n as u128)
}

/// Render a number in decimal with leading zeros up to `width` digits.
pub fn zero_padded(n: u64, width: usize) -> (text: String)
    ensures
        text@ == zero_padded_digits(n as nat, width as nat),
{
    let digits = decimal(n);
    let have: usize = digits.as_str().unicode_len();
    if have >= width {
        return digits;
    }
    let mut text = String::new();
    let mut filled: usize = 0;
    proof {
        reveal_strlit("0");
    }
    while filled < width - have
        invariant
            have < width,
            filled <= width - have,
            text@ == Seq::new(filled as nat, |i: int| '0'),
            "0"@ == seq!['0'],
        decreases width - have - filled,
    {
        text.append("0");
        filled += 1;
        assert(text@ =~= Seq::new(filled as nat, |i: int| '0'));
    }
    text.append(digits.as_str());
    text
}

/// The decimal rendering of a signed number: a minus sign before the
/// digits of a negative one.
pub open spec fn signed_digits(n: int) -> Seq<char> {
    if n < 0 {
        "-"@ + decimal_digits((-n) as nat)
    } else {
        decimal_digits(n as nat)
    }
}

/// Render a signed number in decimal.
pub fn signed_decimal(n: i64) -> (text: String)
    ensures
        text@ == signed_digits(n as int),
{
    if n < 0 {
        let magnitude: u64 = (0 - (n as i128)) as u64;
        let mut text = String::from_str("-");
        text.append(decimal(magnitude).as_str());
        text
    } else {
        decimal(n as u64)
    }
}

} // verus!
