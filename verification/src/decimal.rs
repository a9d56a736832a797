//! Decimal text of layer ids, as it appears in error messages.

use vstd::prelude::*;
use vstd::string::*;

verus! {

/// The character that writes the digit `d`, for `d` from zero to nine.
pub open spec fn digit(d: int) -> char
    recommends
        0 <= d <= 9,
{
    if d <= 0 {
        '0'
    } else if d == 1 {
        '1'
    } else if d == 2 {
        '2'
    } else if d == 3 {
        '3'
    } else if d == 4 {
        '4'
    } else if d == 5 {
        '5'
    } else if d == 6 {
        '6'
    } else if d == 7 {
        '7'
    } else if d == 8 {
        '8'
    } else {
        '9'
    }
}

/// The numeral of a natural number: most significant digit first, no
/// leading zero, and `"0"` for zero.
pub open spec fn numeral(n: nat) -> Seq<char>
    decreases n,
{
    if n < 10 {
        seq![digit(n as int)]
    } else {
        numeral(n / 10).push(digit((n % 10) as int))
    }
}

/// The decimal text of an integer: the numeral of its magnitude, behind a
/// minus sign where it is negative.
pub open spec fn decimal(i: int) -> Seq<char> {
    if i < 0 {
        seq!['-'] + numeral((-i) as nat)
    } else {
        numeral(i as nat)
    }
}

fn digit_text(d: u32) -> (s: &'static str)
    requires
        d < 10,
    ensures
        s@ == seq![digit(d as int)],
{
    proof {
        reveal_strlit("0");
        reveal_strlit("1");
        reveal_strlit("2");
        reveal_strlit("3");
        reveal_strlit("4");
        reveal_strlit("5");
        reveal_strlit("6");
        reveal_strlit("7");
        reveal_strlit("8");
        reveal_strlit("9");
    }
    let s: &'static str = if d == 0 {
        "0"
    } else if d == 1 {
        "1"
    } else if d == 2 {
        "2"
    } else if d == 3 {
        "3"
    } else if d == 4 {
        "4"
    } else if d == 5 {
        "5"
    } else if d == 6 {
        "6"
    } else if d == 7 {
        "7"
    } else if d == 8 {
        "8"
    } else {
        "9"
    };
    s
}

fn push_numeral(out: &mut String, n: u32)
    ensures
        final(out)@ == old(out)@ + numeral(n as nat),
    decreases n,
{
    if n >= 10 {
        push_numeral(out, n / 10);
    }
    out.append(digit_text(n % 10));
}

/// Appends the decimal text of `i` to `out`.
pub fn push_decimal(out: &mut String, i: i32)
    ensures
        final(out)@ == old(out)@ + decimal(i as int),
{
    if i < 0 {
        out.append("-");
        proof {
            reveal_strlit("-");
        }
        let magnitude: u32 = if i == i32::MIN {
            2147483648u32
        } else {
            (-i) as u32
        };
        push_numeral(out, magnitude);
    } else {
        push_numeral(out, i as u32);
    }
}

/// The decimal text of `i` as a string of its own.
pub fn decimal_string(i: i32) -> (s: String)
    ensures
        s@ == decimal(i as int),
{
    let mut s = String::new();
    push_decimal(&mut s, i);
    s
}

} // verus!
