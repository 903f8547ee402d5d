//! Decimal rendering of integer ids and counters.
//!
//! Cache file names and progress messages embed integers in decimal
//! notation; these functions build the digit strings and are proved to
//! produce exactly the mathematical decimal representation.

use vstd::prelude::*;

verus! {

/// The character for a single decimal digit value.
pub open spec fn dec_digit(d: nat) -> char {
    if d == 0 {
        '0'
    } else if d == 1 {
        '1'
    } else if d == 2 {
        '2'
    } else if d == 3 {
        '3'
    } else if d == 4 {
        '4'
    } else if d == 5 {
        '5'
    } else if d == 6 {
        '6'
    } else if d == 7 {
        '7'
    } else if d == 8 {
        '8'
    } else {
        '9'
    }
}

/// Decimal representation of a natural number, most significant digit first,
/// with no leading zeros (except for the number 0 itself).
pub open spec fn dec_rep(n: nat) -> Seq<char>
    decreases n,
{
    if n < 10 {
        seq![dec_digit(n)]
    } else {
        dec_rep(n / 10).push(dec_digit(n % 10))
    }
}

/// Decimal representation of a (possibly negative) integer.
pub open spec fn int_rep(i: int) -> Seq<char> {
    if i >= 0 {
        dec_rep(i as nat)
    } else {
        seq!['-'] + dec_rep((-i) as nat)
    }
}

/// The one-character string for a single decimal digit value.
fn digit_str(d: u64) -> (r: &'static str)
    requires
        d < 10,
    ensures
        r@ == seq![dec_digit(d as nat)],
{
    proof {
        reveal_strlit("0");
        reveal_strlit("1");
        reveal_strlit("2");
        reveal_strlit("3");
        reveal_strlit("4");
        reveal_strlit("5");
        reveal_strlit("6");
        reveal_strlit("7");
        reveal_strlit("8");
        reveal_strlit("9");
    }
    match d {
        0 => "0",
        1 => "1",
        2 => "2",
        3 => "3",
        4 => "4",
        5 => "5",
        6 => "6",
        7 => "7",
        8 => "8",
        _ => "9",
    }
}

/// Render an unsigned integer in decimal.
pub fn u64_to_string(n: u64) -> (s: String)
    ensures
        s@ == dec_rep(n as nat),
    decreases n,
{
    if n < 10 {
        String::from_str(digit_str(n))
    } else {
        let mut s = u64_to_string(n / 10);
        s.append(digit_str(n % 10));
        s
    }
}

/// Render a signed integer in decimal, with a leading `-` when negative.
pub fn i64_to_string(n: i64) -> (s: String)
    ensures
        s@ == int_rep(n as int),
{
    if n >= 0 {
        u64_to_string(n as u64)
    } else {
        let magnitude: u64 = ((-(n + 1)) as u64) + 1;
        assert(magnitude as int == -(n as int));
        let mut s = String::from_str("-");
        proof {
            reveal_strlit("-");
        }
        let rest = u64_to_string(magnitude);
        s.append(rest.as_str());
        assert(s@ == int_rep(n as int));
        s
    }
}

} // verus!
