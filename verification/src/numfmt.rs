//! Decimal rendering of the integer types the interpreter prints.
//!
//! The spec-level forms [`dec_u64`] and [`dec_i64`] define the usual
//! decimal notation (most significant digit first, a leading `-` for
//! negative numbers, no leading zeroes except for zero itself); the
//! executable functions are proved to produce exactly that text.

use vstd::prelude::*;

verus! {

/// The decimal digit character for a value below ten.
pub open spec fn digit_char(d: nat) -> char {
    if d == 0 {
        '0'
    } else if d == 1 {
        '1'
    } else if d == 2 {
        '2'
    } else if d == 3 {
        '3'
    } else if d == 4 {
        '4'
    } else if d == 5 {
        '5'
    } else if d == 6 {
        '6'
    } else if d == 7 {
        '7'
    } else if d == 8 {
        '8'
    } else {
        '9'
    }
}

/// Decimal notation of a non-negative number, most significant digit first.
pub open spec fn dec_u64(n: nat) -> Seq<char>
    decreases n,
{
    if n < 10 {
        seq![digit_char(n)]
    } else {
        dec_u64(n / 10).push(digit_char(n % 10))
    }
}

/// Decimal notation of a signed number: a `-` sign before the magnitude.
pub open spec fn dec_i64(n: int) -> Seq<char> {
    if n >= 0 {
        dec_u64(n as nat)
    } else {
        seq!['-'] + dec_u64((-n) as nat)
    }
}

fn digit_str(d: u64) -> (r: &'static str)
    requires
        d < 10,
    ensures
        r@ =~= seq![digit_char(d as nat)],
{
    proof {
        reveal_strlit("0");
        reveal_strlit("1");
        reveal_strlit("2");
        reveal_strlit("3");
        reveal_strlit("4");
        reveal_strlit("5");
        reveal_strlit("6");
        reveal_strlit("7");
        reveal_strlit("8");
        reveal_strlit("9");
    }
    if d == 0 {
        "0"
    } else if d == 1 {
        "1"
    } else if d == 2 {
        "2"
    } else if d == 3 {
        "3"
    } else if d == 4 {
        "4"
    } else if d == 5 {
        "5"
    } else if d == 6 {
        "6"
    } else if d == 7 {
        "7"
    } else if d == 8 {
        "8"
    } else {
        "9"
    }
}

/// Renders a `u64` in decimal.
pub fn u64_to_string(m: u64) -> (s: String)
    ensures
        s@ == dec_u64(m as nat),
    decreases m,
{
    if m < 10 {
        let s = digit_str(m).to_owned();
        proof {
            assert(s@ =~= dec_u64(m as nat));
        }
        s
    } else {
        let mut s = u64_to_string(m / 10);
        s.append(digit_str(m % 10));
        proof {
            assert(s@ =~= dec_u64(m as nat));
        }
        s
    }
}

/// Renders an `i64` in decimal, with a `-` sign when negative.
pub fn i64_to_string(n: i64) -> (s: String)
    ensures
        s@ == dec_i64(n as int),
{
    if n >= 0 {
        u64_to_string(n as u64)
    } else {
        // The magnitude of `n`, computed without overflowing at `i64::MIN`.
        let m: u64 = ((-(n + 1)) as u64) + 1;
        let mut s = "-".to_owned();
        s.append(u64_to_string(m).as_str());
        proof {
            reveal_strlit("-");
            assert(s@ =~= dec_i64(n as int));
        }
        s
    }
}

/// Renders a `usize` in decimal.
pub fn usize_to_string(n: usize) -> (s: String)
    ensures
        s@ == dec_u64(n as nat),
{
    u64_to_string(n as u64)
}

} // verus!
