//! Decimal text of integers, as coordinates are shown to the player.

use vstd::prelude::*;
use vstd::string::StringExecFns;

verus! {

/// The character of a decimal digit.
pub open spec fn digit_char(d: int) -> char {
    (48 + d) as char
}

/// The decimal digits of a natural number, most significant first, with
/// no leading zeros (zero is the single digit `0`).
pub open spec fn nat_digits(n: nat) -> Seq<char>
    decreases n,
{
    if n < 10 {
        seq![digit_char(n as int)]
    } else {
        nat_digits(n / 10).push(digit_char((n % 10) as int))
    }
}

/// The decimal text of an integer: a minus sign before negative numbers.
pub open spec fn int_chars(v: int) -> Seq<char> {
    if v < 0 {
        seq!['-'] + nat_digits((-v) as nat)
    } else {
        nat_digits(v as nat)
    }
}

/// The one-character string of a decimal digit.
fn digit_str(d: u64) -> (s: &'static str)
    requires
        d < 10,
    ensures
        s@ == seq![digit_char(d as int)],
{
    proof {
        reveal_strlit("0");
        reveal_strlit("1");
        reveal_strlit("2");
        reveal_strlit("3");
        reveal_strlit("4");
        reveal_strlit("5");
        reveal_strlit("6");
        reveal_strlit("7");
        reveal_strlit("8");
        reveal_strlit("9");
    }
    if d == 0 {
        "0"
    } else if d == 1 {
        "1"
    } else if d == 2 {
        "2"
    } else if d == 3 {
        "3"
    } else if d == 4 {
        "4"
    } else if d == 5 {
        "5"
    } else if d == 6 {
        "6"
    } else if d == 7 {
        "7"
    } else if d == 8 {
        "8"
    } else {
        "9"
    }
}

/// Appends the decimal digits of `n`.
fn push_digits(text: &mut String, n: u64)
    ensures
        final(text)@ == old(text)@ + nat_digits(n as nat),
    decreases n,
{
    if n >= 10 {
        push_digits(text, n / 10);
    }
    text.append(digit_str(n % 10));
    proof {
        if n >= 10 {
            assert(old(text)@ + nat_digits((n / 10) as nat) + seq![digit_char((n % 10) as int)]
                =~= old(text)@ + nat_digits(n as nat));
        } else {
            assert(n % 10 == n);
            assert(old(text)@ + seq![digit_char((n % 10) as int)] =~= old(text)@ + nat_digits(
                n as nat,
            ));
        }
    }
}

/// Appends the decimal text of an integer.
pub fn push_int(text: &mut String, v: i32)
    ensures
        final(text)@ == old(text)@ + int_chars(v as int),
{
    if v < 0 {
        text.append("-");
        let magnitude: u64 = (0i64 - v as i64) as u64;
        push_digits(text, magnitude);
        proof {
            reveal_strlit("-");
            assert(old(text)@ + seq!['-'] + nat_digits(magnitude as nat) =~= old(text)@ + int_chars(
                v as int,
            ));
        }
    } else {
        push_digits(text, v as u64);
    }
}

/// The text `(a, b, c)` of three integers.
pub open spec fn triple_text(a: int, b: int, c: int) -> Seq<char> {
    seq!['('] + int_chars(a) + seq![',', ' '] + int_chars(b) + seq![',', ' '] + int_chars(c)
        + seq![')']
}

/// The text `(a, b)` of two integers.
pub open spec fn pair_text(a: int, b: int) -> Seq<char> {
    seq!['('] + int_chars(a) + seq![',', ' '] + int_chars(b) + seq![')']
}

/// The text `(a, b, c)` of three integers.
pub fn triple_string(a: i32, b: i32, c: i32) -> (s: String)
    ensures
        s@ == triple_text(a as int, b as int, c as int),
{
    proof {
        reveal_strlit("(");
        reveal_strlit(", ");
        reveal_strlit(")");
    }
    let mut s = String::from_str("(");
    push_int(&mut s, a);
    s.append(", ");
    push_int(&mut s, b);
    s.append(", ");
    push_int(&mut s, c);
    s.append(")");
    assert(s@ =~= triple_text(a as int, b as int, c as int));
    s
}

/// The text `(a, b)` of two integers.
pub fn pair_string(a: i32, b: i32) -> (s: String)
    ensures
        s@ == pair_text(a as int, b as int),
{
    proof {
        reveal_strlit("(");
        reveal_strlit(", ");
        reveal_strlit(")");
    }
    let mut s = String::from_str("(");
    push_int(&mut s, a);
    s.append(", ");
    push_int(&mut s, b);
    s.append(")");
    assert(s@ =~= pair_text(a as int, b as int));
    s
}

} // verus!
