//! Positional notation of unsigned integers, in decimal and lower-case hex.

use vstd::arithmetic::div_mod::{lemma_div_is_strictly_smaller, lemma_small_mod};
use vstd::prelude::*;

verus! {

/// The digit of value `d` (0 to 15), lower case above nine.
pub open spec fn digit_char(d: nat) -> char {
    seq!['0', '1', '2', '3', '4', '5', '6', '7', '8', '9', 'a', 'b', 'c', 'd', 'e', 'f'][d as int]
}

/// The digits of `n` in base `base`, most significant first, with no
/// leading zeros (zero is written as a single `0`).
pub open spec fn digits(n: nat, base: nat) -> Seq<char>
    decreases n,
    via digits_decreases
{
    if base < 2 || n < base {
        seq![digit_char(n)]
    } else {
        digits(n / base, base).push(digit_char(n % base))
    }
}

#[via_fn]
proof fn digits_decreases(n: nat, base: nat) {
    if !(base < 2 || n < base) {
        lemma_div_is_strictly_smaller(n as int, base as int);
    }
}

/// `n` in decimal.
pub open spec fn decimal(n: nat) -> Seq<char> {
    digits(n, 10)
}

/// `n` in lower-case hex, padded with zeros to at least two digits.
pub open spec fn hex_byte(n: nat) -> Seq<char> {
    if n < 16 {
        seq!['0'] + digits(n, 16)
    } else {
        digits(n, 16)
    }
}

/// The one-character string for the digit `d`.
fn digit_str(d: u64) -> (r: &'static str)
    requires
        d < 16,
    ensures
        r@ == seq![digit_char(d as nat)],
{
    proof {
        reveal_strlit("0");
        reveal_strlit("1");
        reveal_strlit("2");
        reveal_strlit("3");
        reveal_strlit("4");
        reveal_strlit("5");
        reveal_strlit("6");
        reveal_strlit("7");
        reveal_strlit("8");
        reveal_strlit("9");
        reveal_strlit("a");
        reveal_strlit("b");
        reveal_strlit("c");
        reveal_strlit("d");
        reveal_strlit("e");
        reveal_strlit("f");
    }
    match d {
        0 => "0",
        1 => "1",
        2 => "2",
        3 => "3",
        4 => "4",
        5 => "5",
        6 => "6",
        7 => "7",
        8 => "8",
        9 => "9",
        10 => "a",
        11 => "b",
        12 => "c",
        13 => "d",
        14 => "e",
        _ => "f",
    }
}

/// Appends the digits of `n` in base `base` to `s`.
pub fn push_digits(s: &mut String, n: u64, base: u64)
    requires
        2 <= base <= 16,
    ensures
        final(s)@ == old(s)@ + digits(n as nat, base as nat),
    decreases n,
{
    let ghost start = s@;
    if n >= base {
        proof {
            lemma_div_is_strictly_smaller(n as int, base as int);
        }
        push_digits(s, n / base, base);
    } else {
        proof {
            lemma_small_mod(n as nat, base as nat);
        }
    }
    s.append(digit_str(n % base));
    assert(s@ =~= start + digits(n as nat, base as nat));
}

/// Appends `n` in decimal to `s`.
pub fn push_decimal(s: &mut String, n: u64)
    ensures
        final(s)@ == old(s)@ + decimal(n as nat),
{
    push_digits(s, n, 10);
}

/// Appends `n` in hex, at least two digits wide, to `s`.
pub fn push_hex_byte(s: &mut String, n: u64)
    ensures
        final(s)@ == old(s)@ + hex_byte(n as nat),
{
    if n < 16 {
        s.append(digit_str(0));
    }
    push_digits(s, n, 16);
}

} // verus!
