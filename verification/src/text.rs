//! Strings as sequences of characters.

use crate::hex::{upper_hex_digit, upper_hex_digit_str};
use vstd::prelude::*;
use vstd::std_specs::iter::IteratorSpec;
use vstd::string::StringExecFns;

verus! {

/// `v` in decimal digits, without leading zeros.
pub open spec fn decimal(v: nat) -> Seq<char>
    decreases v,
{
    if v < 10 {
        seq![upper_hex_digit(v)]
    } else {
        decimal(v / 10).push(upper_hex_digit(v % 10))
    }
}

/// `v` in upper-case hexadecimal digits, without leading zeros.
pub open spec fn hexadecimal(v: nat) -> Seq<char>
    decreases v,
{
    if v < 16 {
        seq![upper_hex_digit(v)]
    } else {
        hexadecimal(v / 16).push(upper_hex_digit(v % 16))
    }
}

/// Appends `v` in decimal digits.
pub fn push_decimal(text: &mut String, v: u64)
    ensures
        final(text)@ == old(text)@ + decimal(v as nat),
    decreases v,
{
    if v >= 10 {
        push_decimal(text, v / 10);
    }
    text.append(upper_hex_digit_str((v % 10) as u8));
    assert(text@ =~= old(text)@ + decimal(v as nat));
}

/// Appends `v` in upper-case hexadecimal digits.
pub fn push_hexadecimal(text: &mut String, v: u64)
    ensures
        final(text)@ == old(text)@ + hexadecimal(v as nat),
    decreases v,
{
    if v >= 16 {
        push_hexadecimal(text, v / 16);
    }
    text.append(upper_hex_digit_str((v % 16) as u8));
    assert(text@ =~= old(text)@ + hexadecimal(v as nat));
}

/// The characters of `s`, in order.
pub fn chars_of(s: &str) -> (chars: Vec<char>)
    ensures
        chars@ == s@,
{
    broadcast use vstd::string::group_string_axioms;

    let mut chars: Vec<char> = Vec::new();
    for c in it: s.chars()
        invariant
            it.seq() == s@,
            chars@ == it.seq().take(it.index() as int),
    {
        chars.push(c);
    }
    chars
}

} // verus!
