//! Textual renderings of opcode identifiers and slot indices.
//!
//! The spec functions state, digit by digit, what the decimal and the
//! prefixed-uppercase-hex rendering of a number are; the two trusted wrappers
//! say that std's formatting produces exactly those renderings.

use vstd::prelude::*;

verus! {

/// The decimal digit character for a value below ten.
pub open spec fn dec_digit(d: nat) -> char {
    if d == 0 {
        '0'
    } else if d == 1 {
        '1'
    } else if d == 2 {
        '2'
    } else if d == 3 {
        '3'
    } else if d == 4 {
        '4'
    } else if d == 5 {
        '5'
    } else if d == 6 {
        '6'
    } else if d == 7 {
        '7'
    } else if d == 8 {
        '8'
    } else {
        '9'
    }
}

/// The decimal rendering of `n`: most significant digit first, no sign, no
/// leading zeros, and the single digit `0` for zero.
pub open spec fn dec_rep(n: nat) -> Seq<char>
    decreases n,
{
    if n < 10 {
        seq![dec_digit(n)]
    } else {
        dec_rep(n / 10).push(dec_digit(n % 10))
    }
}

/// The uppercase hexadecimal digit character for a value below sixteen.
pub open spec fn hex_digit(d: nat) -> char {
    if d < 10 {
        dec_digit(d)
    } else if d == 10 {
        'A'
    } else if d == 11 {
        'B'
    } else if d == 12 {
        'C'
    } else if d == 13 {
        'D'
    } else if d == 14 {
        'E'
    } else {
        'F'
    }
}

/// The uppercase hexadecimal rendering of `n`: most significant digit first,
/// no leading zeros, and the single digit `0` for zero.
pub open spec fn hex_rep(n: nat) -> Seq<char>
    decreases n,
{
    if n < 16 {
        seq![hex_digit(n)]
    } else {
        hex_rep(n / 16).push(hex_digit(n % 16))
    }
}

/// Relies on `u32`'s `Display` impl: `to_string` yields the value's decimal
/// digits, most significant first, with no sign and no leading zeros.
#[verifier::external_body]
pub(crate) fn u32_decimal(n: u32) -> (r: String)
    ensures
        r@ == dec_rep(n as nat),
{
    n.to_string()
}

/// Relies on `u32`'s `UpperHex` impl through `format!("{:#X}", ..)`: the
/// alternate form is `0x` followed by the value's uppercase hex digits, most
/// significant first, with no leading zeros.
#[verifier::external_body]
pub(crate) fn u32_hex_prefixed(n: u32) -> (r: String)
    ensures
        r@ == seq!['0', 'x'] + hex_rep(n as nat),
{
    format!("{:#X}", n)
}

} // verus!
