//! Hexadecimal digits as they appear in Pico-8 cartridge text.

use vstd::prelude::*;

verus! {

/// The value of an ASCII hexadecimal digit (either case), or `None`.
pub open spec fn hex_value(c: u8) -> Option<u8> {
    if 48 <= c <= 57 {
        Some((c - 48) as u8)
    } else if 97 <= c <= 102 {
        Some((c - 87) as u8)
    } else if 65 <= c <= 70 {
        Some((c - 55) as u8)
    } else {
        None
    }
}

/// The byte made of a high and a low nybble.
pub open spec fn nybbles_to_byte(high: u8, low: u8) -> u8
    recommends
        high < 16,
        low < 16,
{
    (high * 16 + low) as u8
}

/// Interpret `a` as a hexadecimal digit.
pub fn to_nybble(a: u8) -> (r: Option<u8>)
    ensures
        r == hex_value(a),
        r matches Some(n) ==> n < 16,
{
    if 48 <= a && a <= 57 {
        Some(a - 48)
    } else if 97 <= a && a <= 102 {
        Some(a - 87)
    } else if 65 <= a && a <= 70 {
        Some(a - 55)
    } else {
        None
    }
}

/// Interpret two hexadecimal digits as a byte, `a` being the high nybble.
pub fn to_byte(a: u8, b: u8) -> (r: Option<u8>)
    ensures
        r == (match (hex_value(a), hex_value(b)) {
            (Some(h), Some(l)) => Some(nybbles_to_byte(h, l)),
            _ => None,
        }),
{
    let h = to_nybble(a)?;
    let l = to_nybble(b)?;
    assert((h << 4u8) | l == h * 16 + l) by (bit_vector)
        requires
            h < 16,
            l < 16,
    ;
    Some((h << 4) | l)
}

} // verus!
