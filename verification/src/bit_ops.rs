//! Bit operations on Pico-8 numbers: 16.16 fixed point, held here as their
//! 32 bits.

use vstd::prelude::*;

verus! {

/// The 32 bits of a fixed-point number.
pub open spec fn bits_of(a: i32) -> u32 {
    a as u32
}

/// `shl(a, b)`: the bits shifted left by `b`; bits shifted out are lost.
pub fn shl(a: i32, b: u8) -> (r: i32)
    requires
        b < 32,
    ensures
        bits_of(r) == bits_of(a) << (b as u32),
{
    let x = a as u32;
    let y = x << (b as u32);
    assert(y as i32 as u32 == y) by (bit_vector);
    y as i32
}

/// `shr(a, b)`: the bits shifted right by `b`, copying the sign bit in.
pub fn shr(a: i32, b: u8) -> (r: i32)
    requires
        b < 32,
    ensures
        r == a >> (b as u32),
{
    a >> (b as u32)
}

/// `lshr(a, b)`: the bits shifted right by `b`, shifting zeros in.
pub fn lshr(a: i32, b: u8) -> (r: i32)
    requires
        b < 32,
    ensures
        bits_of(r) == bits_of(a) >> (b as u32),
{
    let x = a as u32;
    let y = x >> (b as u32);
    assert(y as i32 as u32 == y) by (bit_vector);
    y as i32
}

/// The bits of `x` rotated right by `b`; a rotation by 0 leaves them.
pub open spec fn rotated_right(x: u32, b: u32) -> u32 {
    if b == 0 {
        x
    } else {
        (x << ((32 - b) as u32)) | (x >> b)
    }
}

/// The bits of `x` rotated left by `b`; a rotation by 0 leaves them.
pub open spec fn rotated_left(x: u32, b: u32) -> u32 {
    if b == 0 {
        x
    } else {
        (x << b) | (x >> ((32 - b) as u32))
    }
}

/// `rotr(a, b)`: the bits rotated right by `b`, below 32.
pub fn rotr(a: i32, b: u8) -> (r: i32)
    requires
        b < 32,
    ensures
        bits_of(r) == rotated_right(bits_of(a), b as u32),
{
    if b == 0 {
        return a;
    }
    let c = a as u32;
    let s = b as u32;
    let d = (c << (32 - s)) | (c >> s);
    assert(d as i32 as u32 == d) by (bit_vector);
    d as i32
}

/// `rotl(a, b)`: the bits rotated left by `b`, below 32.
pub fn rotl(a: i32, b: u8) -> (r: i32)
    requires
        b < 32,
    ensures
        bits_of(r) == rotated_left(bits_of(a), b as u32),
{
    if b == 0 {
        return a;
    }
    let c = a as u32;
    let s = b as u32;
    let d = (c << s) | (c >> (32 - s));
    assert(d as i32 as u32 == d) by (bit_vector);
    d as i32
}

/// Rotating left by `b` undoes rotating right by `b`, and the other way round.
pub proof fn lemma_rotations_undo(x: u32, b: u32)
    requires
        b < 32,
    ensures
        rotated_left(rotated_right(x, b), b) == x,
        rotated_right(rotated_left(x, b), b) == x,
{
    if b != 0 {
        assert(((((x << ((32 - b) as u32)) | (x >> b)) << b) | (((x << ((32 - b) as u32)) | (x
            >> b)) >> ((32 - b) as u32))) == x) by (bit_vector)
            requires
                0 < b < 32,
        ;
        assert(((((x << b) | (x >> ((32 - b) as u32))) << ((32 - b) as u32)) | (((x << b) | (x
            >> ((32 - b) as u32))) >> b)) == x) by (bit_vector)
            requires
                0 < b < 32,
        ;
    }
}

/// A logical shift right of a non-negative number is its arithmetic shift.
pub proof fn lemma_lshr_of_non_negative(a: i32, b: u32)
    requires
        0 <= a,
        b < 32,
    ensures
        ((a as u32) >> b) as i32 == a >> b,
{
    assert(((a as u32) >> b) as i32 == a >> b) by (bit_vector)
        requires
            0 <= a,
            b < 32,
    ;
}

} // verus!
