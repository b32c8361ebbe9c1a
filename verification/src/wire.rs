//! How numbers are laid out on the wire.

use vstd::prelude::*;

verus! {

/// The two bytes of a 16-bit number: two's complement, high byte first.
pub open spec fn be16(x: i16) -> Seq<u8> {
    let u: int = if x >= 0 {
        x as int
    } else {
        x + 0x1_0000
    };
    seq![(u / 256) as u8, (u % 256) as u8]
}

/// The 16-bit number that two bytes stand for, high byte first.
pub open spec fn from_be16(hi: u8, lo: u8) -> i16 {
    let u: int = hi * 256 + lo;
    if u < 0x8000 {
        u as i16
    } else {
        (u - 0x1_0000) as i16
    }
}

/// The 16-bit number whose two bytes stand at `at`.
pub open spec fn i16_at(bytes: Seq<u8>, at: int) -> i16 {
    from_be16(bytes[at], bytes[at + 1])
}

/// The byte of a signed 8-bit number in two's complement.
pub open spec fn byte_of(d: i8) -> u8 {
    if d >= 0 {
        d as u8
    } else {
        (d + 0x100) as u8
    }
}

/// The signed 8-bit number that a byte stands for.
pub open spec fn from_byte(b: u8) -> i8 {
    if b < 0x80 {
        b as i8
    } else {
        (b - 0x100) as i8
    }
}

/// The byte of a flag: 1 for true, 0 for false.
pub open spec fn flag_byte(f: bool) -> u8 {
    if f {
        1
    } else {
        0
    }
}

/// Both layouts lose nothing, in either direction.
pub proof fn lemma_numbers_round_trip(x: i16, hi: u8, lo: u8, d: i8, b: u8)
    ensures
        be16(x).len() == 2,
        from_be16(be16(x)[0], be16(x)[1]) == x,
        be16(from_be16(hi, lo)) == seq![hi, lo],
        from_byte(byte_of(d)) == d,
        byte_of(from_byte(b)) == b,
{
    assert(be16(from_be16(hi, lo)) =~= seq![hi, lo]);
}

/// Appends the two bytes of `x`.
pub fn put_i16(out: &mut Vec<u8>, x: i16)
    ensures
        final(out)@ == old(out)@ + be16(x),
{
    let u: u32 = if x >= 0 {
        x as u32
    } else {
        (x as i32 + 0x1_0000) as u32
    };
    out.push((u / 256) as u8);
    out.push((u % 256) as u8);
    assert(out@ =~= old(out)@ + be16(x));
}

/// Reads the 16-bit number at `at`.
pub(crate) fn get_i16(bytes: &[u8], at: usize) -> (x: i16)
    requires
        at + 2 <= bytes.len(),
    ensures
        x == i16_at(bytes@, at as int),
{
    let u: u32 = bytes[at] as u32 * 256 + bytes[at + 1] as u32;
    if u < 0x8000 {
        u as i16
    } else {
        (u as i32 - 0x1_0000) as i16
    }
}

/// The byte that carries `d`.
pub fn i8_to_byte(d: i8) -> (b: u8)
    ensures
        b == byte_of(d),
{
    if d >= 0 {
        d as u8
    } else {
        (d as i16 + 0x100) as u8
    }
}

/// The signed number that `b` carries.
pub fn byte_to_i8(b: u8) -> (d: i8)
    ensures
        d == from_byte(b),
{
    if b < 0x80 {
        b as i8
    } else {
        (b as i16 - 0x100) as i8
    }
}

} // verus!
