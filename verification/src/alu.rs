use vstd::prelude::*;

verus! {

/// The sum of two registers modulo 256, and 1 if it did not fit eight bits,
/// else 0.
pub fn add_with_carry(a: u8, b: u8) -> (r: (u8, u8))
    ensures
        r.0 == (a + b) % 0x100,
        r.1 == if a + b > 0xFF { 1u8 } else { 0u8 },
{
    let sum: u16 = a as u16 + b as u16;
    let carry: u8 = if sum > 0xFF {
        1
    } else {
        0
    };
    assert(sum & 0xFF == sum % 0x100) by (bit_vector);
    ((sum & 0xFF) as u8, carry)
}

/// The difference `a - b` modulo 256, and 1 if nothing had to be borrowed
/// (`a >= b`), else 0.
pub fn sub_with_borrow(a: u8, b: u8) -> (r: (u8, u8))
    ensures
        r.0 == (a - b) % 0x100,
        r.1 == if a >= b { 1u8 } else { 0u8 },
{
    let no_borrow: u8 = if a >= b {
        1
    } else {
        0
    };
    (a.wrapping_sub(b), no_borrow)
}

/// Half of `a`, and the low bit that the shift pushed out.
pub fn shift_right(a: u8) -> (r: (u8, u8))
    ensures
        r.0 == a / 2,
        r.1 == a % 2,
{
    assert(a & 0x01 == a % 2) by (bit_vector);
    (a / 2, a & 0x01)
}

/// Twice `a` modulo 256, and the high bit that the shift pushed out.
pub fn shift_left(a: u8) -> (r: (u8, u8))
    ensures
        r.0 == (a * 2) % 0x100,
        r.1 == a / 0x80,
{
    assert((a & 0x80) >> 7 == a / 0x80) by (bit_vector);
    (a.wrapping_mul(2), (a & 0x80) >> 7)
}

/// The hundreds, tens and ones of `v` written in decimal.
pub fn bcd_digits(v: u8) -> (r: (u8, u8, u8))
    ensures
        r.0 == v / 100,
        r.1 == v / 10 % 10,
        r.2 == v % 10,
        v == 100 * r.0 + 10 * r.1 + r.2,
        r.0 < 10 && r.1 < 10 && r.2 < 10,
{
    let h: u8 = v / 100;
    let t: u8 = (v % 100) / 10;
    let o: u8 = v % 10;
    assert((v % 100) / 10 == v / 10 % 10) by (bit_vector);
    (h, t, o)
}

} // verus!
