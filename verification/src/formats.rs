//! Operand formats: the per-shape operand records of the instruction set,
//! and the little-endian joins and nibble splits the decoder uses, with
//! their round-trip lemmas.

use vstd::prelude::*;

verus! {

/// Little-endian 16-bit join.
pub open spec fn le16(b0: u8, b1: u8) -> u16 {
    (b0 as u16) | ((b1 as u16) << 8)
}

/// Little-endian 32-bit join.
pub open spec fn le32(b0: u8, b1: u8, b2: u8, b3: u8) -> u32 {
    (b0 as u32) | ((b1 as u32) << 8) | ((b2 as u32) << 16) | ((b3 as u32) << 24)
}

/// Little-endian 64-bit join.
pub open spec fn le64(b0: u8, b1: u8, b2: u8, b3: u8, b4: u8, b5: u8, b6: u8, b7: u8) -> u64 {
    (b0 as u64) | ((b1 as u64) << 8) | ((b2 as u64) << 16) | ((b3 as u64) << 24) | ((b4 as u64)
        << 32) | ((b5 as u64) << 40) | ((b6 as u64) << 48) | ((b7 as u64) << 56)
}

/// The low nibble of a byte.
pub open spec fn lo_nib(b: u8) -> u8 {
    b & 0xf
}

/// The high nibble of a byte.
pub open spec fn hi_nib(b: u8) -> u8 {
    b >> 4
}

/// The low byte of a 16-bit word.
pub open spec fn lo8(w: u16) -> u8 {
    (w & 0xff) as u8
}

/// The high byte of a 16-bit word.
pub open spec fn hi8(w: u16) -> u8 {
    (w >> 8) as u8
}

/// Byte `k` (little-endian) of a 32-bit word.
pub open spec fn byte32(w: u32, k: int) -> u8 {
    if k == 0 {
        (w & 0xff) as u8
    } else if k == 1 {
        ((w >> 8) & 0xff) as u8
    } else if k == 2 {
        ((w >> 16) & 0xff) as u8
    } else {
        ((w >> 24) & 0xff) as u8
    }
}

/// Byte `k` (little-endian) of a 64-bit word.
pub open spec fn byte64(w: u64, k: int) -> u8 {
    ((w >> (8 * k)) & 0xff) as u8
}

/// A byte splits into its nibbles and they join back to it.
pub proof fn lemma_nibbles(b: u8)
    ensures
        lo_nib(b) < 16,
        hi_nib(b) < 16,
        (lo_nib(b) | (hi_nib(b) << 4)) == b,
{
    assert((b & 0xf) < 16 && (b >> 4) < 16 && ((b & 0xf) | ((b >> 4) << 4)) == b) by (bit_vector);
}

/// A 16-bit word splits into bytes and they join back to it, and joining
/// bytes then splitting gives the bytes back.
pub proof fn lemma_split16(w: u16, b0: u8, b1: u8)
    ensures
        le16(lo8(w), hi8(w)) == w,
        lo8(le16(b0, b1)) == b0,
        hi8(le16(b0, b1)) == b1,
{
    assert((((w & 0xff) as u8) as u16 | (((w >> 8) as u8) as u16) << 8) == w) by (bit_vector);
    assert(((((b0 as u16) | ((b1 as u16) << 8)) & 0xff) as u8) == b0) by (bit_vector);
    assert(((((b0 as u16) | ((b1 as u16) << 8)) >> 8) as u8) == b1) by (bit_vector);
}

/// A 32-bit word splits into bytes and they join back to it, and joining
/// bytes then splitting gives the bytes back.
pub proof fn lemma_split32(w: u32, b0: u8, b1: u8, b2: u8, b3: u8)
    ensures
        le32(byte32(w, 0), byte32(w, 1), byte32(w, 2), byte32(w, 3)) == w,
        byte32(le32(b0, b1, b2, b3), 0) == b0,
        byte32(le32(b0, b1, b2, b3), 1) == b1,
        byte32(le32(b0, b1, b2, b3), 2) == b2,
        byte32(le32(b0, b1, b2, b3), 3) == b3,
{
    assert((((w & 0xff) as u8) as u32 | ((((w >> 8) & 0xff) as u8) as u32) << 8 | ((((w >> 16)
        & 0xff) as u8) as u32) << 16 | ((((w >> 24) & 0xff) as u8) as u32) << 24) == w)
        by (bit_vector);
    assert(((((b0 as u32) | ((b1 as u32) << 8) | ((b2 as u32) << 16) | ((b3 as u32) << 24)) & 0xff)
        as u8) == b0) by (bit_vector);
    assert(


        (((((b0 as u32) | ((b1 as u32) << 8) | ((b2 as u32) << 16) | ((b3 as u32) << 24)) >> 8)
        & 0xff) as u8) == b1) by (bit_vector);
    assert(


        (((((b0 as u32) | ((b1 as u32) << 8) | ((b2 as u32) << 16) | ((b3 as u32) << 24)) >> 16)
        & 0xff) as u8) == b2) by (bit_vector);
    assert(


        (((((b0 as u32) | ((b1 as u32) << 8) | ((b2 as u32) << 16) | ((b3 as u32) << 24)) >> 24)
        & 0xff) as u8) == b3) by (bit_vector);
}

/// A 64-bit word splits into bytes and they join back to it, and joining
/// bytes then splitting gives the bytes back.
pub proof fn lemma_split64(w: u64, b0: u8, b1: u8, b2: u8, b3: u8, b4: u8, b5: u8, b6: u8, b7: u8)
    ensures
        le64(
            byte64(w, 0),
            byte64(w, 1),
            byte64(w, 2),
            byte64(w, 3),
            byte64(w, 4),
            byte64(w, 5),
            byte64(w, 6),
            byte64(w, 7),
        ) == w,
        byte64(le64(b0, b1, b2, b3, b4, b5, b6, b7), 0) == b0,
        byte64(le64(b0, b1, b2, b3, b4, b5, b6, b7), 1) == b1,
        byte64(le64(b0, b1, b2, b3, b4, b5, b6, b7), 2) == b2,
        byte64(le64(b0, b1, b2, b3, b4, b5, b6, b7), 3) == b3,
        byte64(le64(b0, b1, b2, b3, b4, b5, b6, b7), 4) == b4,
        byte64(le64(b0, b1, b2, b3, b4, b5, b6, b7), 5) == b5,
        byte64(le64(b0, b1, b2, b3, b4, b5, b6, b7), 6) == b6,
        byte64(le64(b0, b1, b2, b3, b4, b5, b6, b7), 7) == b7,
{
    assert(((((w >> 0) & 0xff) as u8) as u64 | ((((w >> 8) & 0xff) as u8) as u64) << 8 | ((((w
        >> 16) & 0xff) as u8) as u64) << 16 | ((((w >> 24) & 0xff) as u8) as u64) << 24 | ((((w
        >> 32) & 0xff) as u8) as u64) << 32 | ((((w >> 40) & 0xff) as u8) as u64) << 40 | ((((w
        >> 48) & 0xff) as u8) as u64) << 48 | ((((w >> 56) & 0xff) as u8) as u64) << 56) == w)
        by (bit_vector);
    let j = le64(b0, b1, b2, b3, b4, b5, b6, b7);
    assert({
        let j = (b0 as u64) | ((b1 as u64) << 8) | ((b2 as u64) << 16) | ((b3 as u64) << 24) | ((
        b4 as u64) << 32) | ((b5 as u64) << 40) | ((b6 as u64) << 48) | ((b7 as u64) << 56);
        ((((j >> 0) & 0xff) as u8) == b0) && ((((j >> 8) & 0xff) as u8) == b1) && ((((j >> 16)
            & 0xff) as u8) == b2) && ((((j >> 24) & 0xff) as u8) == b3) && ((((j >> 32) & 0xff)
            as u8) == b4) && ((((j >> 40) & 0xff) as u8) == b5) && ((((j >> 48) & 0xff) as u8)
            == b6) && ((((j >> 56) & 0xff) as u8) == b7)
    }) by (bit_vector);
    assert(byte64(j, 0) == ((j >> 0) & 0xff) as u8);
}

/// Casting between the signed and unsigned views of 16 bits round-trips.
pub proof fn lemma_cast16(w: u16, s: i16)
    ensures
        ((w as i16) as u16) == w,
        ((s as u16) as i16) == s,
{
    assert(((w as i16) as u16) == w) by (bit_vector);
    assert(((s as u16) as i16) == s) by (bit_vector);
}

/// Casting between the signed and unsigned views of 32 bits round-trips.
pub proof fn lemma_cast32(w: u32, s: i32)
    ensures
        ((w as i32) as u32) == w,
        ((s as u32) as i32) == s,
{
    assert(((w as i32) as u32) == w) by (bit_vector);
    assert(((s as u32) as i32) == s) by (bit_vector);
}

/// Casting between the signed and unsigned views of 8 bits round-trips.
pub proof fn lemma_cast8(w: u8, s: i8)
    ensures
        ((w as i8) as u8) == w,
        ((s as u8) as i8) == s,
{
    assert(((w as i8) as u8) == w) by (bit_vector);
    assert(((s as u8) as i8) == s) by (bit_vector);
}

/// Join two bytes little-endian.
pub fn join16(b0: u8, b1: u8) -> (w: u16)
    ensures
        w == le16(b0, b1),
{
    (b0 as u16) | ((b1 as u16) << 8)
}

/// Join four bytes little-endian.
pub fn join32(b0: u8, b1: u8, b2: u8, b3: u8) -> (w: u32)
    ensures
        w == le32(b0, b1, b2, b3),
{
    (b0 as u32) | ((b1 as u32) << 8) | ((b2 as u32) << 16) | ((b3 as u32) << 24)
}

/// Join eight bytes little-endian.
pub fn join64(b0: u8, b1: u8, b2: u8, b3: u8, b4: u8, b5: u8, b6: u8, b7: u8) -> (w: u64)
    ensures
        w == le64(b0, b1, b2, b3, b4, b5, b6, b7),
{
    (b0 as u64) | ((b1 as u64) << 8) | ((b2 as u64) << 16) | ((b3 as u64) << 24) | ((b4 as u64)
        << 32) | ((b5 as u64) << 40) | ((b6 as u64) << 48) | ((b7 as u64) << 56)
}

/// Split a byte into its low and high nibbles.
pub fn split_byte(b: u8) -> (r: (u8, u8))
    ensures
        r.0 == lo_nib(b),
        r.1 == hi_nib(b),
        r.0 < 16,
        r.1 < 16,
{
    proof {
        lemma_nibbles(b);
    }
    (b & 0xf, b >> 4)
}

/// A signed 8-bit branch offset.
#[derive(Clone, Copy, Debug, PartialEq, Eq)]
pub struct IF10t(pub i8);

/// A signed 16-bit branch offset.
#[derive(Clone, Copy, Debug, PartialEq, Eq)]
pub struct IF20t(pub i16);

/// A signed 32-bit branch offset.
#[derive(Clone, Copy, Debug, PartialEq, Eq)]
pub struct IF30t(pub i32);

/// No operands.
#[derive(Clone, Copy, Debug, PartialEq, Eq)]
pub struct IF10x();

/// A register nibble and a signed literal nibble.
#[derive(Clone, Copy, Debug, PartialEq, Eq)]
pub struct IF11n(pub u8, pub u8);

/// A register byte and a signed 16-bit literal.
#[derive(Clone, Copy, Debug, PartialEq, Eq)]
pub struct IF21s(pub u8, pub i16);

/// A register byte and the high 16 bits of a literal.
#[derive(Clone, Copy, Debug, PartialEq, Eq)]
pub struct IF21h(pub u8, pub u16);

/// A register byte and a 32-bit literal.
#[derive(Clone, Copy, Debug, PartialEq, Eq)]
pub struct IF31i(pub u8, pub u32);

/// A register byte and a 64-bit literal.
#[derive(Clone, Copy, Debug, PartialEq, Eq)]
pub struct IF51l(pub u8, pub u64);

/// A single register byte.
#[derive(Clone, Copy, Debug, PartialEq, Eq)]
pub struct IF11x(pub u8);

/// Two register nibbles.
#[derive(Clone, Copy, Debug, PartialEq, Eq)]
pub struct IF12x(pub u8, pub u8);

/// A register byte and a 16-bit register number.
#[derive(Clone, Copy, Debug, PartialEq, Eq)]
pub struct IF22x(pub u8, pub u16);

/// Three register bytes.
#[derive(Clone, Copy, Debug, PartialEq, Eq)]
pub struct IF23x(pub u8, pub u8, pub u8);

/// Two 16-bit register numbers.
#[derive(Clone, Copy, Debug, PartialEq, Eq)]
pub struct IF32x(pub u16, pub u16);

/// A register byte and a 16-bit pool index.
#[derive(Clone, Copy, Debug, PartialEq, Eq)]
pub struct IF21c(pub u8, pub u16);

/// A register byte and a 32-bit pool index.
#[derive(Clone, Copy, Debug, PartialEq, Eq)]
pub struct IF31c(pub u8, pub u32);

/// A register byte and a 16-bit branch target.
#[derive(Clone, Copy, Debug, PartialEq, Eq)]
pub struct IF21t(pub u8, pub u16);

/// A register byte and a 32-bit payload offset.
#[derive(Clone, Copy, Debug, PartialEq, Eq)]
pub struct IF31t(pub u8, pub u32);

/// Two register bytes and a signed 8-bit literal.
#[derive(Clone, Copy, Debug, PartialEq, Eq)]
pub struct IF22b(pub u8, pub u8, pub i8);

/// Two register nibbles and a signed 16-bit literal.
#[derive(Clone, Copy, Debug, PartialEq, Eq)]
pub struct IF22s(pub u8, pub u8, pub i16);

/// Two register nibbles and a 16-bit pool index.
#[derive(Clone, Copy, Debug, PartialEq, Eq)]
pub struct IF22c(pub u8, pub u8, pub u16);

/// Two register nibbles and a signed 16-bit branch offset.
#[derive(Clone, Copy, Debug, PartialEq, Eq)]
pub struct IF22t(pub u8, pub u8, pub i16);

/// A 16-bit pool index, an argument count nibble and five register nibbles.
#[derive(Clone, Copy, Debug, PartialEq, Eq)]
pub struct IF35c(pub u16, pub u8, pub u8, pub u8, pub u8, pub u8, pub u8);

/// A 16-bit pool index, a 16-bit first register and a register count.
#[derive(Clone, Copy, Debug, PartialEq, Eq)]
pub struct IF3rc(pub u16, pub u16, pub u8);

/// An unused opcode.
#[derive(Clone, Copy, Debug, PartialEq, Eq)]
pub struct IF00x();

/// An error byte and a 16-bit pool index.
#[derive(Clone, Copy, Debug, PartialEq, Eq)]
pub struct IF20bc(pub u8, pub u16);

/// Two register nibbles and a 16-bit field offset.
#[derive(Clone, Copy, Debug, PartialEq, Eq)]
pub struct IF22cs(pub u8, pub u8, pub u16);

/// The inline-call twin of the 35c shape.
#[derive(Clone, Copy, Debug, PartialEq, Eq)]
pub struct IF35mi(pub u16, pub u8, pub u8, pub u8, pub u8, pub u8, pub u8);

/// The quick-call twin of the 35c shape.
#[derive(Clone, Copy, Debug, PartialEq, Eq)]
pub struct IF35ms(pub u16, pub u8, pub u8, pub u8, pub u8, pub u8, pub u8);

/// The inline-call twin of the 3rc shape.
#[derive(Clone, Copy, Debug, PartialEq, Eq)]
pub struct IF3rmi(pub u16, pub u16, pub u8);

/// The quick-call twin of the 3rc shape.
#[derive(Clone, Copy, Debug, PartialEq, Eq)]
pub struct IF3rms(pub u16, pub u16, pub u8);

/// A packed-switch payload: test register, first key, and branch targets.
#[derive(Clone, Debug, PartialEq, Eq)]
pub struct IFPackedSwitch(pub u8, pub i32, pub Vec<i32>);

/// A sparse-switch payload: test register and key/target pairs.
#[derive(Clone, Debug, PartialEq, Eq)]
pub struct IFSparseSwitch(pub u8, pub Vec<(i32, i32)>);

/// An array-data payload: array register, element width, and raw bytes.
#[derive(Clone, Debug, PartialEq, Eq)]
pub struct IFFillArrayData(pub u8, pub u16, pub Vec<u8>);

} // verus!
