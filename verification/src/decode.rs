//! The instruction decoder: reads a method's packed 16-bit code units and
//! produces one typed instruction per call, with operand fields unpacked to
//! their natural widths.
//!
//! Decoding is exact: for every recognised non-pseudo opcode, the consumed
//! header bytes are recovered by re-serialising the decoded operands
//! ([`encoded`]); only a non-zero filler byte, which the operand record does
//! not keep, is lost. The three data-payload pseudo-instructions are read by
//! jumping to their payload, blanking its bytes so a later pass cannot
//! re-decode them as code, and returning.

use vstd::prelude::*;

use crate::formats::{
    byte32, byte64, hi8, join16, join32, join64, lemma_cast16, lemma_cast32, lemma_cast8,
    lemma_nibbles, lemma_split16, lemma_split32, lemma_split64, lo8, split_byte, IF10t, IF10x,
    IF11n, IF11x, IF12x, IF20t, IF21c, IF21h, IF21s, IF21t, IF22b, IF22c, IF22s, IF22t, IF22x,
    IF23x, IF30t, IF31c, IF31i, IF32x, IF35c, IF3rc, IF51l, IFFillArrayData, IFPackedSwitch,
    IFSparseSwitch,
};
use crate::parser::ParserError;
use crate::queue::InstructionQueue;

verus! {

/// The operand layouts the decoder recognises, plus the three payload
/// pseudo-instructions and the unused opcodes.
#[derive(Clone, Copy, Debug, PartialEq, Eq, Structural)]
pub enum Shape {
    S10x,
    S10t,
    S20t,
    S30t,
    S11n,
    S21s,
    S21h,
    S31i,
    S51l,
    S11x,
    S12x,
    S22x,
    S23x,
    S32x,
    S21c,
    S31c,
    S21t,
    S22b,
    S22s,
    S22c,
    S22t,
    S35c,
    S3rc,
    Packed,
    Sparse,
    Fill,
    Unused,
}

/// The operand layout of each opcode.
pub open spec fn shape_of(op: u8) -> Shape {
    if op == 0x00 {
        Shape::S10x
    } else if op == 0x01 || op == 0x04 || op == 0x07 {
        Shape::S12x
    } else if op == 0x02 || op == 0x05 || op == 0x08 {
        Shape::S22x
    } else if op == 0x03 || op == 0x06 || op == 0x09 {
        Shape::S32x
    } else if 0x0a <= op && op <= 0x0d {
        Shape::S11x
    } else if op == 0x0e {
        Shape::S10x
    } else if 0x0f <= op && op <= 0x11 {
        Shape::S11x
    } else if op == 0x12 {
        Shape::S11n
    } else if op == 0x13 || op == 0x16 {
        Shape::S21s
    } else if op == 0x14 || op == 0x17 {
        Shape::S31i
    } else if op == 0x15 || op == 0x19 {
        Shape::S21h
    } else if op == 0x18 {
        Shape::S51l
    } else if op == 0x1a || op == 0x1c || op == 0x1f || op == 0x22 {
        Shape::S21c
    } else if op == 0x1b {
        Shape::S31c
    } else if op == 0x1d || op == 0x1e {
        Shape::S11x
    } else if op == 0x20 || op == 0x23 {
        Shape::S22c
    } else if op == 0x21 {
        Shape::S12x
    } else if op == 0x24 {
        Shape::S35c
    } else if op == 0x25 {
        Shape::S3rc
    } else if op == 0x26 {
        Shape::Fill
    } else if op == 0x27 {
        Shape::S11x
    } else if op == 0x28 {
        Shape::S10t
    } else if op == 0x29 {
        Shape::S20t
    } else if op == 0x2a {
        Shape::S30t
    } else if op == 0x2b {
        Shape::Packed
    } else if op == 0x2c {
        Shape::Sparse
    } else if 0x2d <= op && op <= 0x31 {
        Shape::S23x
    } else if 0x32 <= op && op <= 0x37 {
        Shape::S22t
    } else if 0x38 <= op && op <= 0x3d {
        Shape::S21t
    } else if 0x3e <= op && op <= 0x43 {
        Shape::Unused
    } else if 0x44 <= op && op <= 0x51 {
        Shape::S23x
    } else if 0x52 <= op && op <= 0x5f {
        Shape::S22c
    } else if 0x60 <= op && op <= 0x6d {
        Shape::S21c
    } else if 0x6e <= op && op <= 0x72 {
        Shape::S35c
    } else if op == 0x73 {
        Shape::Unused
    } else if 0x74 <= op && op <= 0x78 {
        Shape::S3rc
    } else if op == 0x79 || op == 0x7a {
        Shape::Unused
    } else if 0x7b <= op && op <= 0x8f {
        Shape::S12x
    } else if 0x90 <= op && op <= 0xaf {
        Shape::S23x
    } else if 0xb0 <= op && op <= 0xcf {
        Shape::S12x
    } else if 0xd0 <= op && op <= 0xd7 {
        Shape::S22s
    } else if 0xd8 <= op && op <= 0xe2 {
        Shape::S22b
    } else {
        Shape::Unused
    }
}

/// The operand layout of each opcode, computed.
pub fn shape_for(op: u8) -> (s: Shape)
    ensures
        s == shape_of(op),
{
    if op == 0x00 {
        Shape::S10x
    } else if op == 0x01 || op == 0x04 || op == 0x07 {
        Shape::S12x
    } else if op == 0x02 || op == 0x05 || op == 0x08 {
        Shape::S22x
    } else if op == 0x03 || op == 0x06 || op == 0x09 {
        Shape::S32x
    } else if 0x0a <= op && op <= 0x0d {
        Shape::S11x
    } else if op == 0x0e {
        Shape::S10x
    } else if 0x0f <= op && op <= 0x11 {
        Shape::S11x
    } else if op == 0x12 {
        Shape::S11n
    } else if op == 0x13 || op == 0x16 {
        Shape::S21s
    } else if op == 0x14 || op == 0x17 {
        Shape::S31i
    } else if op == 0x15 || op == 0x19 {
        Shape::S21h
    } else if op == 0x18 {
        Shape::S51l
    } else if op == 0x1a || op == 0x1c || op == 0x1f || op == 0x22 {
        Shape::S21c
    } else if op == 0x1b {
        Shape::S31c
    } else if op == 0x1d || op == 0x1e {
        Shape::S11x
    } else if op == 0x20 || op == 0x23 {
        Shape::S22c
    } else if op == 0x21 {
        Shape::S12x
    } else if op == 0x24 {
        Shape::S35c
    } else if op == 0x25 {
        Shape::S3rc
    } else if op == 0x26 {
        Shape::Fill
    } else if op == 0x27 {
        Shape::S11x
    } else if op == 0x28 {
        Shape::S10t
    } else if op == 0x29 {
        Shape::S20t
    } else if op == 0x2a {
        Shape::S30t
    } else if op == 0x2b {
        Shape::Packed
    } else if op == 0x2c {
        Shape::Sparse
    } else if 0x2d <= op && op <= 0x31 {
        Shape::S23x
    } else if 0x32 <= op && op <= 0x37 {
        Shape::S22t
    } else if 0x38 <= op && op <= 0x3d {
        Shape::S21t
    } else if 0x3e <= op && op <= 0x43 {
        Shape::Unused
    } else if 0x44 <= op && op <= 0x51 {
        Shape::S23x
    } else if 0x52 <= op && op <= 0x5f {
        Shape::S22c
    } else if 0x60 <= op && op <= 0x6d {
        Shape::S21c
    } else if 0x6e <= op && op <= 0x72 {
        Shape::S35c
    } else if op == 0x73 {
        Shape::Unused
    } else if 0x74 <= op && op <= 0x78 {
        Shape::S3rc
    } else if op == 0x79 || op == 0x7a {
        Shape::Unused
    } else if 0x7b <= op && op <= 0x8f {
        Shape::S12x
    } else if 0x90 <= op && op <= 0xaf {
        Shape::S23x
    } else if 0xb0 <= op && op <= 0xcf {
        Shape::S12x
    } else if 0xd0 <= op && op <= 0xd7 {
        Shape::S22s
    } else if 0xd8 <= op && op <= 0xe2 {
        Shape::S22b
    } else {
        Shape::Unused
    }
}

/// How many operand bytes follow the opcode byte of a non-pseudo shape.
pub open spec fn operand_len(s: Shape) -> int {
    match s {
        Shape::S10x => 1,
        Shape::S10t => 1,
        Shape::S20t => 3,
        Shape::S30t => 5,
        Shape::S11n => 1,
        Shape::S21s => 3,
        Shape::S21h => 3,
        Shape::S31i => 5,
        Shape::S51l => 9,
        Shape::S11x => 1,
        Shape::S12x => 1,
        Shape::S22x => 3,
        Shape::S23x => 3,
        Shape::S32x => 5,
        Shape::S21c => 3,
        Shape::S31c => 5,
        Shape::S21t => 3,
        Shape::S22b => 3,
        Shape::S22s => 3,
        Shape::S22c => 3,
        Shape::S22t => 3,
        Shape::S35c => 5,
        Shape::S3rc => 5,
        Shape::Packed => 5,
        Shape::Sparse => 5,
        Shape::Fill => 5,
        Shape::Unused => 0,
    }
}

/// How many operand bytes follow the opcode byte, computed.
pub fn operand_count(s: Shape) -> (n: usize)
    ensures
        n == operand_len(s),
{
    match s {
        Shape::S10x => 1,
        Shape::S10t => 1,
        Shape::S20t => 3,
        Shape::S30t => 5,
        Shape::S11n => 1,
        Shape::S21s => 3,
        Shape::S21h => 3,
        Shape::S31i => 5,
        Shape::S51l => 9,
        Shape::S11x => 1,
        Shape::S12x => 1,
        Shape::S22x => 3,
        Shape::S23x => 3,
        Shape::S32x => 5,
        Shape::S21c => 3,
        Shape::S31c => 5,
        Shape::S21t => 3,
        Shape::S22b => 3,
        Shape::S22s => 3,
        Shape::S22c => 3,
        Shape::S22t => 3,
        Shape::S35c => 5,
        Shape::S3rc => 5,
        Shape::Packed => 5,
        Shape::Sparse => 5,
        Shape::Fill => 5,
        Shape::Unused => 0,
    }
}

/// Whether a shape carries a filler byte whose value the operand record does
/// not keep: re-serialisation writes it as zero.
pub open spec fn fillered(s: Shape) -> bool {
    s == Shape::S10x || s == Shape::S20t || s == Shape::S30t || s == Shape::S32x
}

/// Whether an opcode is one of the three payload pseudo-instructions.
pub open spec fn is_pseudo(op: u8) -> bool {
    op == 0x26 || op == 0x2b || op == 0x2c
}

/// The decoded operands of one instruction.
#[derive(Debug, PartialEq)]
pub enum InstrArgs {
    A10x(IF10x),
    A10t(IF10t),
    A20t(IF20t),
    A30t(IF30t),
    A11n(IF11n),
    A21s(IF21s),
    A21h(IF21h),
    A31i(IF31i),
    A51l(IF51l),
    A11x(IF11x),
    A12x(IF12x),
    A22x(IF22x),
    A23x(IF23x),
    A32x(IF32x),
    A21c(IF21c),
    A31c(IF31c),
    A21t(IF21t),
    A22b(IF22b),
    A22s(IF22s),
    A22c(IF22c),
    A22t(IF22t),
    A35c(IF35c),
    A3rc(IF3rc),
    Packed(IFPackedSwitch),
    Sparse(IFSparseSwitch),
    Fill(IFFillArrayData),
}

/// One decoded instruction: the opcode and its operands.
#[derive(Debug, PartialEq)]
pub struct AstInstruction {
    pub op: u8,
    pub args: InstrArgs,
}

/// The shape an operand record belongs to.
pub open spec fn args_shape(a: InstrArgs) -> Shape {
    match a {
        InstrArgs::A10x(_) => Shape::S10x,
        InstrArgs::A10t(_) => Shape::S10t,
        InstrArgs::A20t(_) => Shape::S20t,
        InstrArgs::A30t(_) => Shape::S30t,
        InstrArgs::A11n(_) => Shape::S11n,
        InstrArgs::A21s(_) => Shape::S21s,
        InstrArgs::A21h(_) => Shape::S21h,
        InstrArgs::A31i(_) => Shape::S31i,
        InstrArgs::A51l(_) => Shape::S51l,
        InstrArgs::A11x(_) => Shape::S11x,
        InstrArgs::A12x(_) => Shape::S12x,
        InstrArgs::A22x(_) => Shape::S22x,
        InstrArgs::A23x(_) => Shape::S23x,
        InstrArgs::A32x(_) => Shape::S32x,
        InstrArgs::A21c(_) => Shape::S21c,
        InstrArgs::A31c(_) => Shape::S31c,
        InstrArgs::A21t(_) => Shape::S21t,
        InstrArgs::A22b(_) => Shape::S22b,
        InstrArgs::A22s(_) => Shape::S22s,
        InstrArgs::A22c(_) => Shape::S22c,
        InstrArgs::A22t(_) => Shape::S22t,
        InstrArgs::A35c(_) => Shape::S35c,
        InstrArgs::A3rc(_) => Shape::S3rc,
        InstrArgs::Packed(_) => Shape::Packed,
        InstrArgs::Sparse(_) => Shape::Sparse,
        InstrArgs::Fill(_) => Shape::Fill,
    }
}

/// The operand bytes an operand record re-serialises to; filler bytes come
/// out as zero. Payload pseudo-instructions have no byte serialisation here.
pub open spec fn encoded_args(a: InstrArgs) -> Seq<u8> {
    match a {
        InstrArgs::A10x(_) => seq![0u8],
        InstrArgs::A10t(IF10t(o)) => seq![o as u8],
        InstrArgs::A20t(IF20t(o)) => seq![0u8, lo8(o as u16), hi8(o as u16)],
        InstrArgs::A30t(IF30t(o)) => seq![
            0u8,
            byte32(o as u32, 0),
            byte32(o as u32, 1),
            byte32(o as u32, 2),
            byte32(o as u32, 3),
        ],
        InstrArgs::A11n(IF11n(a1, b1)) => seq![a1 | (b1 << 4)],
        InstrArgs::A21s(IF21s(r, l)) => seq![r, lo8(l as u16), hi8(l as u16)],
        InstrArgs::A21h(IF21h(r, w)) => seq![r, lo8(w), hi8(w)],
        InstrArgs::A31i(IF31i(r, w)) => seq![
            r,
            byte32(w, 0),
            byte32(w, 1),
            byte32(w, 2),
            byte32(w, 3),
        ],
        InstrArgs::A51l(IF51l(r, w)) => seq![
            r,
            byte64(w, 0),
            byte64(w, 1),
            byte64(w, 2),
            byte64(w, 3),
            byte64(w, 4),
            byte64(w, 5),
            byte64(w, 6),
            byte64(w, 7),
        ],
        InstrArgs::A11x(IF11x(r)) => seq![r],
        InstrArgs::A12x(IF12x(a1, b1)) => seq![a1 | (b1 << 4)],
        InstrArgs::A22x(IF22x(r, w)) => seq![r, lo8(w), hi8(w)],
        InstrArgs::A23x(IF23x(a1, b1, c1)) => seq![a1, b1, c1],
        InstrArgs::A32x(IF32x(a1, b1)) => seq![0u8, lo8(a1), hi8(a1), lo8(b1), hi8(b1)],
        InstrArgs::A21c(IF21c(r, w)) => seq![r, lo8(w), hi8(w)],
        InstrArgs::A31c(IF31c(r, w)) => seq![
            r,
            byte32(w, 0),
            byte32(w, 1),
            byte32(w, 2),
            byte32(w, 3),
        ],
        InstrArgs::A21t(IF21t(r, w)) => seq![r, lo8(w), hi8(w)],
        InstrArgs::A22b(IF22b(a1, b1, l)) => seq![a1, b1, l as u8],
        InstrArgs::A22s(IF22s(a1, b1, l)) => seq![a1 | (b1 << 4), lo8(l as u16), hi8(l as u16)],
        InstrArgs::A22c(IF22c(a1, b1, w)) => seq![a1 | (b1 << 4), lo8(w), hi8(w)],
        InstrArgs::A22t(IF22t(a1, b1, l)) => seq![a1 | (b1 << 4), lo8(l as u16), hi8(l as u16)],
        InstrArgs::A35c(IF35c(b1, count, c1, d1, e1, f1, g1)) => seq![
            g1 | (count << 4),
            lo8(b1),
            hi8(b1),
            c1 | (d1 << 4),
            e1 | (f1 << 4),
        ],
        InstrArgs::A3rc(IF3rc(b1, c1, a1)) => seq![a1, lo8(b1), hi8(b1), lo8(c1), hi8(c1)],
        InstrArgs::Packed(_) => Seq::empty(),
        InstrArgs::Sparse(_) => Seq::empty(),
        InstrArgs::Fill(_) => Seq::empty(),
    }
}

/// The header bytes an instruction re-serialises to.
pub open spec fn encoded(ins: AstInstruction) -> Seq<u8> {
    seq![ins.op] + encoded_args(ins.args)
}

/// A consumed header with its filler byte (the byte after the opcode)
/// zeroed, for the shapes that have one.
pub open spec fn header_normalised(s: Seq<u8>, shape: Shape) -> Seq<u8> {
    if fillered(shape) {
        s.update(1, 0u8)
    } else {
        s
    }
}

/// How many 16-bit words an instruction occupies in the code stream. A
/// payload pseudo-instruction counts only its header; its payload is blanked
/// to no-ops and accounted separately.
pub open spec fn insn_words(ins: AstInstruction) -> int {
    if is_pseudo(ins.op) {
        3
    } else {
        (1 + operand_len(shape_of(ins.op))) / 2
    }
}

/// How many 16-bit words an instruction occupies, computed.
pub fn instruction_length(ins: &AstInstruction) -> (n: usize)
    requires
        args_shape(ins.args) == shape_of(ins.op) || is_pseudo(ins.op),
    ensures
        n == insn_words(*ins),
{
    if ins.op == 0x26 || ins.op == 0x2b || ins.op == 0x2c {
        3
    } else {
        let s = shape_for(ins.op);
        let n = operand_count(s);
        (1 + n) / 2
    }
}

/// Read `n` bytes, failing when the stream ends first.
fn take_bytes(q: &mut InstructionQueue, n: usize) -> (r: Result<Vec<u8>, ParserError>)
    requires
        old(q).wf(),
    ensures
        final(q).wf(),
        final(q).bytes() == old(q).bytes(),
        final(q).marks() == old(q).marks(),
        match r {
            Result::Ok(v) => v@.len() == n && old(q).pos() + n <= old(q).bytes().len() && final(q).pos() == old(q).pos() + n && v@ == old(q).bytes().subrange(
                old(q).pos(),
                old(q).pos() + n,
            ),
            Result::Err(e) => e == ParserError::Truncated,
        },
        old(q).pos() + n <= old(q).bytes().len() ==> r is Ok,
{
    let mut out: Vec<u8> = Vec::new();
    let mut i: usize = 0;
    proof {
        q.lemma_pos_bound();
    }
    #[verifier::loop_isolation(false)]
    while i < n
        invariant
            i <= n,
            out@.len() == i,
            q.wf(),
            q.bytes() == old(q).bytes(),
            q.marks() == old(q).marks(),
            q.pos() == old(q).pos() + i,
            old(q).pos() + i <= old(q).bytes().len(),
            forall|j: int| 0 <= j < i ==> out@[j] == old(q).bytes()[old(q).pos() + j],
        decreases n - i,
    {
        match q.incr() {
            Result::Err(_) => {
                return Result::Err(ParserError::Truncated);
            },
            Result::Ok(b) => {
                out.push(b);
            },
        }
        i = i + 1;
    }
    proof {
        assert(out@ =~= old(q).bytes().subrange(old(q).pos(), old(q).pos() + n));
    }
    Result::Ok(out)
}

/// Read one byte of a payload, blanking it, failing when the stream ends.
fn payload_byte(q: &mut InstructionQueue) -> (r: Result<u8, ParserError>)
    requires
        old(q).wf(),
    ensures
        final(q).wf(),
        final(q).marks() == old(q).marks(),
        final(q).bytes().len() == old(q).bytes().len(),
        match r {
            Result::Ok(_) => final(q).pos() == old(q).pos() + 1,
            Result::Err(e) => e == ParserError::Truncated && final(q).bytes() == old(q).bytes()
                && final(q).pos() == old(q).pos(),
        },
{
    match q.incr_nop() {
        Result::Err(_) => Result::Err(ParserError::Truncated),
        Result::Ok(b) => Result::Ok(b),
    }
}

/// Decode the operand bytes of a non-pseudo shape.
fn decode_args(shape: Shape, bytes: &Vec<u8>) -> (a: InstrArgs)
    requires
        shape != Shape::Packed,
        shape != Shape::Sparse,
        shape != Shape::Fill,
        shape != Shape::Unused,
        bytes@.len() == operand_len(shape),
    ensures
        args_shape(a) == shape,
        encoded_args(a) == (if fillered(shape) {
            bytes@.update(0, 0u8)
        } else {
            bytes@
        }),
{
    match shape {
        Shape::S10x => {
            let a = InstrArgs::A10x(IF10x());
            proof {
                assert(encoded_args(a) =~= bytes@.update(0, 0u8));
            }
            a
        },
        Shape::S10t => {
            let a = InstrArgs::A10t(IF10t(#[verifier::truncate] (bytes[0] as i8)));
            proof {
                lemma_cast8(bytes@[0], 0);
                assert(encoded_args(a) =~= bytes@);
            }
            a
        },
        Shape::S20t => {
            let w = join16(bytes[1], bytes[2]);
            let a = InstrArgs::A20t(IF20t(#[verifier::truncate] (w as i16)));
            proof {
                lemma_cast16(w, 0);
                lemma_split16(w, bytes@[1], bytes@[2]);
                assert(encoded_args(a) =~= bytes@.update(0, 0u8));
            }
            a
        },
        Shape::S30t => {
            let w = join32(bytes[1], bytes[2], bytes[3], bytes[4]);
            let a = InstrArgs::A30t(IF30t(#[verifier::truncate] (w as i32)));
            proof {
                lemma_cast32(w, 0);
                lemma_split32(w, bytes@[1], bytes@[2], bytes@[3], bytes@[4]);
                assert(encoded_args(a) =~= bytes@.update(0, 0u8));
            }
            a
        },
        Shape::S11n => {
            let (lo, hi) = split_byte(bytes[0]);
            let a = InstrArgs::A11n(IF11n(lo, hi));
            proof {
                lemma_nibbles(bytes@[0]);
                assert(encoded_args(a) =~= bytes@);
            }
            a
        },
        Shape::S21s => {
            let w = join16(bytes[1], bytes[2]);
            let a = InstrArgs::A21s(IF21s(bytes[0], #[verifier::truncate] (w as i16)));
            proof {
                lemma_cast16(w, 0);
                lemma_split16(w, bytes@[1], bytes@[2]);
                assert(encoded_args(a) =~= bytes@);
            }
            a
        },
        Shape::S21h => {
            let w = join16(bytes[1], bytes[2]);
            let a = InstrArgs::A21h(IF21h(bytes[0], w));
            proof {
                lemma_split16(w, bytes@[1], bytes@[2]);
                assert(encoded_args(a) =~= bytes@);
            }
            a
        },
        Shape::S31i => {
            let w = join32(bytes[1], bytes[2], bytes[3], bytes[4]);
            let a = InstrArgs::A31i(IF31i(bytes[0], w));
            proof {
                lemma_split32(w, bytes@[1], bytes@[2], bytes@[3], bytes@[4]);
                assert(encoded_args(a) =~= bytes@);
            }
            a
        },
        Shape::S51l => {
            let w = join64(
                bytes[1],
                bytes[2],
                bytes[3],
                bytes[4],
                bytes[5],
                bytes[6],
                bytes[7],
                bytes[8],
            );
            let a = InstrArgs::A51l(IF51l(bytes[0], w));
            proof {
                lemma_split64(
                    w,
                    bytes@[1],
                    bytes@[2],
                    bytes@[3],
                    bytes@[4],
                    bytes@[5],
                    bytes@[6],
                    bytes@[7],
                    bytes@[8],
                );
                assert(encoded_args(a) =~= bytes@);
            }
            a
        },
        Shape::S11x => {
            let a = InstrArgs::A11x(IF11x(bytes[0]));
            proof {
                assert(encoded_args(a) =~= bytes@);
            }
            a
        },
        Shape::S12x => {
            let (lo, hi) = split_byte(bytes[0]);
            let a = InstrArgs::A12x(IF12x(lo, hi));
            proof {
                lemma_nibbles(bytes@[0]);
                assert(encoded_args(a) =~= bytes@);
            }
            a
        },
        Shape::S22x => {
            let w = join16(bytes[1], bytes[2]);
            let a = InstrArgs::A22x(IF22x(bytes[0], w));
            proof {
                lemma_split16(w, bytes@[1], bytes@[2]);
                assert(encoded_args(a) =~= bytes@);
            }
            a
        },
        Shape::S23x => {
            let a = InstrArgs::A23x(IF23x(bytes[0], bytes[1], bytes[2]));
            proof {
                assert(encoded_args(a) =~= bytes@);
            }
            a
        },
        Shape::S32x => {
            let w1 = join16(bytes[1], bytes[2]);
            let w2 = join16(bytes[3], bytes[4]);
            let a = InstrArgs::A32x(IF32x(w1, w2));
            proof {
                lemma_split16(w1, bytes@[1], bytes@[2]);
                lemma_split16(w2, bytes@[3], bytes@[4]);
                assert(encoded_args(a) =~= bytes@.update(0, 0u8));
            }
            a
        },
        Shape::S21c => {
            let w = join16(bytes[1], bytes[2]);
            let a = InstrArgs::A21c(IF21c(bytes[0], w));
            proof {
                lemma_split16(w, bytes@[1], bytes@[2]);
                assert(encoded_args(a) =~= bytes@);
            }
            a
        },
        Shape::S31c => {
            let w = join32(bytes[1], bytes[2], bytes[3], bytes[4]);
            let a = InstrArgs::A31c(IF31c(bytes[0], w));
            proof {
                lemma_split32(w, bytes@[1], bytes@[2], bytes@[3], bytes@[4]);
                assert(encoded_args(a) =~= bytes@);
            }
            a
        },
        Shape::S21t => {
            let w = join16(bytes[1], bytes[2]);
            let a = InstrArgs::A21t(IF21t(bytes[0], w));
            proof {
                lemma_split16(w, bytes@[1], bytes@[2]);
                assert(encoded_args(a) =~= bytes@);
            }
            a
        },
        Shape::S22b => {
            let a = InstrArgs::A22b(
                IF22b(bytes[0], bytes[1], #[verifier::truncate] (bytes[2] as i8)),
            );
            proof {
                lemma_cast8(bytes@[2], 0);
                assert(encoded_args(a) =~= bytes@);
            }
            a
        },
        Shape::S22s => {
            let (lo, hi) = split_byte(bytes[0]);
            let w = join16(bytes[1], bytes[2]);
            let a = InstrArgs::A22s(IF22s(lo, hi, #[verifier::truncate] (w as i16)));
            proof {
                lemma_nibbles(bytes@[0]);
                lemma_cast16(w, 0);
                lemma_split16(w, bytes@[1], bytes@[2]);
                assert(encoded_args(a) =~= bytes@);
            }
            a
        },
        Shape::S22c => {
            let (lo, hi) = split_byte(bytes[0]);
            let w = join16(bytes[1], bytes[2]);
            let a = InstrArgs::A22c(IF22c(lo, hi, w));
            proof {
                lemma_nibbles(bytes@[0]);
                lemma_split16(w, bytes@[1], bytes@[2]);
                assert(encoded_args(a) =~= bytes@);
            }
            a
        },
        Shape::S22t => {
            let (lo, hi) = split_byte(bytes[0]);
            let w = join16(bytes[1], bytes[2]);
            let a = InstrArgs::A22t(IF22t(lo, hi, #[verifier::truncate] (w as i16)));
            proof {
                lemma_nibbles(bytes@[0]);
                lemma_cast16(w, 0);
                lemma_split16(w, bytes@[1], bytes@[2]);
                assert(encoded_args(a) =~= bytes@);
            }
            a
        },
        Shape::S35c => {
            let (g, count) = split_byte(bytes[0]);
            let b = join16(bytes[1], bytes[2]);
            let (c, d) = split_byte(bytes[3]);
            let (e, f) = split_byte(bytes[4]);
            let a = InstrArgs::A35c(IF35c(b, count, c, d, e, f, g));
            proof {
                lemma_nibbles(bytes@[0]);
                lemma_nibbles(bytes@[3]);
                lemma_nibbles(bytes@[4]);
                lemma_split16(b, bytes@[1], bytes@[2]);
                assert(encoded_args(a) =~= bytes@);
            }
            a
        },
        _ => {
            let w1 = join16(bytes[1], bytes[2]);
            let w2 = join16(bytes[3], bytes[4]);
            let a = InstrArgs::A3rc(IF3rc(w1, w2, bytes[0]));
            proof {
                lemma_split16(w1, bytes@[1], bytes@[2]);
                lemma_split16(w2, bytes@[3], bytes@[4]);
                assert(encoded_args(a) =~= bytes@);
            }
            a
        },
    }
}

/// Read a payload pseudo-instruction's header and compute the jump to its
/// payload: the register operand and the word offset, already validated.
fn read_payload_header(q: &mut InstructionQueue) -> (r: Result<(u8, i32), ParserError>)
    requires
        old(q).wf(),
        old(q).pos() >= 1,
    ensures
        final(q).wf(),
        match r {
            Result::Ok(_) => final(q).bytes() == old(q).bytes() && final(q).marks() == old(
                q,
            ).marks().push((old(q).pos() + 4) as usize) && old(q).pos() + 5 <= old(
                q,
            ).bytes().len() && old(q).pos() + 5 <= usize::MAX,
            Result::Err(e) => final(q).bytes().len() == old(q).bytes().len() && final(q).marks()
                == old(q).marks() && e != ParserError::EOF,
        },
{
    let hdr = match take_bytes(q, 5) {
        Result::Err(e) => {
            return Result::Err(e);
        },
        Result::Ok(v) => v,
    };
    proof {
        q.lemma_pos_bound();
    }
    let reg = hdr[0];
    let off_u = join32(hdr[1], hdr[2], hdr[3], hdr[4]);
    if off_u >= 0x4000_0000 {
        // A negative offset once reinterpreted, or one too large to address
        // anything: both are ill-formed.
        if off_u >= 0x8000_0000 {
            return Result::Err(ParserError::NegativeOffset);
        }
        return Result::Err(ParserError::OffsetOutOfRange);
    }
    let off = off_u as i32;
    match q.jmp(off * 2 - 5) {
        Result::Err(e) => {
            match e {
                ParserError::EOF => Result::Err(ParserError::OffsetOutOfRange),
                other => Result::Err(other),
            }
        },
        Result::Ok(_) => Result::Ok((reg, off)),
    }
}

/// Check the two-byte payload magic, blanking it.
fn expect_magic(q: &mut InstructionQueue, second: u8) -> (r: Result<(), ParserError>)
    requires
        old(q).wf(),
    ensures
        final(q).wf(),
        final(q).marks() == old(q).marks(),
        final(q).bytes().len() == old(q).bytes().len(),
        r is Ok ==> final(q).pos() == old(q).pos() + 2,
        r matches Result::Err(e) ==> e != ParserError::EOF,
{
    let m0 = match payload_byte(q) {
        Result::Err(e) => {
            return Result::Err(e);
        },
        Result::Ok(b) => b,
    };
    if m0 != 0x00 {
        return Result::Err(ParserError::BadMagic);
    }
    let m1 = match payload_byte(q) {
        Result::Err(e) => {
            return Result::Err(e);
        },
        Result::Ok(b) => b,
    };
    if m1 != second {
        return Result::Err(ParserError::BadMagic);
    }
    Result::Ok(())
}

/// Read a blanked little-endian 16-bit payload word.
fn payload_u16(q: &mut InstructionQueue) -> (r: Result<u16, ParserError>)
    requires
        old(q).wf(),
    ensures
        final(q).wf(),
        final(q).marks() == old(q).marks(),
        final(q).bytes().len() == old(q).bytes().len(),
        r matches Result::Err(e) ==> e != ParserError::EOF,
{
    let b0 = match payload_byte(q) {
        Result::Err(e) => {
            return Result::Err(e);
        },
        Result::Ok(b) => b,
    };
    let b1 = match payload_byte(q) {
        Result::Err(e) => {
            return Result::Err(e);
        },
        Result::Ok(b) => b,
    };
    Result::Ok(join16(b0, b1))
}

/// Read a blanked little-endian 32-bit payload word.
fn payload_u32(q: &mut InstructionQueue) -> (r: Result<u32, ParserError>)
    requires
        old(q).wf(),
    ensures
        final(q).wf(),
        final(q).marks() == old(q).marks(),
        final(q).bytes().len() == old(q).bytes().len(),
        r matches Result::Err(e) ==> e != ParserError::EOF,
{
    let b0 = match payload_byte(q) {
        Result::Err(e) => {
            return Result::Err(e);
        },
        Result::Ok(b) => b,
    };
    let b1 = match payload_byte(q) {
        Result::Err(e) => {
            return Result::Err(e);
        },
        Result::Ok(b) => b,
    };
    let b2 = match payload_byte(q) {
        Result::Err(e) => {
            return Result::Err(e);
        },
        Result::Ok(b) => b,
    };
    let b3 = match payload_byte(q) {
        Result::Err(e) => {
            return Result::Err(e);
        },
        Result::Ok(b) => b,
    };
    Result::Ok(join32(b0, b1, b2, b3))
}

/// Decode one instruction from the cursor, or report the end of the stream.
///
/// For a recognised non-pseudo opcode, the consumed header bytes are exactly
/// the decoded operands re-serialised, up to a zeroed filler byte. For a
/// pseudo-instruction, the header is consumed, the payload read and blanked,
/// and the cursor resumes after the header.
#[verifier::rlimit(100)]
pub fn parse_instruction(q: &mut InstructionQueue) -> (r: Result<AstInstruction, ParserError>)
    requires
        old(q).wf(),
    ensures
        final(q).wf(),
        match r {
            Result::Ok(ins) => {
                &&& old(q).pos() < old(q).bytes().len()
                &&& ins.op == old(q).bytes()[old(q).pos()]
                &&& !(shape_of(ins.op) is Unused)
                &&& final(q).bytes().len() == old(q).bytes().len()
                &&& (is_pseudo(ins.op) ==> final(q).pos() == old(q).pos() + 6 && final(q).marks()
                    == old(q).marks() && args_shape(ins.args) == shape_of(ins.op))
                &&& (!is_pseudo(ins.op) ==> {
                    &&& final(q).bytes() == old(q).bytes()
                    &&& final(q).marks() == old(q).marks()
                    &&& final(q).pos() == old(q).pos() + 1 + operand_len(shape_of(ins.op))
                    &&& args_shape(ins.args) == shape_of(ins.op)
                    &&& encoded(ins) == header_normalised(
                        old(q).bytes().subrange(old(q).pos(), final(q).pos()),
                        shape_of(ins.op),
                    )
                })
            },
            Result::Err(e) => e == ParserError::EOF ==> final(q).bytes() == old(q).bytes()
                && final(q).pos() == old(q).pos() && final(q).marks() == old(q).marks() && old(
                q,
            ).pos() >= old(q).bytes().len(),
        },
{
    let ghost q0 = *old(q);
    proof {
        q.lemma_pos_bound();
    }
    let op = match q.incr() {
        Result::Err(e) => {
            return Result::Err(e);
        },
        Result::Ok(b) => b,
    };
    let shape = shape_for(op);
    match shape {
        Shape::Unused => Result::Err(ParserError::BadOpcode),
        Shape::Packed => {
            let (reg, _off) = match read_payload_header(q) {
                Result::Err(e) => {
                    return Result::Err(e);
                },
                Result::Ok(v) => v,
            };
            match expect_magic(q, 0x01) {
                Result::Err(e) => {
                    return Result::Err(e);
                },
                Result::Ok(_) => {},
            }
            let size = match payload_u16(q) {
                Result::Err(e) => {
                    return Result::Err(e);
                },
                Result::Ok(w) => w,
            };
            let fk = match payload_u32(q) {
                Result::Err(e) => {
                    return Result::Err(e);
                },
                Result::Ok(w) => w,
            };
            let first_key = #[verifier::truncate] (fk as i32);
            let mut targets: Vec<i32> = Vec::new();
            let mut i: u16 = 0;
            #[verifier::loop_isolation(false)]
            while i < size
                invariant
                    q.wf(),
                    q.marks() == q0.marks().push((q0.pos() + 5) as usize),
                    q.bytes().len() == q0.bytes().len(),
                decreases size - i,
            {
                let t = match payload_u32(q) {
                    Result::Err(e) => {
                        return Result::Err(e);
                    },
                    Result::Ok(w) => w,
                };
                targets.push(#[verifier::truncate] (t as i32));
                i = i + 1;
            }
            match q.jmp_back() {
                Result::Err(e) => {
                    return Result::Err(e);
                },
                Result::Ok(_) => {},
            }
            Result::Ok(
                AstInstruction { op, args: InstrArgs::Packed(IFPackedSwitch(reg, first_key, targets)) },
            )
        },
        Shape::Sparse => {
            let (reg, _off) = match read_payload_header(q) {
                Result::Err(e) => {
                    return Result::Err(e);
                },
                Result::Ok(v) => v,
            };
            match expect_magic(q, 0x02) {
                Result::Err(e) => {
                    return Result::Err(e);
                },
                Result::Ok(_) => {},
            }
            let size = match payload_u16(q) {
                Result::Err(e) => {
                    return Result::Err(e);
                },
                Result::Ok(w) => w,
            };
            let mut keys: Vec<i32> = Vec::new();
            let mut i: u16 = 0;
            #[verifier::loop_isolation(false)]
            while i < size
                invariant
                    q.wf(),
                    q.marks() == q0.marks().push((q0.pos() + 5) as usize),
                    q.bytes().len() == q0.bytes().len(),
                decreases size - i,
            {
                let k = match payload_u32(q) {
                    Result::Err(e) => {
                        return Result::Err(e);
                    },
                    Result::Ok(w) => w,
                };
                keys.push(#[verifier::truncate] (k as i32));
                i = i + 1;
            }
            let mut pairs: Vec<(i32, i32)> = Vec::new();
            let mut i: usize = 0;
            #[verifier::loop_isolation(false)]
            while i < keys.len()
                invariant
                    q.wf(),
                    q.marks() == q0.marks().push((q0.pos() + 5) as usize),
                    q.bytes().len() == q0.bytes().len(),
                decreases keys@.len() - i,
            {
                let t = match payload_u32(q) {
                    Result::Err(e) => {
                        return Result::Err(e);
                    },
                    Result::Ok(w) => w,
                };
                pairs.push((keys[i], #[verifier::truncate] (t as i32)));
                i = i + 1;
            }
            match q.jmp_back() {
                Result::Err(e) => {
                    return Result::Err(e);
                },
                Result::Ok(_) => {},
            }
            Result::Ok(AstInstruction { op, args: InstrArgs::Sparse(IFSparseSwitch(reg, pairs)) })
        },
        Shape::Fill => {
            let (reg, _off) = match read_payload_header(q) {
                Result::Err(e) => {
                    return Result::Err(e);
                },
                Result::Ok(v) => v,
            };
            match expect_magic(q, 0x03) {
                Result::Err(e) => {
                    return Result::Err(e);
                },
                Result::Ok(_) => {},
            }
            let element_width = match payload_u16(q) {
                Result::Err(e) => {
                    return Result::Err(e);
                },
                Result::Ok(w) => w,
            };
            let size = match payload_u32(q) {
                Result::Err(e) => {
                    return Result::Err(e);
                },
                Result::Ok(w) => w,
            };
            proof {
                assert((size as int) * (element_width as int) < 0x1_0000_0000_0000_0000int)
                    by (nonlinear_arith)
                    requires
                        0 <= size as int <= 0xffff_ffffint,
                        0 <= element_width as int <= 0xffffint,
                ;
            }
            let total: u64 = (size as u64) * (element_width as u64);
            let mut data: Vec<u8> = Vec::new();
            let mut i: u64 = 0;
            #[verifier::loop_isolation(false)]
            while i < total
                invariant
                    q.wf(),
                    q.marks() == q0.marks().push((q0.pos() + 5) as usize),
                    q.bytes().len() == q0.bytes().len(),
                decreases total - i,
            {
                let b = match payload_byte(q) {
                    Result::Err(e) => {
                        return Result::Err(e);
                    },
                    Result::Ok(b) => b,
                };
                data.push(b);
                i = i + 1;
            }
            match q.jmp_back() {
                Result::Err(e) => {
                    return Result::Err(e);
                },
                Result::Ok(_) => {},
            }
            Result::Ok(
                AstInstruction {
                    op,
                    args: InstrArgs::Fill(IFFillArrayData(reg, element_width, data)),
                },
            )
        },
        _ => {
            let n = operand_count(shape);
            let bytes = match take_bytes(q, n) {
                Result::Err(e) => {
                    return Result::Err(e);
                },
                Result::Ok(v) => v,
            };
            let args = decode_args(shape, &bytes);
            let ins = AstInstruction { op, args };
            proof {
                assert(q0.pos() < q0.bytes().len());
                assert(q.pos() == q0.pos() + 1 + n);
                assert(0 <= q0.pos() <= q.pos() <= q0.bytes().len());
                let consumed = q0.bytes().subrange(q0.pos(), q.pos());
                assert(consumed.len() == q.pos() - q0.pos());
                assert(consumed.len() == 1 + n);
                assert(bytes@ =~= consumed.skip(1));
                assert(consumed[0] == op);
                if fillered(shape) {
                    assert(encoded(ins) =~= header_normalised(consumed, shape));
                } else {
                    assert(encoded(ins) =~= consumed);
                }
            }
            Result::Ok(ins)
        },
    }
}

/// One step of the decoding loop: the instruction read at position `p0` of
/// byte stream `b0`, leaving the stream as `b1` at position `p1`. This is
/// exactly what one successful `parse_instruction` call guarantees.
pub open spec fn decode_step(
    b0: Seq<u8>,
    p0: int,
    ins: AstInstruction,
    b1: Seq<u8>,
    p1: int,
) -> bool {
    &&& 0 <= p0 < b0.len()
    &&& ins.op == b0[p0]
    &&& !(shape_of(ins.op) is Unused)
    &&& b1.len() == b0.len()
    &&& (is_pseudo(ins.op) ==> p1 == p0 + 6 && args_shape(ins.args) == shape_of(ins.op))
    &&& (!is_pseudo(ins.op) ==> {
        &&& b1 == b0
        &&& p1 == p0 + 1 + operand_len(shape_of(ins.op))
        &&& args_shape(ins.args) == shape_of(ins.op)
        &&& encoded(ins) == header_normalised(b0.subrange(p0, p1), shape_of(ins.op))
    })
}

/// A whole decoding run: starting from `bytes0` at position zero, each
/// instruction of `insns` is read in turn through the byte-stream chain `bs`
/// at the position chain `ps`, and the run ends at or past the end of the
/// stream.
pub open spec fn decoded_all(
    bytes0: Seq<u8>,
    insns: Seq<AstInstruction>,
    bs: Seq<Seq<u8>>,
    ps: Seq<int>,
) -> bool {
    &&& bs.len() == insns.len() + 1
    &&& ps.len() == insns.len() + 1
    &&& bs[0] == bytes0
    &&& ps[0] == 0
    &&& (forall|i: int|
        0 <= i < insns.len() ==> decode_step(bs[i], ps[i], #[trigger] insns[i], bs[i + 1], ps[i + 1]))
    &&& ps.last() >= bs.last().len()
}

} // verus!
