//! The decoder's cursor over a method's code bytes: read-and-advance,
//! read-and-blank for payload bytes, and a jump stack so the decoder can
//! dive into a payload and resume where it left off.

use vstd::prelude::*;

use crate::dexfile::Code;
use crate::formats::{hi8, lo8};
use crate::parser::ParserError;

verus! {

/// The little-endian serialisation of a word sequence.
pub open spec fn words_to_bytes(s: Seq<u16>) -> Seq<u8> {
    Seq::new(
        2 * s.len(),
        |i: int|
            if i % 2 == 0 {
                lo8(s[i / 2])
            } else {
                hi8(s[i / 2])
            },
    )
}

pub struct InstructionQueue {
    bytecode: Vec<u8>,
    index: usize,
    indexes: Vec<usize>,
}

impl InstructionQueue {
    /// The code bytes, as currently blanked.
    pub closed spec fn bytes(self) -> Seq<u8> {
        self.bytecode@
    }

    /// The position of the next byte to read.
    pub closed spec fn pos(self) -> int {
        self.index as int
    }

    /// The positions saved by jumps, outermost first.
    pub closed spec fn marks(self) -> Seq<usize> {
        self.indexes@
    }

    /// The cursor is never past the stream's end and every saved position is
    /// inside the stream.
    pub closed spec fn wf(self) -> bool {
        self.index <= self.bytecode@.len() && forall|i: int|
            0 <= i < self.indexes@.len() ==> (#[trigger] self.indexes@[i]) < self.bytecode@.len()
    }

    /// A well-formed cursor is inside the stream.
    pub proof fn lemma_pos_bound(&self)
        requires
            self.wf(),
        ensures
            0 <= self.pos() <= self.bytes().len(),
            self.pos() <= usize::MAX,
    {
    }

    /// The cursor starts at the first byte of the little-endian
    /// serialisation of the method's code units.
    pub fn new(code: &Code) -> (q: Self)
        ensures
            q.wf(),
            q.bytes() == words_to_bytes(code.insns@),
            q.pos() == 0,
            q.marks() == Seq::<usize>::empty(),
    {
        let mut instructions_u8: Vec<u8> = Vec::new();
        let mut i: usize = 0;
        let n = code.insns.len();
        #[verifier::loop_isolation(false)]
        while i < n
            invariant
                i <= n,
                instructions_u8@.len() == 2 * i,
                forall|j: int|
                    0 <= j < 2 * i ==> instructions_u8@[j] == words_to_bytes(code.insns@)[j],
            decreases n - i,
        {
            let c = code.insns[i];
            instructions_u8.push((c & 0xff) as u8);
            instructions_u8.push(#[verifier::truncate] ((c >> 8) as u8));
            i = i + 1;
        }
        proof {
            assert(instructions_u8@ =~= words_to_bytes(code.insns@));
        }
        InstructionQueue { bytecode: instructions_u8, index: 0, indexes: Vec::new() }
    }

    /// Read the byte under the cursor and advance. At the end of the stream
    /// nothing changes and the read reports the end.
    pub fn incr(&mut self) -> (r: Result<u8, ParserError>)
        requires
            old(self).wf(),
        ensures
            final(self).wf(),
            final(self).bytes() == old(self).bytes(),
            final(self).marks() == old(self).marks(),
            match r {
                Result::Ok(b) => old(self).pos() < old(self).bytes().len() && b == old(
                    self,
                ).bytes()[old(self).pos()] && final(self).pos() == old(self).pos() + 1,
                Result::Err(e) => e == ParserError::EOF && old(self).pos() >= old(
                    self,
                ).bytes().len() && final(self).pos() == old(self).pos(),
            },
    {
        if self.index >= self.bytecode.len() {
            return Result::Err(ParserError::EOF);
        }
        let b = self.bytecode[self.index];
        self.index = self.index + 1;
        Result::Ok(b)
    }

    /// Read the byte under the cursor, blank it to a no-op, and advance.
    pub fn incr_nop(&mut self) -> (r: Result<u8, ParserError>)
        requires
            old(self).wf(),
        ensures
            final(self).wf(),
            final(self).marks() == old(self).marks(),
            final(self).bytes().len() == old(self).bytes().len(),
            match r {
                Result::Ok(b) => old(self).pos() < old(self).bytes().len() && b == old(
                    self,
                ).bytes()[old(self).pos()] && final(self).pos() == old(self).pos() + 1 && final(self).bytes() == old(self).bytes().update(old(self).pos(), 0u8),
                Result::Err(e) => e == ParserError::EOF && old(self).pos() >= old(
                    self,
                ).bytes().len() && final(self).pos() == old(self).pos() && final(self).bytes()
                    == old(self).bytes(),
            },
    {
        if self.index >= self.bytecode.len() {
            return Result::Err(ParserError::EOF);
        }
        let b = self.bytecode[self.index];
        let ghost prev = self.bytecode@;
        self.bytecode.set(self.index, 0u8);
        proof {
            assert(self.bytecode@.len() == prev.len());
        }
        self.index = self.index + 1;
        Result::Ok(b)
    }

    /// Whether the cursor has reached the end of the stream.
    pub fn is_empty(&self) -> (r: bool)
        ensures
            r == (self.pos() >= self.bytes().len()),
    {
        self.index >= self.bytecode.len()
    }

    /// Jump by `o` bytes, counted from the last byte read, remembering where
    /// to come back to. A target outside the stream is refused: at its very
    /// end with the stream's end report, elsewhere as a range fault.
    pub fn jmp(&mut self, o: i32) -> (r: Result<(), ParserError>)
        requires
            old(self).wf(),
            old(self).pos() >= 1,
        ensures
            final(self).wf(),
            final(self).bytes() == old(self).bytes(),
            match r {
                Result::Ok(_) => final(self).pos() == old(self).pos() - 1 + o && 0 <= final(self).pos() < final(self).bytes().len() && final(self).marks() == old(
                    self,
                ).marks().push((old(self).pos() - 1) as usize),
                Result::Err(_) => final(self).pos() == old(self).pos() && final(self).marks()
                    == old(self).marks() && !(0 <= old(self).pos() - 1 + o < old(
                    self,
                ).bytes().len()),
            },
    {
        let base = self.index - 1;
        let target: i128 = base as i128 + o as i128;
        if target < 0 {
            return Result::Err(ParserError::NegativeOffset);
        }
        if target >= self.bytecode.len() as i128 {
            if target == self.bytecode.len() as i128 {
                return Result::Err(ParserError::EOF);
            }
            return Result::Err(ParserError::OffsetOutOfRange);
        }
        self.indexes.push(base);
        self.index = target as usize;
        Result::Ok(())
    }

    /// Return to the byte after the most recent jump's origin.
    pub fn jmp_back(&mut self) -> (r: Result<(), ParserError>)
        requires
            old(self).wf(),
            old(self).marks().len() > 0,
        ensures
            final(self).wf(),
            final(self).bytes() == old(self).bytes(),
            final(self).marks() == old(self).marks().drop_last(),
            r is Ok,
            final(self).pos() == old(self).marks().last() + 1,
    {
        proof {
            assert(self.indexes@[self.indexes@.len() - 1] < self.bytecode@.len());
        }
        let mark = match self.indexes.pop() {
            Option::Some(m) => m,
            Option::None => {
                proof {
                    assert(false);
                }
                unreached()
            },
        };
        let n = self.bytecode.len();
        proof {
            assert(mark < n);
        }
        self.index = mark + 1;
        Result::Ok(())
    }
}

} // verus!
