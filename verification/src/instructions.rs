//! The interpreter IR: one tagged instruction per supported opcode, plus the
//! operand-kind enums that classify moves, branches, field accesses and
//! arithmetic.

use vstd::prelude::*;

use crate::runtime::{seq_view, Value, ValueV};

verus! {

/// The mathematical content of an [`Instruction`]: register numbers widen to
/// `int`, names to character sequences, and array payloads to value views.
#[verifier::ext_equal]
pub enum InstructionV {
    Label(int),
    Nop,
    MoveResult(MoveKind, int),
    MoveException(int),
    Return(ReturnType),
    ConstSet(int, LiteralV),
    NewInstance(int, int),
    NewArray(int, int, int),
    FillArrayData(int, Seq<ValueV>),
    GoTo(int),
    If(IfKind, int, int, int),
    ArrayGet(GetPutKind, int, int, int),
    StaticGet(GetPutKind, int, Seq<char>),
    StaticPut(GetPutKind, int, Seq<char>),
    InstanceGet(GetPutKind, int, int, Seq<char>),
    InstancePut(GetPutKind, int, int, Seq<char>),
    Invoke(InvokeKind, Seq<char>, int, Seq<u8>),
    BinOp2Addr(BinOpKind, int, int),
    BinOpLit(BinOpLitKind, int, int, i16),
    Unsupported(Seq<char>),
}

/// The mathematical content of a [`LiteralValue`].
#[verifier::ext_equal]
pub enum LiteralV {
    Lit(i32),
    Wide(i64),
    Str(Seq<char>),
    Class(int),
}

/// Index into the type pool of the input file.
pub type TypeIndex = usize;
/// Index into the static-field pool of the input file.
pub type StaticIndex = u16;
/// Index into the field pool of the input file.
pub type FieldRefIndex = u16;

/// IR instructions, executed by the interpreter.
///
/// Each stored instruction is paired with an optional handler-table index by
/// the time it reaches a function (see `FunctionBuilder`).
#[derive(Debug)]
pub enum Instruction {
    Label(usize),
    Nop,
    /// Move result to .1
    MoveResult(MoveKind, usize),
    /// Move exception to .0
    MoveException(usize),
    Return(ReturnType),
    ConstSet(usize, LiteralValue),
    NewInstance(u8, usize),
    NewArray(u8, usize, TypeIndex),
    FillArrayData(usize, Vec<Value>),
    GoTo(usize),
    If(IfKind, u8, u8, usize),
    /// Get from array (kind, v_dest, v_arr, v_idx)
    ArrayGet(GetPutKind, u8, u8, u8),
    StaticGet(GetPutKind, u8, String),
    StaticPut(GetPutKind, u8, String),
    InstanceGet(GetPutKind, u8, u8, String),
    InstancePut(GetPutKind, u8, u8, String),
    Invoke(InvokeKind, String, u8, [u8; 5]),
    BinOp2Addr(BinOpKind, u8, u8),
    BinOpLit(BinOpLitKind, u8, u8, i16),
    /// Sentinel for an opcode the builder recognises but does not translate;
    /// reaching it at run time produces an `Unimplemented` runtime error.
    Unsupported(String),
}

impl View for Instruction {
    type V = InstructionV;

    open spec fn view(&self) -> InstructionV {
        match *self {
            Instruction::Label(id) => InstructionV::Label(id as int),
            Instruction::Nop => InstructionV::Nop,
            Instruction::MoveResult(k, v) => InstructionV::MoveResult(k, v as int),
            Instruction::MoveException(v) => InstructionV::MoveException(v as int),
            Instruction::Return(t) => InstructionV::Return(t),
            Instruction::ConstSet(v, lit) => InstructionV::ConstSet(v as int, lit@),
            Instruction::NewInstance(v, ty) => InstructionV::NewInstance(v as int, ty as int),
            Instruction::NewArray(v, size, ty) => InstructionV::NewArray(
                v as int,
                size as int,
                ty as int,
            ),
            Instruction::FillArrayData(v, data) => InstructionV::FillArrayData(
                v as int,
                seq_view(data@),
            ),
            Instruction::GoTo(l) => InstructionV::GoTo(l as int),
            Instruction::If(k, a, b, l) => InstructionV::If(k, a as int, b as int, l as int),
            Instruction::ArrayGet(k, d, a, i) => InstructionV::ArrayGet(
                k,
                d as int,
                a as int,
                i as int,
            ),
            Instruction::StaticGet(k, v, name) => InstructionV::StaticGet(k, v as int, name@),
            Instruction::StaticPut(k, v, name) => InstructionV::StaticPut(k, v as int, name@),
            Instruction::InstanceGet(k, d, o, f) => InstructionV::InstanceGet(
                k,
                d as int,
                o as int,
                f@,
            ),
            Instruction::InstancePut(k, s, o, f) => InstructionV::InstancePut(
                k,
                s as int,
                o as int,
                f@,
            ),
            Instruction::Invoke(k, name, argc, args) => InstructionV::Invoke(
                k,
                name@,
                argc as int,
                args@,
            ),
            Instruction::BinOp2Addr(k, d, s) => InstructionV::BinOp2Addr(k, d as int, s as int),
            Instruction::BinOpLit(k, d, s, lit) => InstructionV::BinOpLit(k, d as int, s as int, lit),
            Instruction::Unsupported(what) => InstructionV::Unsupported(what@),
        }
    }
}

impl Clone for Instruction {
    fn clone(&self) -> (res: Self)
        ensures
            res@ == self@,
    {
        match self {
            Instruction::Label(id) => Instruction::Label(*id),
            Instruction::Nop => Instruction::Nop,
            Instruction::MoveResult(k, v) => Instruction::MoveResult(*k, *v),
            Instruction::MoveException(v) => Instruction::MoveException(*v),
            Instruction::Return(t) => Instruction::Return(*t),
            Instruction::ConstSet(v, lit) => Instruction::ConstSet(*v, lit.clone()),
            Instruction::NewInstance(v, ty) => Instruction::NewInstance(*v, *ty),
            Instruction::NewArray(v, size, ty) => Instruction::NewArray(*v, *size, *ty),
            Instruction::FillArrayData(v, data) => {
                let mut out: Vec<Value> = Vec::new();
                let mut i: usize = 0;
                while i < data.len()
                    invariant
                        i <= data.len(),
                        out@.len() == i,
                        forall|j: int| 0 <= j < i ==> out@[j]@ == data@[j]@,
                    decreases data.len() - i,
                {
                    out.push(data[i].clone());
                    i = i + 1;
                }
                proof {
                    crate::runtime::lemma_seq_view(out@);
                    crate::runtime::lemma_seq_view(data@);
                    assert(seq_view(out@) =~= seq_view(data@));
                }
                Instruction::FillArrayData(*v, out)
            },
            Instruction::GoTo(l) => Instruction::GoTo(*l),
            Instruction::If(k, a, b, l) => Instruction::If(*k, *a, *b, *l),
            Instruction::ArrayGet(k, d, a, i) => Instruction::ArrayGet(*k, *d, *a, *i),
            Instruction::StaticGet(k, v, name) => Instruction::StaticGet(*k, *v, name.clone()),
            Instruction::StaticPut(k, v, name) => Instruction::StaticPut(*k, *v, name.clone()),
            Instruction::InstanceGet(k, d, o, f) => Instruction::InstanceGet(*k, *d, *o, f.clone()),
            Instruction::InstancePut(k, s, o, f) => Instruction::InstancePut(*k, *s, *o, f.clone()),
            Instruction::Invoke(k, name, argc, args) => {
                Instruction::Invoke(*k, name.clone(), *argc, *args)
            },
            Instruction::BinOp2Addr(k, d, s) => Instruction::BinOp2Addr(*k, *d, *s),
            Instruction::BinOpLit(k, d, s, lit) => Instruction::BinOpLit(*k, *d, *s, *lit),
            Instruction::Unsupported(what) => Instruction::Unsupported(what.clone()),
        }
    }
}

#[derive(Clone, Copy, Debug, PartialEq, Eq)]
pub enum IfKind {
    Eq,
    Ne,
    Lt,
    Ge,
    Gt,
    Le,
}

#[derive(Clone, Copy, Debug, PartialEq, Eq)]
pub enum UnOpKind {
    NegInt,
    NotInt,
    NegLong,
    NotLong,
    NegFloat,
    NegDouble,
    IntToLong,
    IntToFloat,
    IntToDouble,
    LongToInt,
    LongToFloat,
    LongToDouble,
    FloatToInt,
    FloatToLong,
    FloatToDouble,
    DoubleToInt,
    DoubleToLong,
    DoubleToFloat,
    IntToByte,
    IntToChar,
    IntToShort,
}

#[derive(Clone, Copy, Debug, PartialEq, Eq)]
pub enum BinOpKind {
    AddInt,
    SubInt,
    MulInt,
    DivInt,
    RemInt,
    AndInt,
    OrInt,
    XorInt,
    ShlInt,
    ShrInt,
    UshrInt,
    AddLong,
    SubLong,
    MulLong,
    DivLong,
    RemLong,
    AndLong,
    OrLong,
    XorLong,
    ShlLong,
    ShrLong,
    UshrLong,
    AddFloat,
    SubFloat,
    MulFloat,
    DivFloat,
    RemFloat,
    AddDouble,
    SubDouble,
    MulDouble,
    DivDouble,
    RemDouble,
}

#[derive(Clone, Copy, Debug, PartialEq, Eq)]
pub enum BinOpLitKind {
    AddInt,
    /// reverse subtract
    RsubInt,
    MulInt,
    DivInt,
    RemInt,
    AndInt,
    OrInt,
    XorInt,
}

#[derive(Clone, Copy, Debug, PartialEq, Eq)]
pub enum InvokeKind {
    Virtual,
    Super,
    Direct,
    Static,
    Interface,
}

#[derive(Clone, Copy, Debug, PartialEq, Eq)]
pub enum GetPutKind {
    Single,
    Wide,
    Object,
    Boolean,
    Byte,
    Char,
    Short,
}

/// Comparison kinds for the long and floating-point `cmp` family; none of
/// those opcodes is translated, so no kind is inhabited yet.
#[derive(Clone, Copy, Debug, PartialEq, Eq)]
pub enum CmpKind {
    Unused,
}

#[derive(Clone, Copy, Debug, PartialEq, Eq)]
pub enum ReturnType {
    Void,
    Single(usize),
    Wide(usize),
    Object(usize),
}

#[derive(Clone, Copy, Debug, PartialEq, Eq)]
pub enum MoveKind {
    Single,
    Wide,
    Object,
}

#[derive(Debug)]
pub enum LiteralValue {
    /// Literal 32-bit
    Lit(i32),
    /// Literal 64-bit
    Wide(i64),
    /// String literal, already resolved from the string pool
    String(String),
    /// Type index
    Class(usize),
}

impl View for LiteralValue {
    type V = LiteralV;

    open spec fn view(&self) -> LiteralV {
        match *self {
            LiteralValue::Lit(i) => LiteralV::Lit(i),
            LiteralValue::Wide(w) => LiteralV::Wide(w),
            LiteralValue::String(s) => LiteralV::Str(s@),
            LiteralValue::Class(c) => LiteralV::Class(c as int),
        }
    }
}

impl Clone for LiteralValue {
    fn clone(&self) -> (res: Self)
        ensures
            res == *self,
    {
        match self {
            LiteralValue::Lit(i) => LiteralValue::Lit(*i),
            LiteralValue::Wide(w) => LiteralValue::Wide(*w),
            LiteralValue::String(s) => LiteralValue::String(s.clone()),
            LiteralValue::Class(c) => LiteralValue::Class(*c),
        }
    }
}

} // verus!
