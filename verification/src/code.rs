//! Generating interpreter IR from a method: decode the code units, analyse
//! the control flow, and emit each block's instructions into a function
//! builder, labelling blocks that are jumped to.

use vstd::prelude::*;

use crate::builder::FunctionBuilder;
use crate::control_flow::{analyse_control_flow, analysed, wf_insns, BasicBlock};
use crate::decode::{decoded_all, parse_instruction, AstInstruction, InstrArgs};
use crate::dexfile::{Code, DexFile, EncodedMethod, TryItem};
use crate::function::{handlers_view, HandlerTable};
use crate::instructions::{
    BinOpKind, BinOpLitKind, GetPutKind, IfKind, InstructionV, InvokeKind, LiteralV, LiteralValue,
    MoveKind, ReturnType,
};
use crate::parser::{classname_key, format_classname, format_name, name_key, ParserError};
use crate::queue::InstructionQueue;
use crate::text;

verus! {

/// The flat key of the method with pool index `m_id`.
pub open spec fn method_key(definer: Seq<char>, name: Seq<char>) -> Seq<char> {
    classname_key(definer) + "__"@ + name_key(name)
}

/// Resolve a method pool index to its flat key.
pub fn get_method_full_name(m_id: usize, dex: &DexFile) -> (r: Result<String, ParserError>)
    ensures
        r is Ok <==> (m_id < dex.methods@.len() && dex.methods@[m_id as int].definer@.len() >= 1),
        r matches Result::Ok(s) ==> s@ == method_key(
            dex.methods@[m_id as int].definer@,
            dex.methods@[m_id as int].name@,
        ),
{
    if m_id >= dex.methods.len() {
        return Result::Err(ParserError::OffsetOutOfRange);
    }
    let m = &dex.methods[m_id];
    if m.definer.unicode_len() < 1 {
        return Result::Err(ParserError::OffsetOutOfRange);
    }
    let mut out = format_classname(m.definer.as_str());
    out.append("__");
    let tail = format_name(m.name.as_str());
    out.append(tail.as_str());
    proof {
        assert(out@ =~= method_key(dex.methods@[m_id as int].definer@, dex.methods@[m_id as int].name@));
    }
    Result::Ok(out)
}

/// The key a field pool entry resolves to: the flat static key for a static
/// access, the plain field name otherwise.
pub open spec fn field_key(definer: Seq<char>, name: Seq<char>, is_static: bool) -> Seq<char> {
    if is_static {
        classname_key(definer) + "__"@ + name_key(name)
    } else {
        name
    }
}

/// Resolve a field pool index to the name the interpreter uses.
pub fn get_field_name(f_ref_idx: usize, is_static: bool, dex: &DexFile) -> (r: Result<
    String,
    ParserError,
>)
    ensures
        r is Ok <==> (f_ref_idx < dex.fields@.len() && (is_static ==> dex.fields@[f_ref_idx as int].definer@.len() >= 1)),
        r matches Result::Ok(s) ==> s@ == field_key(
            dex.fields@[f_ref_idx as int].definer@,
            dex.fields@[f_ref_idx as int].name@,
            is_static,
        ),
{
    if f_ref_idx >= dex.fields.len() {
        return Result::Err(ParserError::OffsetOutOfRange);
    }
    let f = &dex.fields[f_ref_idx];
    if is_static {
        if f.definer.unicode_len() < 1 {
            return Result::Err(ParserError::OffsetOutOfRange);
        }
        let mut out = format_classname(f.definer.as_str());
        out.append("__");
        let tail = format_name(f.name.as_str());
        out.append(tail.as_str());
        proof {
            assert(out@ =~= field_key(dex.fields@[f_ref_idx as int].definer@, dex.fields@[f_ref_idx as int].name@, is_static));
        }
        Result::Ok(out)
    } else {
        Result::Ok(f.name.clone())
    }
}

/// The comparison an `if-test` opcode stands for.
pub open spec fn if_kind_spec(op: u8) -> IfKind {
    if op == 0x32 {
        IfKind::Eq
    } else if op == 0x33 {
        IfKind::Ne
    } else if op == 0x34 {
        IfKind::Lt
    } else if op == 0x35 {
        IfKind::Ge
    } else if op == 0x36 {
        IfKind::Gt
    } else {
        IfKind::Le
    }
}

/// The sentinel entry for opcodes the translator does not cover.
pub open spec fn untranslated() -> Option<InstructionV> {
    Option::Some(InstructionV::Unsupported("untranslated opcode"@))
}

/// The body entry one decoded instruction is emitted as, or nothing for a
/// no-op: the translation table, instruction for instruction.
pub open spec fn emitted_entry(ins: AstInstruction, block: BasicBlock, dex: DexFile) -> Option<
    InstructionV,
> {
    let op = ins.op;
    if op == 0x00 {
        Option::None
    } else if op == 0x0a || op == 0x0c {
        match ins.args {
            InstrArgs::A11x(a) => Option::Some(
                InstructionV::MoveResult(
                    if op == 0x0a {
                        MoveKind::Single
                    } else {
                        MoveKind::Object
                    },
                    a.0 as int,
                ),
            ),
            _ => untranslated(),
        }
    } else if op == 0x0d {
        match ins.args {
            InstrArgs::A11x(a) => Option::Some(InstructionV::MoveException(a.0 as int)),
            _ => untranslated(),
        }
    } else if op == 0x0e {
        Option::Some(InstructionV::Return(ReturnType::Void))
    } else if op == 0x0f {
        match ins.args {
            InstrArgs::A11x(a) => Option::Some(
                InstructionV::Return(ReturnType::Single(a.0 as usize)),
            ),
            _ => untranslated(),
        }
    } else if op == 0x11 {
        match ins.args {
            InstrArgs::A11x(a) => Option::Some(
                InstructionV::Return(ReturnType::Object(a.0 as usize)),
            ),
            _ => untranslated(),
        }
    } else if op == 0x12 {
        match ins.args {
            InstrArgs::A11n(a) => Option::Some(
                InstructionV::ConstSet(a.0 as int, LiteralV::Lit(a.1 as i32)),
            ),
            _ => untranslated(),
        }
    } else if op == 0x13 {
        match ins.args {
            InstrArgs::A21s(a) => Option::Some(
                InstructionV::ConstSet(a.0 as int, LiteralV::Lit(a.1 as i32)),
            ),
            _ => untranslated(),
        }
    } else if op == 0x1a {
        match ins.args {
            InstrArgs::A21c(a) => Option::Some(
                InstructionV::ConstSet(a.0 as int, LiteralV::Str(dex.strings@[a.1 as int]@)),
            ),
            _ => untranslated(),
        }
    } else if op == 0x22 {
        match ins.args {
            InstrArgs::A21c(a) => Option::Some(InstructionV::NewInstance(a.0 as int, a.1 as int)),
            _ => untranslated(),
        }
    } else if op == 0x23 {
        match ins.args {
            InstrArgs::A22c(a) => Option::Some(
                InstructionV::NewArray(a.0 as int, a.1 as int, a.2 as int),
            ),
            _ => untranslated(),
        }
    } else if op == 0x26 {
        match ins.args {
            InstrArgs::Fill(a) => Option::Some(
                InstructionV::FillArrayData(
                    a.0 as int,
                    FunctionBuilder::fill_values(a.1 as int, a.2@),
                ),
            ),
            _ => untranslated(),
        }
    } else if op == 0x28 || op == 0x29 || op == 0x2a {
        Option::Some(InstructionV::GoTo(block.exits@[0] as int))
    } else if 0x32 <= op && op <= 0x37 {
        match ins.args {
            InstrArgs::A22t(a) => Option::Some(
                InstructionV::If(if_kind_spec(op), a.0 as int, a.1 as int, block.exits@[1] as int),
            ),
            _ => untranslated(),
        }
    } else if 0x38 <= op && op <= 0x3d {
        match ins.args {
            InstrArgs::A21t(_) => Option::Some(InstructionV::Unsupported("if-testz"@)),
            _ => untranslated(),
        }
    } else if op == 0x44 || op == 0x46 || op == 0x47 || op == 0x4d {
        match ins.args {
            InstrArgs::A23x(a) => Option::Some(
                InstructionV::ArrayGet(
                    if op == 0x44 {
                        GetPutKind::Single
                    } else if op == 0x47 {
                        GetPutKind::Boolean
                    } else {
                        GetPutKind::Object
                    },
                    a.0 as int,
                    a.1 as int,
                    a.2 as int,
                ),
            ),
            _ => untranslated(),
        }
    } else if op == 0x52 || op == 0x54 {
        match ins.args {
            InstrArgs::A22c(a) => Option::Some(
                InstructionV::InstanceGet(
                    if op == 0x52 {
                        GetPutKind::Single
                    } else {
                        GetPutKind::Object
                    },
                    a.0 as int,
                    a.1 as int,
                    dex.fields@[a.2 as int].name@,
                ),
            ),
            _ => untranslated(),
        }
    } else if op == 0x59 || op == 0x5b {
        match ins.args {
            InstrArgs::A22c(a) => Option::Some(
                InstructionV::InstancePut(
                    if op == 0x59 {
                        GetPutKind::Single
                    } else {
                        GetPutKind::Object
                    },
                    a.0 as int,
                    a.1 as int,
                    dex.fields@[a.2 as int].name@,
                ),
            ),
            _ => untranslated(),
        }
    } else if op == 0x60 || op == 0x62 {
        match ins.args {
            InstrArgs::A21c(a) => Option::Some(
                InstructionV::StaticGet(
                    if op == 0x60 {
                        GetPutKind::Single
                    } else {
                        GetPutKind::Object
                    },
                    a.0 as int,
                    field_key(
                        dex.fields@[a.1 as int].definer@,
                        dex.fields@[a.1 as int].name@,
                        true,
                    ),
                ),
            ),
            _ => untranslated(),
        }
    } else if op == 0x67 {
        match ins.args {
            InstrArgs::A21c(a) => Option::Some(
                InstructionV::StaticPut(
                    GetPutKind::Single,
                    a.0 as int,
                    field_key(
                        dex.fields@[a.1 as int].definer@,
                        dex.fields@[a.1 as int].name@,
                        true,
                    ),
                ),
            ),
            _ => untranslated(),
        }
    } else if op == 0x6e || op == 0x70 || op == 0x71 {
        match ins.args {
            InstrArgs::A35c(a) => Option::Some(
                InstructionV::Invoke(
                    if op == 0x6e {
                        InvokeKind::Virtual
                    } else if op == 0x70 {
                        InvokeKind::Direct
                    } else {
                        InvokeKind::Static
                    },
                    method_key(
                        dex.methods@[a.0 as int].definer@,
                        dex.methods@[a.0 as int].name@,
                    ),
                    a.1 as int,
                    seq![a.2, a.3, a.4, a.5, a.6],
                ),
            ),
            _ => untranslated(),
        }
    } else if op == 0xb0 {
        match ins.args {
            InstrArgs::A12x(a) => Option::Some(
                InstructionV::BinOp2Addr(BinOpKind::AddInt, a.0 as int, a.1 as int),
            ),
            _ => untranslated(),
        }
    } else if op == 0xd8 || op == 0xda || op == 0xdb || op == 0xdc {
        match ins.args {
            InstrArgs::A22b(a) => Option::Some(
                InstructionV::BinOpLit(
                    if op == 0xd8 {
                        BinOpLitKind::AddInt
                    } else if op == 0xda {
                        BinOpLitKind::MulInt
                    } else {
                        BinOpLitKind::DivInt
                    },
                    a.0 as int,
                    a.1 as int,
                    a.2 as i16,
                ),
            ),
            _ => untranslated(),
        }
    } else {
        untranslated()
    }
}

/// The comparison an `if-test` opcode performs.
fn if_kind_of(op: u8) -> (k: IfKind)
    requires
        0x32 <= op <= 0x37,
    ensures
        k == if_kind_spec(op),
{
    if op == 0x32 {
        IfKind::Eq
    } else if op == 0x33 {
        IfKind::Ne
    } else if op == 0x34 {
        IfKind::Lt
    } else if op == 0x35 {
        IfKind::Ge
    } else if op == 0x36 {
        IfKind::Gt
    } else {
        IfKind::Le
    }
}

/// Whether a block needs a label before its body: it is entered from
/// anywhere other than solely the block emitted just before it, or it is an
/// exception-handler target.
pub open spec fn label_needed(b: BasicBlock, prev: int) -> bool {
    (b.entries@.len() != 0 && !(b.entries@.len() == 1 && b.entries@[0] == prev)) || b.is_handler
}

/// The body entries and pending handler after emitting the first `k`
/// instructions of one block: the block's handler is set before each
/// instruction, and each emitted entry carries it.
pub open spec fn body_fold(
    insns: Seq<AstInstruction>,
    b: BasicBlock,
    dex: DexFile,
    pending: Option<usize>,
    k: int,
) -> (Seq<(InstructionV, Option<usize>)>, Option<usize>)
    decreases k,
{
    if k <= 0 {
        (Seq::empty(), pending)
    } else {
        let prev = body_fold(insns, b, dex, pending, k - 1);
        let idx = b.body@[k - 1] as int;
        if 0 <= idx < insns.len() {
            match emitted_entry(insns[idx], b, dex) {
                Option::Some(e) => (prev.0.push((e, b.handler)), Option::None),
                Option::None => (prev.0, b.handler),
            }
        } else {
            (prev.0, b.handler)
        }
    }
}

/// The whole emission: the body entries, the pending handler and the id of
/// the last block after walking the first `n` blocks in order.
pub open spec fn emit_fold(
    insns: Seq<AstInstruction>,
    blocks: Seq<(usize, BasicBlock)>,
    dex: DexFile,
    n: int,
) -> (Seq<(InstructionV, Option<usize>)>, Option<usize>, int)
    decreases n,
{
    if n <= 0 {
        (Seq::empty(), Option::None, 0)
    } else {
        let prev = emit_fold(insns, blocks, dex, n - 1);
        let b = blocks[n - 1].1;
        let id = blocks[n - 1].0;
        let lbl = label_needed(b, prev.2);
        let with_label = if lbl {
            prev.0.push((InstructionV::Label(id as int), prev.1))
        } else {
            prev.0
        };
        let pend = if lbl {
            Option::<usize>::None
        } else {
            prev.1
        };
        let body = body_fold(insns, b, dex, pend, b.body@.len() as int);
        (with_label + body.0, body.1, id as int)
    }
}

/// How many entries of an emitted body are the label `l`.
pub open spec fn label_count(s: Seq<(InstructionV, Option<usize>)>, l: int) -> int
    decreases s.len(),
{
    if s.len() == 0 {
        0
    } else {
        label_count(s.drop_last(), l) + (if s.last().0 == InstructionV::Label(l) {
            1int
        } else {
            0int
        })
    }
}

/// Label counts add up over concatenation.
proof fn lemma_label_count_concat(a: Seq<(InstructionV, Option<usize>)>, b: Seq<(InstructionV, Option<usize>)>, l: int)
    ensures
        label_count(a + b, l) == label_count(a, l) + label_count(b, l),
    decreases b.len(),
{
    if b.len() == 0 {
        assert(a + b =~= a);
    } else {
        lemma_label_count_concat(a, b.drop_last(), l);
        assert((a + b).drop_last() =~= a + b.drop_last());
        assert((a + b).last() == b.last());
    }
}

/// The translation table never produces a label: labels come only from the
/// block walk itself.
proof fn lemma_emitted_not_label(ins: AstInstruction, block: BasicBlock, dex: DexFile, l: int)
    ensures
        emitted_entry(ins, block, dex) matches Option::Some(e) ==> e != InstructionV::Label(l),
{
}

/// A block's body emission holds no label.
proof fn lemma_body_fold_no_labels(
    insns: Seq<AstInstruction>,
    b: BasicBlock,
    dex: DexFile,
    pending: Option<usize>,
    k: int,
    l: int,
)
    ensures
        label_count(body_fold(insns, b, dex, pending, k).0, l) == 0,
    decreases k,
{
    if k > 0 {
        lemma_body_fold_no_labels(insns, b, dex, pending, k - 1, l);
        let prev = body_fold(insns, b, dex, pending, k - 1);
        let idx = b.body@[k - 1] as int;
        if 0 <= idx < insns.len() {
            lemma_emitted_not_label(insns[idx], b, dex, l);
            match emitted_entry(insns[idx], b, dex) {
                Option::Some(e) => {
                    assert(body_fold(insns, b, dex, pending, k).0 == prev.0.push((e, b.handler)));
                    assert(prev.0.push((e, b.handler)).drop_last() =~= prev.0);
                },
                Option::None => {},
            }
        }
    }
}

/// Law: an emitted body never labels one id twice. Over blocks whose ids
/// rise strictly, as the analysis produces them, each label the block walk
/// emits is new, and the bodies between them emit none.
pub proof fn lemma_labels_once(
    insns: Seq<AstInstruction>,
    blocks: Seq<(usize, BasicBlock)>,
    dex: DexFile,
    n: int,
    l: int,
)
    requires
        0 <= n <= blocks.len(),
        forall|a: int, b: int| 0 <= a < b < blocks.len() ==> blocks[a].0 < blocks[b].0,
    ensures
        label_count(emit_fold(insns, blocks, dex, n).0, l) <= 1,
        label_count(emit_fold(insns, blocks, dex, n).0, l) == 1 ==> exists|k: int|
            0 <= k < n && blocks[k].0 as int == l,
    decreases n,
{
    if n > 0 {
        lemma_labels_once(insns, blocks, dex, n - 1, l);
        let prev = emit_fold(insns, blocks, dex, n - 1);
        let b = blocks[n - 1].1;
        let id = blocks[n - 1].0;
        let lbl = label_needed(b, prev.2);
        let with_label = if lbl {
            prev.0.push((InstructionV::Label(id as int), prev.1))
        } else {
            prev.0
        };
        let pend = if lbl {
            Option::<usize>::None
        } else {
            prev.1
        };
        let body = body_fold(insns, b, dex, pend, b.body@.len() as int);
        lemma_body_fold_no_labels(insns, b, dex, pend, b.body@.len() as int, l);
        lemma_label_count_concat(with_label, body.0, l);
        if lbl {
            assert(with_label.drop_last() =~= prev.0);
            assert(with_label.last() == (InstructionV::Label(id as int), prev.1));
        }
        if id as int == l && label_count(prev.0, l) == 1 {
            let k = choose|k: int| 0 <= k < n - 1 && blocks[k].0 as int == l;
            assert(blocks[k].0 < blocks[n - 1].0);
            assert(false);
        }
        if label_count(emit_fold(insns, blocks, dex, n).0, l) == 1 {
            if lbl && id as int == l {
                assert(0 <= n - 1 < n && blocks[n - 1].0 as int == l);
            } else {
                let k = choose|k: int| 0 <= k < n - 1 && blocks[k].0 as int == l;
                assert(0 <= k < n && blocks[k].0 as int == l);
            }
        }
    }
}

/// The analysis's block ids rise strictly while any instruction exists.
proof fn lemma_analysed_ids_rise(
    insns: Seq<AstInstruction>,
    tries: Seq<TryItem>,
    blocks: Seq<(usize, BasicBlock)>,
    handlers: Seq<HandlerTable>,
    a: int,
    b: int,
)
    requires
        analysed(insns, tries, blocks, handlers),
        insns.len() > 0,
        0 <= a < b < blocks.len(),
    ensures
        blocks[a].0 < blocks[b].0,
    decreases b - a,
{
    assert(blocks[b - 1].1.body@.len() > 0);
    assert(blocks[b].0 == blocks[b - 1].0 + blocks[b - 1].1.body@.len());
    if a < b - 1 {
        lemma_analysed_ids_rise(insns, tries, blocks, handlers, a, b - 1);
    }
}

/// Law: the emission of an analysed method labels no block id twice: any
/// branch target resolves to at most one label of the built body.
pub proof fn lemma_emission_labels_once(
    insns: Seq<AstInstruction>,
    tries: Seq<TryItem>,
    blocks: Seq<(usize, BasicBlock)>,
    handlers: Seq<HandlerTable>,
    dex: DexFile,
    l: int,
)
    requires
        analysed(insns, tries, blocks, handlers),
        insns.len() > 0,
    ensures
        label_count(emit_fold(insns, blocks, dex, blocks.len() as int).0, l) <= 1,
{
    assert forall|a: int, b: int| 0 <= a < b < blocks.len() implies blocks[a].0 < blocks[b].0 by {
        lemma_analysed_ids_rise(insns, tries, blocks, handlers, a, b);
    }
    lemma_labels_once(insns, blocks, dex, blocks.len() as int, l);
}

/// One witness that ties a built function to its method: the instruction
/// list decoded from the method's code words, the blocks and handler tables
/// the analysis produced from it, and the body emitted from those blocks in
/// order.
pub open spec fn generated(
    c: Code,
    dex: DexFile,
    fnb0: FunctionBuilder,
    fnb1: FunctionBuilder,
    insns: Seq<AstInstruction>,
    blocks: Seq<(usize, BasicBlock)>,
    handlers: Seq<HandlerTable>,
    bs: Seq<Seq<u8>>,
    ps: Seq<int>,
) -> bool {
    &&& decoded_all(crate::queue::words_to_bytes(c.insns@), insns, bs, ps)
    &&& wf_insns(insns)
    &&& analysed(insns, c.tries@, blocks, handlers)
    &&& fnb1.handler_maps() == handlers_view(handlers)
    &&& fnb1.body() == fnb0.body() + emit_fold(insns, blocks, dex, blocks.len() as int).0
}

/// Generate interpreter IR from a method into the builder. The register and
/// parameter counts and the return flag are set from the method's record;
/// more parameters than registers is a structural fault.
/// A full decode of a method's code words: well-formed instructions read in
/// one pass over the byte stream.
pub open spec fn method_decoded(c: Code, insns: Seq<AstInstruction>) -> bool {
    wf_insns(insns) && exists|bs: Seq<Seq<u8>>, ps: Seq<int>|
        #[trigger] decoded_all(crate::queue::words_to_bytes(c.insns@), insns, bs, ps)
}

/// Decode a method's whole byte stream into its instruction list.
#[verifier::rlimit(100)]
fn decode_method(c: &Code) -> (r: Result<Vec<AstInstruction>, ParserError>)
    ensures
        r matches Result::Ok(insns) ==> method_decoded(*c, insns@),
{
    let mut iq = InstructionQueue::new(c);
    let mut insns: Vec<AstInstruction> = Vec::new();
    let ghost mut bs: Seq<Seq<u8>> = seq![iq.bytes()];
    let ghost mut ps: Seq<int> = seq![0int];
    let mut done = false;
    #[verifier::loop_isolation(false)]
    while !done
        invariant
            iq.wf(),
            wf_insns(insns@),
            bs.len() == insns@.len() + 1,
            ps.len() == insns@.len() + 1,
            bs[0] == crate::queue::words_to_bytes(c.insns@),
            ps[0] == 0,
            forall|i: int|
                0 <= i < insns@.len() ==> crate::decode::decode_step(
                    bs[i],
                    ps[i],
                    #[trigger] insns@[i],
                    bs[i + 1],
                    ps[i + 1],
                ),
            bs.last() == iq.bytes(),
            ps.last() == iq.pos() as int,
            done ==> iq.pos() >= iq.bytes().len(),
        decreases (if iq.pos() <= iq.bytes().len() {
            iq.bytes().len() - iq.pos()
        } else {
            0int
        }) + (if done {
            0int
        } else {
            1int
        }),
    {
        let ghost pre_bs = bs;
        let ghost pre_ps = ps;
        let ghost q_pre = iq;
        proof {
            iq.lemma_pos_bound();
        }
        match parse_instruction(&mut iq) {
            Result::Ok(ins) => {
                proof {
                    assert(0 <= q_pre.pos() < q_pre.bytes().len());
                    assert(ins.op == q_pre.bytes()[q_pre.pos() as int]);
                    assert(iq.bytes().len() == q_pre.bytes().len());
                    if crate::decode::is_pseudo(ins.op) {
                        assert(iq.pos() == q_pre.pos() + 6);
                    } else {
                        assert(iq.bytes() == q_pre.bytes());
                        assert(iq.pos() == q_pre.pos() + 1 + crate::decode::operand_len(
                            crate::decode::shape_of(ins.op),
                        ));
                        assert(crate::decode::encoded(ins) == crate::decode::header_normalised(
                            q_pre.bytes().subrange(q_pre.pos() as int, iq.pos() as int),
                            crate::decode::shape_of(ins.op),
                        ));
                    }
                    assert(crate::decode::decode_step(
                        q_pre.bytes(),
                        q_pre.pos() as int,
                        ins,
                        iq.bytes(),
                        iq.pos() as int,
                    ));
                    bs = bs.push(iq.bytes());
                    ps = ps.push(iq.pos() as int);
                }
                insns.push(ins);
                proof {
                    assert(bs[insns@.len() - 1] == q_pre.bytes() && ps[insns@.len() - 1]
                        == q_pre.pos() as int);
                    assert(bs[insns@.len() as int] == iq.bytes() && ps[insns@.len() as int]
                        == iq.pos() as int);
                    assert(insns@.last() == ins);
                    assert(crate::decode::decode_step(
                        bs[insns@.len() - 1],
                        ps[insns@.len() - 1],
                        insns@.last(),
                        bs[insns@.len() as int],
                        ps[insns@.len() as int],
                    ));
                    assert forall|i: int|
                        0 <= i < insns@.len() implies crate::decode::decode_step(
                        bs[i],
                        ps[i],
                        #[trigger] insns@[i],
                        bs[i + 1],
                        ps[i + 1],
                    ) by {
                        if i < insns@.len() - 1 {
                            assert(bs[i] == pre_bs[i] && bs[i + 1] == pre_bs[i + 1] && ps[i]
                                == pre_ps[i] && ps[i + 1] == pre_ps[i + 1]);
                        }
                    }
                }
            },
            Result::Err(e) => {
                match e {
                    ParserError::EOF => {
                        done = true;
                    },
                    other => {
                        return Result::Err(other);
                    },
                }
            },
        }
    }
    proof {
        assert(decoded_all(crate::queue::words_to_bytes(c.insns@), insns@, bs, ps));
        assert(method_decoded(*c, insns@));
    }
    Result::Ok(insns)
}

/// Emit every analysed block into the builder, in order, labelling the
/// blocks that need one.
#[verifier::rlimit(100)]
fn emit_blocks(
    insns: &Vec<AstInstruction>,
    blocks: &Vec<(usize, BasicBlock)>,
    dex: &DexFile,
    fnb: &mut FunctionBuilder,
) -> (r: Result<(), ParserError>)
    requires
        old(fnb).wf(),
        old(fnb).pending_handler() is None,
        wf_insns(insns@),
    ensures
        final(fnb).wf(),
        final(fnb).regs() == old(fnb).regs(),
        final(fnb).params() == old(fnb).params(),
        final(fnb).has_return() == old(fnb).has_return(),
        final(fnb).handler_maps() == old(fnb).handler_maps(),
        r is Ok ==> final(fnb).body() == old(fnb).body() + emit_fold(
            insns@,
            blocks@,
            *dex,
            blocks@.len() as int,
        ).0,
{
    let ghost base_body = old(fnb).body();
    let ghost blocks_v = blocks@;
    proof {
        assert(fnb.body() =~= base_body + emit_fold(insns@, blocks@, *dex, 0).0);
    }
    let mut last_target: usize = 0;
    let mut bi: usize = 0;
    #[verifier::loop_isolation(false)]
    while bi < blocks.len()
        invariant
            bi <= blocks@.len(),
            blocks@ == blocks_v,
            fnb.wf(),
            fnb.regs() == old(fnb).regs(),
            fnb.params() == old(fnb).params(),
            fnb.has_return() == old(fnb).has_return(),
            fnb.handler_maps() == old(fnb).handler_maps(),
            wf_insns(insns@),
            fnb.body() == base_body + emit_fold(insns@, blocks@, *dex, bi as int).0,
            fnb.pending_handler() == emit_fold(insns@, blocks@, *dex, bi as int).1,
            last_target as int == emit_fold(insns@, blocks@, *dex, bi as int).2,
        decreases blocks@.len() - bi,
    {
        let ghost fold_pre = emit_fold(insns@, blocks@, *dex, bi as int);
        let block_id = blocks[bi].0;
        let needs_label = {
            let b = &blocks[bi].1;
            (b.entries.len() != 0 && !(b.entries.len() == 1 && b.entries[0] == last_target))
                || b.is_handler
        };
        proof {
            assert(needs_label == label_needed(blocks@[bi as int].1, fold_pre.2));
        }
        if needs_label {
            fnb.label(block_id);
        }
        let ghost after_label = fnb.body();
        let ghost pend0 = fnb.pending_handler();
        let body_len = blocks[bi].1.body.len();
        let mut k: usize = 0;
        #[verifier::loop_isolation(false)]
        while k < body_len
            invariant
                k <= body_len,
                bi < blocks@.len(),
                body_len == blocks@[bi as int].1.body@.len(),
                fnb.wf(),
                fnb.regs() == old(fnb).regs(),
                fnb.params() == old(fnb).params(),
                fnb.has_return() == old(fnb).has_return(),
                fnb.handler_maps() == old(fnb).handler_maps(),
                wf_insns(insns@),
                fnb.body() == after_label + body_fold(
                    insns@,
                    blocks@[bi as int].1,
                    *dex,
                    pend0,
                    k as int,
                ).0,
                fnb.pending_handler() == body_fold(
                    insns@,
                    blocks@[bi as int].1,
                    *dex,
                    pend0,
                    k as int,
                ).1,
            decreases body_len - k,
        {
            let idx = blocks[bi].1.body[k];
            fnb.set_next_handler(blocks[bi].1.handler);
            let ghost pre_emit = fnb.body();
            if idx < insns.len() {
                match emit_instruction(&insns[idx], &blocks[bi].1, dex, fnb) {
                    Result::Err(e) => {
                        return Result::Err(e);
                    },
                    Result::Ok(_) => {},
                }
            }
            proof {
                assert(fnb.body() =~= after_label + body_fold(
                    insns@,
                    blocks@[bi as int].1,
                    *dex,
                    pend0,
                    k + 1,
                ).0);
            }
            k = k + 1;
        }
        proof {
            let fold_post = emit_fold(insns@, blocks@, *dex, bi + 1);
            let b = blocks@[bi as int].1;
            let lbl = label_needed(b, fold_pre.2);
            let with_label = if lbl {
                fold_pre.0.push((InstructionV::Label(block_id as int), fold_pre.1))
            } else {
                fold_pre.0
            };
            let pend = if lbl {
                Option::<usize>::None
            } else {
                fold_pre.1
            };
            let body = body_fold(insns@, b, *dex, pend, b.body@.len() as int);
            assert(fold_post.0 == with_label + body.0 && fold_post.1 == body.1);
            if needs_label {
                assert(after_label =~= base_body + with_label);
                assert(pend0 == pend);
            } else {
                assert(after_label == base_body + with_label);
                assert(pend0 == pend);
            }
            assert(fnb.body() == after_label + body.0);
            assert(fnb.body() =~= base_body + fold_post.0);
            assert(fnb.pending_handler() == fold_post.1);
        }
        last_target = block_id;
        bi = bi + 1;
    }
    Result::Ok(())
}

/// Generate interpreter IR from a method into the builder. The register and
/// parameter counts and the return flag are set from the method's record;
/// more parameters than registers is a structural fault. On success the
/// builder holds exactly the emission of the decoded, analysed method.
pub fn generate_code(
    c: &Code,
    m: &EncodedMethod,
    c_name: &str,
    dex: &DexFile,
    fnb: &mut FunctionBuilder,
) -> (r: Result<(), ParserError>)
    requires
        old(fnb).wf(),
        old(fnb).pending_handler() is None,
    ensures
        final(fnb).wf(),
        r matches Result::Ok(_) ==> {
            &&& final(fnb).regs() == c.registers_size
            &&& final(fnb).params() <= final(fnb).regs()
            &&& (m.is_static ==> final(fnb).params() == m.param_count)
            &&& (!m.is_static ==> final(fnb).params() == m.param_count + 1)
            &&& final(fnb).has_return() == (m.return_type@ != "V"@)
            &&& exists|
                insns: Seq<AstInstruction>,
                blocks: Seq<(usize, BasicBlock)>,
                handlers: Seq<HandlerTable>,
                bs: Seq<Seq<u8>>,
                ps: Seq<int>,
            |
                #[trigger] generated(
                    *c,
                    *dex,
                    *old(fnb),
                    *final(fnb),
                    insns,
                    blocks,
                    handlers,
                    bs,
                    ps,
                )
        },
{
    let is_instance = !m.is_static;
    if m.param_count >= usize::MAX {
        return Result::Err(ParserError::BadRegisterCount);
    }
    let n_params = if is_instance {
        m.param_count + 1
    } else {
        m.param_count
    };
    if n_params > c.registers_size {
        // A method whose parameters cannot fit its register file is
        // ill-formed; rejecting it keeps every built function's parameter
        // count within its register count.
        return Result::Err(ParserError::BadRegisterCount);
    }
    fnb.set_n_regs(c.registers_size);
    fnb.set_n_params(n_params);
    fnb.set_return(!text::str_eq(m.return_type.as_str(), "V"));

    let insns = match decode_method(c) {
        Result::Err(e) => {
            return Result::Err(e);
        },
        Result::Ok(v) => v,
    };
    let (blocks, handlers) = match analyse_control_flow(&insns, &c.tries) {
        Result::Err(e) => {
            return Result::Err(e);
        },
        Result::Ok(v) => v,
    };
    let ghost handlers_v = handlers@;
    let ghost blocks_v = blocks@;
    fnb.set_handlers(handlers);
    match emit_blocks(&insns, &blocks, dex, fnb) {
        Result::Err(e) => {
            return Result::Err(e);
        },
        Result::Ok(_) => {},
    }
    proof {
        let (bs, ps) = choose|bs: Seq<Seq<u8>>, ps: Seq<int>|
            #[trigger] decoded_all(crate::queue::words_to_bytes(c.insns@), insns@, bs, ps);
        assert(generated(*c, *dex, *old(fnb), *fnb, insns@, blocks_v, handlers_v, bs, ps));
    }
    Result::Ok(())
}

/// Emit a move, return, constant or allocation instruction.
#[verifier::rlimit(100)]
fn emit_value_instruction(
    ins: &AstInstruction,
    block: &BasicBlock,
    dex: &DexFile,
    fnb: &mut FunctionBuilder,
) -> (r: Result<(), ParserError>)
    requires
        old(fnb).wf(),
        0x00 < ins.op < 0x28,
    ensures
        final(fnb).wf(),
        final(fnb).regs() == old(fnb).regs(),
        final(fnb).params() == old(fnb).params(),
        final(fnb).has_return() == old(fnb).has_return(),
        final(fnb).handler_maps() == old(fnb).handler_maps(),
        r is Err ==> *final(fnb) == *old(fnb),
        r is Ok ==> (match emitted_entry(*ins, *block, *dex) {
            Option::None => *final(fnb) == *old(fnb),
            Option::Some(e) => final(fnb).body() == old(fnb).body().push(
                (e, old(fnb).pending_handler()),
            ) && final(fnb).pending_handler() is None,
        }),
{
    let op = ins.op;
    if op == 0x0a || op == 0x0c {
        if let InstrArgs::A11x(a) = &ins.args {
            let kind = if op == 0x0a {
                MoveKind::Single
            } else {
                MoveKind::Object
            };
            fnb.move_results(kind, a.0 as usize);
            return Result::Ok(());
        }
    }
    if op == 0x0d {
        if let InstrArgs::A11x(a) = &ins.args {
            fnb.move_exception(a.0 as usize);
            return Result::Ok(());
        }
    }
    if op == 0x0e {
        fnb.return_v(ReturnType::Void);
        return Result::Ok(());
    }
    if op == 0x0f {
        if let InstrArgs::A11x(a) = &ins.args {
            fnb.return_v(ReturnType::Single(a.0 as usize));
            return Result::Ok(());
        }
    }
    if op == 0x11 {
        if let InstrArgs::A11x(a) = &ins.args {
            fnb.return_v(ReturnType::Object(a.0 as usize));
            return Result::Ok(());
        }
    }
    if op == 0x12 {
        if let InstrArgs::A11n(a) = &ins.args {
            fnb.const_set(a.0 as usize, LiteralValue::Lit(a.1 as i32));
            return Result::Ok(());
        }
    }
    if op == 0x13 {
        if let InstrArgs::A21s(a) = &ins.args {
            fnb.const_set(a.0 as usize, LiteralValue::Lit(a.1 as i32));
            return Result::Ok(());
        }
    }
    if op == 0x1a {
        if let InstrArgs::A21c(a) = &ins.args {
            let sidx = a.1 as usize;
            if sidx >= dex.strings.len() {
                return Result::Err(ParserError::OffsetOutOfRange);
            }
            fnb.const_set(a.0 as usize, LiteralValue::String(dex.strings[sidx].clone()));
            return Result::Ok(());
        }
    }
    if op == 0x22 {
        if let InstrArgs::A21c(a) = &ins.args {
            fnb.new_instance(a.0, a.1 as usize);
            return Result::Ok(());
        }
    }
    if op == 0x23 {
        if let InstrArgs::A22c(a) = &ins.args {
            fnb.new_array(a.0, a.1 as usize, a.2 as usize);
            return Result::Ok(());
        }
    }
    if op == 0x26 {
        if let InstrArgs::Fill(a) = &ins.args {
            let mut data: Vec<u8> = Vec::new();
            let mut i: usize = 0;
            #[verifier::loop_isolation(false)]
            while i < a.2.len()
                invariant
                    i <= a.2@.len(),
                    data@ =~= a.2@.subrange(0, i as int),
                decreases a.2@.len() - i,
            {
                data.push(a.2[i]);
                i = i + 1;
            }
            proof {
                assert(data@ =~= a.2@);
            }
            match fnb.fill_array_data(a.0 as usize, a.1 as usize, data) {
                Result::Err(e) => {
                    return Result::Err(e);
                },
                Result::Ok(_) => {
                    return Result::Ok(());
                },
            }
        }
    }
    // Everything else is recorded as a sentinel that the interpreter
    // reports if reached.
    fnb.unsupported("untranslated opcode");
    Result::Ok(())
}

/// Emit a branching instruction.
#[verifier::rlimit(100)]
fn emit_branch_instruction(
    ins: &AstInstruction,
    block: &BasicBlock,
    dex: &DexFile,
    fnb: &mut FunctionBuilder,
) -> (r: Result<(), ParserError>)
    requires
        old(fnb).wf(),
        0x28 <= ins.op < 0x44,
    ensures
        final(fnb).wf(),
        final(fnb).regs() == old(fnb).regs(),
        final(fnb).params() == old(fnb).params(),
        final(fnb).has_return() == old(fnb).has_return(),
        final(fnb).handler_maps() == old(fnb).handler_maps(),
        r is Err ==> *final(fnb) == *old(fnb),
        r is Ok ==> (match emitted_entry(*ins, *block, *dex) {
            Option::None => *final(fnb) == *old(fnb),
            Option::Some(e) => final(fnb).body() == old(fnb).body().push(
                (e, old(fnb).pending_handler()),
            ) && final(fnb).pending_handler() is None,
        }),
{
    let op = ins.op;
    if op == 0x28 || op == 0x29 || op == 0x2a {
        if block.exits.len() < 1 {
            return Result::Err(ParserError::OffsetOutOfRange);
        }
        fnb.goto(block.exits[0]);
        return Result::Ok(());
    }
    if 0x32 <= op && op <= 0x37 {
        if let InstrArgs::A22t(a) = &ins.args {
            if block.exits.len() < 2 {
                return Result::Err(ParserError::OffsetOutOfRange);
            }
            fnb.if_test(if_kind_of(op), a.0, a.1, block.exits[1]);
            return Result::Ok(());
        }
    }
    if 0x38 <= op && op <= 0x3d {
        if let InstrArgs::A21t(a) = &ins.args {
            fnb.ifz_test(a.0, 0);
            return Result::Ok(());
        }
    }
    // Everything else is recorded as a sentinel that the interpreter
    // reports if reached.
    fnb.unsupported("untranslated opcode");
    Result::Ok(())
}

/// Emit an array, instance-field or static-field access.
#[verifier::rlimit(100)]
fn emit_access_instruction(
    ins: &AstInstruction,
    block: &BasicBlock,
    dex: &DexFile,
    fnb: &mut FunctionBuilder,
) -> (r: Result<(), ParserError>)
    requires
        old(fnb).wf(),
        0x44 <= ins.op < 0x6e,
    ensures
        final(fnb).wf(),
        final(fnb).regs() == old(fnb).regs(),
        final(fnb).params() == old(fnb).params(),
        final(fnb).has_return() == old(fnb).has_return(),
        final(fnb).handler_maps() == old(fnb).handler_maps(),
        r is Err ==> *final(fnb) == *old(fnb),
        r is Ok ==> (match emitted_entry(*ins, *block, *dex) {
            Option::None => *final(fnb) == *old(fnb),
            Option::Some(e) => final(fnb).body() == old(fnb).body().push(
                (e, old(fnb).pending_handler()),
            ) && final(fnb).pending_handler() is None,
        }),
{
    let op = ins.op;
    if op == 0x44 || op == 0x46 || op == 0x47 || op == 0x4d {
        // aget, aget-object, aget-boolean, and the object array store, which
        // the source translates through the same read operation.
        if let InstrArgs::A23x(a) = &ins.args {
            let kind = if op == 0x44 {
                GetPutKind::Single
            } else if op == 0x47 {
                GetPutKind::Boolean
            } else {
                GetPutKind::Object
            };
            fnb.array_get(kind, a.0, a.1, a.2);
            return Result::Ok(());
        }
    }
    if op == 0x52 || op == 0x54 {
        if let InstrArgs::A22c(a) = &ins.args {
            let field = match get_field_name(a.2 as usize, false, dex) {
                Result::Err(e) => {
                    return Result::Err(e);
                },
                Result::Ok(s) => s,
            };
            let kind = if op == 0x52 {
                GetPutKind::Single
            } else {
                GetPutKind::Object
            };
            fnb.instance_get(kind, a.0, a.1, field);
            return Result::Ok(());
        }
    }
    if op == 0x59 || op == 0x5b {
        if let InstrArgs::A22c(a) = &ins.args {
            let field = match get_field_name(a.2 as usize, false, dex) {
                Result::Err(e) => {
                    return Result::Err(e);
                },
                Result::Ok(s) => s,
            };
            let kind = if op == 0x59 {
                GetPutKind::Single
            } else {
                GetPutKind::Object
            };
            fnb.instance_put(kind, a.0, a.1, field);
            return Result::Ok(());
        }
    }
    if op == 0x60 || op == 0x62 {
        if let InstrArgs::A21c(a) = &ins.args {
            let name = match get_field_name(a.1 as usize, true, dex) {
                Result::Err(e) => {
                    return Result::Err(e);
                },
                Result::Ok(s) => s,
            };
            let kind = if op == 0x60 {
                GetPutKind::Single
            } else {
                GetPutKind::Object
            };
            fnb.static_get(kind, a.0, name);
            return Result::Ok(());
        }
    }
    if op == 0x67 {
        if let InstrArgs::A21c(a) = &ins.args {
            let name = match get_field_name(a.1 as usize, true, dex) {
                Result::Err(e) => {
                    return Result::Err(e);
                },
                Result::Ok(s) => s,
            };
            fnb.static_put(GetPutKind::Single, a.0, name);
            return Result::Ok(());
        }
    }
    // Everything else is recorded as a sentinel that the interpreter
    // reports if reached.
    fnb.unsupported("untranslated opcode");
    Result::Ok(())
}

/// Emit an invoke or arithmetic instruction.
#[verifier::rlimit(100)]
fn emit_call_instruction(
    ins: &AstInstruction,
    block: &BasicBlock,
    dex: &DexFile,
    fnb: &mut FunctionBuilder,
) -> (r: Result<(), ParserError>)
    requires
        old(fnb).wf(),
        0x6e <= ins.op,
    ensures
        final(fnb).wf(),
        final(fnb).regs() == old(fnb).regs(),
        final(fnb).params() == old(fnb).params(),
        final(fnb).has_return() == old(fnb).has_return(),
        final(fnb).handler_maps() == old(fnb).handler_maps(),
        r is Err ==> *final(fnb) == *old(fnb),
        r is Ok ==> (match emitted_entry(*ins, *block, *dex) {
            Option::None => *final(fnb) == *old(fnb),
            Option::Some(e) => final(fnb).body() == old(fnb).body().push(
                (e, old(fnb).pending_handler()),
            ) && final(fnb).pending_handler() is None,
        }),
{
    let op = ins.op;
    if op == 0x6e || op == 0x70 || op == 0x71 {
        if let InstrArgs::A35c(a) = &ins.args {
            let method = match get_method_full_name(a.0 as usize, dex) {
                Result::Err(e) => {
                    return Result::Err(e);
                },
                Result::Ok(s) => s,
            };
            let kind = if op == 0x6e {
                InvokeKind::Virtual
            } else if op == 0x70 {
                InvokeKind::Direct
            } else {
                InvokeKind::Static
            };
            let args_arr: [u8; 5] = [a.2, a.3, a.4, a.5, a.6];
            proof {
                assert(args_arr@ =~= seq![a.2, a.3, a.4, a.5, a.6]);
            }
            fnb.invoke(kind, method, a.1, args_arr);
            return Result::Ok(());
        }
    }
    if op == 0xb0 {
        if let InstrArgs::A12x(a) = &ins.args {
            fnb.bin_op_2_addr(BinOpKind::AddInt, a.0, a.1);
            return Result::Ok(());
        }
    }
    if op == 0xd8 || op == 0xda || op == 0xdb || op == 0xdc {
        // add, mul, div, rem on an 8-bit literal; the source routes the
        // remainder through the division operation.
        if let InstrArgs::A22b(a) = &ins.args {
            let kind = if op == 0xd8 {
                BinOpLitKind::AddInt
            } else if op == 0xda {
                BinOpLitKind::MulInt
            } else {
                BinOpLitKind::DivInt
            };
            fnb.bin_op_lit(kind, a.0, a.1, a.2 as i16);
            return Result::Ok(());
        }
    }
    // Everything else is recorded as a sentinel that the interpreter
    // reports if reached.
    fnb.unsupported("untranslated opcode");
    Result::Ok(())
}

/// Emit one decoded instruction into the builder, as the opcode directs.
/// Opcodes the translator does not cover become run-time sentinels. On
/// success the builder gains exactly the entry the translation table gives,
/// under the pending handler; a fault leaves it untouched.
fn emit_instruction(
    ins: &AstInstruction,
    block: &BasicBlock,
    dex: &DexFile,
    fnb: &mut FunctionBuilder,
) -> (r: Result<(), ParserError>)
    requires
        old(fnb).wf(),
    ensures
        final(fnb).wf(),
        final(fnb).regs() == old(fnb).regs(),
        final(fnb).params() == old(fnb).params(),
        final(fnb).has_return() == old(fnb).has_return(),
        final(fnb).handler_maps() == old(fnb).handler_maps(),
        r is Err ==> *final(fnb) == *old(fnb),
        r is Ok ==> (match emitted_entry(*ins, *block, *dex) {
            Option::None => *final(fnb) == *old(fnb),
            Option::Some(e) => final(fnb).body() == old(fnb).body().push(
                (e, old(fnb).pending_handler()),
            ) && final(fnb).pending_handler() is None,
        }),
{
    let op = ins.op;
    if op == 0x00 {
        // A no-op emits nothing.
        return Result::Ok(());
    }
    if op < 0x28 {
        return emit_value_instruction(ins, block, dex, fnb);
    }
    if op < 0x44 {
        return emit_branch_instruction(ins, block, dex, fnb);
    }
    if op < 0x6e {
        return emit_access_instruction(ins, block, dex, fnb);
    }
    emit_call_instruction(ins, block, dex, fnb)
}

} // verus!
