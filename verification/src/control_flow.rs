//! Control-flow analysis: slice the linear instruction list into basic
//! blocks with entries and exits, and fold the method's try ranges into
//! per-block handler tables.

use vstd::prelude::*;

use crate::decode::{
    args_shape, insn_words, instruction_length, is_pseudo, shape_of, AstInstruction, InstrArgs,
};
use crate::dexfile::TryItem;
use crate::function::HandlerTable;
use crate::parser::ParserError;
use crate::table::Table;
use crate::text;

verus! {

/// Whether every decoded instruction's operands match its opcode's shape, as
/// the decoder guarantees.
pub open spec fn wf_insns(insns: Seq<AstInstruction>) -> bool {
    forall|i: int|
        0 <= i < insns.len() ==> args_shape(#[trigger] insns[i].args) == shape_of(insns[i].op)
            || is_pseudo(insns[i].op)
}

/// One instruction with its control-flow links, by position in the list.
#[derive(Debug)]
pub struct CFInstruction {
    pub instruction: usize,
    pub entries: Vec<usize>,
    pub exits: Vec<usize>,
}

/// A basic block: entry and exit block ids, the body as instruction
/// positions, whether the block is a handler target, and the handler table
/// in effect over it.
#[derive(Debug)]
pub struct BasicBlock {
    pub entries: Vec<usize>,
    pub exits: Vec<usize>,
    pub body: Vec<usize>,
    pub is_handler: bool,
    pub handler: Option<usize>,
}

impl BasicBlock {
    pub fn new() -> (r: Self)
        ensures
            r.entries@ == Seq::<usize>::empty(),
            r.exits@ == Seq::<usize>::empty(),
            r.body@ == Seq::<usize>::empty(),
            !r.is_handler,
            r.handler is None,
    {
        BasicBlock {
            entries: Vec::new(),
            exits: Vec::new(),
            body: Vec::new(),
            is_handler: false,
            handler: Option::None,
        }
    }
}

/// Whether a sequence holds a value.
fn contains_usize(v: &Vec<usize>, x: usize) -> (r: bool)
    ensures
        r == v@.contains(x),
{
    let mut i: usize = 0;
    #[verifier::loop_isolation(false)]
    while i < v.len()
        invariant
            i <= v@.len(),
            forall|j: int| 0 <= j < i ==> v@[j] != x,
        decreases v@.len() - i,
    {
        if v[i] == x {
            proof {
                assert(v@[i as int] == x);
            }
            return true;
        }
        i = i + 1;
    }
    proof {
        assert(!v@.contains(x));
    }
    false
}

/// The number of 16-bit words the instructions at positions `lo` up to (not
/// including) `hi` occupy.
pub open spec fn words_between(insns: Seq<AstInstruction>, lo: int, hi: int) -> int
    decreases hi - lo,
{
    if lo >= hi {
        0
    } else {
        insn_words(insns[lo]) + words_between(insns, lo + 1, hi)
    }
}

/// Extending a range by its last instruction adds that instruction's words.
proof fn lemma_words_snoc(insns: Seq<AstInstruction>, lo: int, hi: int)
    requires
        lo <= hi,
    ensures
        words_between(insns, lo, hi + 1) == words_between(insns, lo, hi) + insn_words(insns[hi]),
    decreases hi - lo,
{
    if lo < hi {
        lemma_words_snoc(insns, lo + 1, hi);
    } else {
        assert(words_between(insns, lo, hi) == 0);
        assert(words_between(insns, hi + 1, hi + 1) == 0);
        assert(words_between(insns, lo, hi + 1) == insn_words(insns[hi]) + words_between(
            insns,
            hi + 1,
            hi + 1,
        ));
    }
}

/// Whether position `t` lies exactly `wo` words away from position `idx`.
pub open spec fn offset_reaches(insns: Seq<AstInstruction>, idx: int, wo: int, t: int) -> bool {
    if wo >= 0 {
        idx <= t <= insns.len() && words_between(insns, idx, t) == wo
    } else {
        0 <= t <= idx && words_between(insns, t, idx) == -wo
    }
}

/// Add a word offset to an instruction position: walk instruction lengths
/// forward or backward until exactly `wo` words are covered. The result is
/// the position exactly `wo` words from `idx`; an offset landing mid-way
/// inside an instruction, or outside the list, is a fault.
pub fn add_offset(wo: i64, idx: usize, instructions: &Vec<AstInstruction>) -> (r: Result<
    usize,
    ParserError,
>)
    requires
        wf_insns(instructions@),
        idx < instructions@.len(),
    ensures
        r matches Result::Ok(t) ==> t <= instructions@.len() && offset_reaches(
            instructions@,
            idx as int,
            wo as int,
            t as int,
        ),
{
    let n = instructions.len();
    if wo < -0x4000_0000 || wo > 0x4000_0000 {
        return Result::Err(ParserError::OffsetOutOfRange);
    }
    if wo < 0 {
        let target = -wo;
        let mut w_count: i64 = 0;
        let mut i_count: usize = 0;
        #[verifier::loop_isolation(false)]
        while w_count < target
            invariant
                0 <= w_count,
                i_count <= idx,
                target <= 0x4000_0000,
                w_count <= target + 0xffff,
                w_count == words_between(instructions@, idx - i_count, idx as int),
            decreases (if w_count < target {
                target - w_count
            } else {
                0int
            }),
        {
            if i_count >= idx {
                return Result::Err(ParserError::OffsetOutOfRange);
            }
            let step = instruction_length(&instructions[idx - i_count - 1]);
            if step == 0 {
                return Result::Err(ParserError::OffsetOutOfRange);
            }
            if step > 0xffff {
                return Result::Err(ParserError::OffsetOutOfRange);
            }
            w_count = w_count + step as i64;
            i_count = i_count + 1;
        }
        if w_count != target {
            return Result::Err(ParserError::OffsetOutOfRange);
        }
        Result::Ok(idx - i_count)
    } else {
        let mut w_count: i64 = 0;
        let mut i_count: usize = 0;
        #[verifier::loop_isolation(false)]
        while w_count < wo
            invariant
                0 <= w_count,
                idx + i_count <= instructions@.len(),
                w_count <= wo + 0xffff,
                w_count == words_between(instructions@, idx as int, idx + i_count),
            decreases (if w_count < wo {
                wo - w_count
            } else {
                0int
            }),
        {
            if idx + i_count >= n {
                return Result::Err(ParserError::OffsetOutOfRange);
            }
            let step = instruction_length(&instructions[idx + i_count]);
            if step == 0 || step > 0xffff {
                return Result::Err(ParserError::OffsetOutOfRange);
            }
            proof {
                lemma_words_snoc(instructions@, idx as int, idx + i_count);
            }
            w_count = w_count + step as i64;
            i_count = i_count + 1;
        }
        if w_count != wo {
            return Result::Err(ParserError::OffsetOutOfRange);
        }
        Result::Ok(idx + i_count)
    }
}

/// Whether some block of `blocks` carries id `id` and lists `target` among
/// its exits.
pub open spec fn links_back(blocks: Seq<(usize, BasicBlock)>, id: usize, target: usize) -> bool {
    exists|a: int|
        0 <= a < blocks.len() && blocks[a].0 == id && blocks[a].1.exits@.contains(target)
}

/// The signed word offset a branching instruction carries.
pub open spec fn branch_offset(ins: AstInstruction) -> int {
    match ins.args {
        InstrArgs::A22t(t) => t.2 as int,
        InstrArgs::A21t(t) => (t.1 as i16) as int,
        InstrArgs::A10t(t) => t.0 as int,
        _ => 0,
    }
}

/// The positions an instruction can fall to: a conditional branch falls
/// through and jumps by its word offset, a goto only jumps, returns and
/// throws exit nowhere, and everything else falls through.
pub fn exits(idx: usize, ins: &AstInstruction, instructions: &Vec<AstInstruction>) -> (r: Result<
    Vec<usize>,
    ParserError,
>)
    requires
        wf_insns(instructions@),
        idx < instructions@.len(),
    ensures
        r matches Result::Ok(v) ==> {
            let op = ins.op;
            &&& v@.len() <= 2
            &&& (forall|j: int| 0 <= j < v@.len() ==> (#[trigger] v@[j]) <= instructions@.len())
            &&& ((0x0e <= op && op <= 0x11) || op == 0x27) ==> v@ == Seq::<usize>::empty()
            &&& (0x32 <= op && op <= 0x3d) ==> v@.len() == 2 && v@[0] == idx + 1 && offset_reaches(
                instructions@,
                idx as int,
                branch_offset(*ins),
                v@[1] as int,
            )
            &&& op == 0x28 ==> v@.len() == 1 && offset_reaches(
                instructions@,
                idx as int,
                branch_offset(*ins),
                v@[0] as int,
            )
            &&& (!((0x0e <= op && op <= 0x11) || op == 0x27 || op == 0x28 || (0x32 <= op && op
                <= 0x3d) || op == 0x29 || op == 0x2a)) ==> v@ == seq![(idx + 1) as usize]
        },
{
    let op = ins.op;
    if 0x32 <= op && op <= 0x3d {
        // A two-register or zero test: fall through or branch by the signed
        // word offset.
        let wo: i64 = match &ins.args {
            InstrArgs::A22t(t) => t.2 as i64,
            InstrArgs::A21t(t) => (t.1 as i16) as i64,
            _ => {
                return Result::Err(ParserError::OffsetOutOfRange);
            },
        };
        let target = match add_offset(wo, idx, instructions) {
            Result::Err(e) => {
                return Result::Err(e);
            },
            Result::Ok(t) => t,
        };
        let mut v: Vec<usize> = Vec::new();
        if idx == usize::MAX {
            return Result::Err(ParserError::OffsetOutOfRange);
        }
        v.push(idx + 1);
        v.push(target);
        if idx + 1 > instructions.len() {
            return Result::Err(ParserError::OffsetOutOfRange);
        }
        proof {
            assert(v@[0] == idx + 1 && v@[1] == target);
        }
        Result::Ok(v)
    } else if op == 0x28 {
        let wo: i64 = match &ins.args {
            InstrArgs::A10t(t) => t.0 as i64,
            _ => {
                return Result::Err(ParserError::OffsetOutOfRange);
            },
        };
        let target = match add_offset(wo, idx, instructions) {
            Result::Err(e) => {
                return Result::Err(e);
            },
            Result::Ok(t) => t,
        };
        let mut v: Vec<usize> = Vec::new();
        v.push(target);
        proof {
            assert(v@[0] == target);
        }
        Result::Ok(v)
    } else if op == 0x29 || op == 0x2a {
        // The wide goto forms are not translated.
        Result::Err(ParserError::OffsetOutOfRange)
    } else if op == 0x0e || (0x0f <= op && op <= 0x11) || op == 0x27 {
        // Returns and throws leave the block without a fall-through.
        Result::Ok(Vec::new())
    } else {
        if idx == usize::MAX {
            return Result::Err(ParserError::OffsetOutOfRange);
        }
        let mut v: Vec<usize> = Vec::new();
        v.push(idx + 1);
        if idx + 1 > instructions.len() {
            return Result::Err(ParserError::OffsetOutOfRange);
        }
        proof {
            assert(v@ =~= seq![(idx + 1) as usize]);
        }
        Result::Ok(v)
    }
}

/// Find the instruction position at which the running word address equals
/// `addr`, counting from position `from`.
fn index_at_words(
    addr: u64,
    from: usize,
    instructions: &Vec<AstInstruction>,
) -> (r: Result<usize, ParserError>)
    requires
        wf_insns(instructions@),
        from <= instructions@.len(),
    ensures
        r matches Result::Ok(t) ==> t <= instructions@.len(),
{
    if addr > 0xffff_ffff {
        return Result::Err(ParserError::OffsetOutOfRange);
    }
    let mut w_count: u64 = 0;
    let mut i: usize = from;
    #[verifier::loop_isolation(false)]
    while w_count < addr
        invariant
            from <= i <= instructions@.len(),
            addr <= 0xffff_ffff,
            w_count <= addr + 0xffff,
        decreases (if w_count < addr {
            addr - w_count
        } else {
            0int
        }),
    {
        if i >= instructions.len() {
            return Result::Err(ParserError::OffsetOutOfRange);
        }
        let step = instruction_length(&instructions[i]);
        if step == 0 || step > 0xffff {
            return Result::Err(ParserError::OffsetOutOfRange);
        }
        w_count = w_count + step as u64;
        i = i + 1;
    }
    if w_count != addr {
        return Result::Err(ParserError::OffsetOutOfRange);
    }
    Result::Ok(i)
}

/// What the analysis guarantees of its result: the blocks partition the
/// instruction positions in order, each block's id is the position of its
/// first instruction, the handler tables translate the method's try ranges
/// one for one, every block's handler index is in range, and every entry of
/// every block names another block whose exit list contains it.
pub open spec fn analysed(
    insns: Seq<AstInstruction>,
    tries: Seq<TryItem>,
    blocks: Seq<(usize, BasicBlock)>,
    handlers: Seq<HandlerTable>,
) -> bool {
    &&& blocks.len() >= 1
    &&& blocks[0].0 == 0
    &&& (forall|b: int, k: int|
        #![trigger blocks[b].1.body@[k]]
        0 <= b < blocks.len() && 0 <= k < blocks[b].1.body@.len() ==> blocks[b].1.body@[k]
            == blocks[b].0 + k)
    &&& (forall|b: int|
        #![trigger blocks[b]]
        0 <= b < blocks.len() - 1 ==> blocks[b + 1].0 == blocks[b].0
            + blocks[b].1.body@.len())
    &&& blocks.last().0 + blocks.last().1.body@.len() == insns.len()
    &&& (insns.len() > 0 ==> forall|b: int|
        0 <= b < blocks.len() ==> (#[trigger] blocks[b]).1.body@.len() > 0)
    &&& handlers.len() == tries.len()
    &&& (forall|b: int|
        0 <= b < blocks.len() ==> ((#[trigger] blocks[b]).1.handler matches Option::Some(h)
            ==> h < handlers.len()))
    &&& (forall|i: int|
        0 <= i < handlers.len() ==> (#[trigger] handlers[i]).wf())
    &&& (forall|j: int, k: int|
        #![trigger blocks[j].1.entries@[k]]
        0 <= j < blocks.len() && 0 <= k < blocks[j].1.entries@.len() ==> links_back(
            blocks,
            blocks[j].1.entries@[k],
            blocks[j].0,
        ))
}

/// Go from instructions to blocks with ids: the ordered block map and the
/// per-block handler tables, keyed by exception type name and valued by the
/// target block id.
///
/// Every entry of every returned block names another block of the map whose
/// exit list contains the entry's own block.
#[verifier::rlimit(100)]
pub fn analyse_control_flow(insns: &Vec<AstInstruction>, tries: &Vec<TryItem>) -> (r: Result<
    (Vec<(usize, BasicBlock)>, Vec<HandlerTable>),
    ParserError,
>)
    requires
        wf_insns(insns@),
    ensures
        r matches Result::Ok(out) ==> analysed(insns@, tries@, out.0@, out.1@),
{
    let n = insns.len();
    // The exits of each instruction.
    let mut all_exits: Vec<Vec<usize>> = Vec::new();
    let mut i: usize = 0;
    #[verifier::loop_isolation(false)]
    while i < n
        invariant
            i <= n,
            all_exits@.len() == i,
        decreases n - i,
    {
        let e = match exits(i, &insns[i], insns) {
            Result::Err(e) => {
                return Result::Err(e);
            },
            Result::Ok(v) => v,
        };
        all_exits.push(e);
        i = i + 1;
    }
    // The instruction-level entries, linked back from the exits.
    let mut all_entries: Vec<Vec<usize>> = Vec::new();
    let mut t: usize = 0;
    #[verifier::loop_isolation(false)]
    while t < n
        invariant
            t <= n,
            all_entries@.len() == t,
            all_exits@.len() == n,
        decreases n - t,
    {
        let mut row: Vec<usize> = Vec::new();
        let mut j: usize = 0;
        #[verifier::loop_isolation(false)]
        while j < n
            invariant
                j <= n,
                all_exits@.len() == n,
            decreases n - j,
        {
            if contains_usize(&all_exits[j], t) {
                row.push(j);
            }
            j = j + 1;
        }
        all_entries.push(row);
        t = t + 1;
    }
    // Translate each try range from word addresses to instruction positions.
    let mut ranges: Vec<(usize, usize, HandlerTable)> = Vec::new();
    let mut handler_targets: Vec<usize> = Vec::new();
    let mut ti: usize = 0;
    #[verifier::loop_isolation(false)]
    while ti < tries.len()
        invariant
            ti <= tries@.len(),
            ranges@.len() == ti,
            forall|k: int| 0 <= k < ranges@.len() ==> (#[trigger] ranges@[k]).2.wf(),
        decreases tries@.len() - ti,
    {
        let tr = &tries[ti];
        let start_idx = match index_at_words(tr.start_addr as u64, 0, insns) {
            Result::Err(e) => {
                return Result::Err(e);
            },
            Result::Ok(v) => v,
        };
        // The try's length in words, translated to an instruction count from
        // its start.
        let end_idx = match index_at_words(tr.insn_count as u64, start_idx, insns) {
            Result::Err(e) => {
                return Result::Err(e);
            },
            Result::Ok(v) => v,
        };
        let mut hs: HandlerTable = Table::new();
        let mut hi: usize = 0;
        #[verifier::loop_isolation(false)]
        while hi < tr.handlers.len()
            invariant
                hi <= tr.handlers@.len(),
                hs.wf(),
            decreases tr.handlers@.len() - hi,
        {
            let h = &tr.handlers[hi];
            let target = match index_at_words(h.addr as u64, 0, insns) {
                Result::Err(e) => {
                    return Result::Err(e);
                },
                Result::Ok(v) => v,
            };
            hs.insert(h.type_.clone(), target);
            handler_targets.push(target);
            hi = hi + 1;
        }
        ranges.push((start_idx, end_idx, hs));
        ti = ti + 1;
    }
    // One handler table per try range, in try order.
    let mut new_handlers: Vec<HandlerTable> = Vec::new();
    let mut ri: usize = 0;
    #[verifier::loop_isolation(false)]
    while ri < ranges.len()
        invariant
            ri <= ranges@.len(),
            new_handlers@.len() == ri,
            forall|k: int| 0 <= k < ranges@.len() ==> (#[trigger] ranges@[k]).2.wf(),
            forall|k: int| 0 <= k < new_handlers@.len() ==> (#[trigger] new_handlers@[k]).wf(),
        decreases ranges@.len() - ri,
    {
        new_handlers.push(ranges[ri].2.duplicate_copied());
        ri = ri + 1;
    }
    // Partition into basic blocks: a leader starts a new block.
    let mut blocks: Vec<(usize, BasicBlock)> = Vec::new();
    let mut cur_block = BasicBlock::new();
    let mut cur_id: usize = 0;
    let mut last_was_goto = false;
    let mut i: usize = 0;
    #[verifier::loop_isolation(false)]
    while i < n
        invariant
            i <= n,
            i == 0 ==> cur_id == 0 && blocks@.len() == 0,
            i > 0 ==> cur_id < i,
            cur_block.body@.len() == i - cur_id,
            forall|k: int|
                #![trigger cur_block.body@[k]]
                0 <= k < cur_block.body@.len() ==> cur_block.body@[k] == cur_id + k,
            blocks@.len() == 0 ==> cur_id == 0,
            blocks@.len() > 0 ==> blocks@[0].0 == 0,
            blocks@.len() > 0 ==> blocks@.last().0 + blocks@.last().1.body@.len() == cur_id,
            forall|b: int, k: int|
                #![trigger blocks@[b].1.body@[k]]
                0 <= b < blocks@.len() && 0 <= k < blocks@[b].1.body@.len() ==> blocks@[b].1.body@[k]
                    == blocks@[b].0 + k,
            forall|b: int|
                #![trigger blocks@[b]]
                0 <= b < blocks@.len() - 1 ==> blocks@[b + 1].0 == blocks@[b].0
                    + blocks@[b].1.body@.len(),
            forall|b: int| 0 <= b < blocks@.len() ==> (#[trigger] blocks@[b]).1.body@.len() > 0,
            all_exits@.len() == n,
            all_entries@.len() == n,
            ranges@.len() == new_handlers@.len(),
            forall|k: int| 0 <= k < ranges@.len() ==> (#[trigger] ranges@[k]).2.wf(),
            forall|k: int| 0 <= k < new_handlers@.len() ==> (#[trigger] new_handlers@[k]).wf(),
            forall|b: int|
                0 <= b < blocks@.len() ==> ((#[trigger] blocks@[b]).1.handler matches Option::Some(
                    h,
                ) ==> h < new_handlers@.len()),
            (cur_block.handler matches Option::Some(h) ==> h < new_handlers@.len()),
        decreases n - i,
    {
        let mut is_try_start = false;
        let mut ri: usize = 0;
        #[verifier::loop_isolation(false)]
        while ri < ranges.len()
            invariant
                ri <= ranges@.len(),
            decreases ranges@.len() - ri,
        {
            if ranges[ri].0 == i {
                is_try_start = true;
            }
            ri = ri + 1;
        }
        let is_handler_target = contains_usize(&handler_targets, i);
        let from_prev_only = {
            let ent = &all_entries[i];
            i >= 1 && ent.len() == 1 && ent[0] == i - 1
        };
        let mut starting_block = i == 0;
        if i != 0 && (!from_prev_only || last_was_goto || is_handler_target || is_try_start) {
            last_was_goto = false;
            blocks.push((cur_id, cur_block));
            cur_block = BasicBlock::new();
            cur_id = i;
            starting_block = true;
        }
        if starting_block {
            cur_block.is_handler = is_handler_target;
            // Attach the handler table of every try range covering this
            // block's first instruction; a block may lie within at most one
            // try range.
            let ghost body_snap = cur_block.body@;
            let mut ri: usize = 0;
            #[verifier::loop_isolation(false)]
            while ri < ranges.len()
                invariant
                    ri <= ranges@.len(),
                    ranges@.len() == new_handlers@.len(),
                    (cur_block.handler matches Option::Some(h) ==> h < new_handlers@.len()),
                    cur_block.body@ == body_snap,
                decreases ranges@.len() - ri,
            {
                if ranges[ri].0 <= i && i <= ranges[ri].1 {
                    match cur_block.handler {
                        Option::None => {
                            cur_block.handler = Option::Some(ri);
                        },
                        Option::Some(_) => {
                            return Result::Err(ParserError::OverlappingTries);
                        },
                    }
                }
                ri = ri + 1;
            }
        }
        cur_block.body.push(i);
        cur_block.exits = {
            let src = &all_exits[i];
            let mut copy: Vec<usize> = Vec::new();
            let mut ci: usize = 0;
            #[verifier::loop_isolation(false)]
            while ci < src.len()
                invariant
                    ci <= src@.len(),
                    copy@ =~= src@.subrange(0, ci as int),
                decreases src@.len() - ci,
            {
                copy.push(src[ci]);
                ci = ci + 1;
            }
            proof {
                assert(copy@ =~= src@);
            }
            copy
        };
        let linear = {
            let ex = &all_exits[i];
            i < usize::MAX && ex.len() == 1 && ex[0] == i + 1
        };
        if !linear {
            last_was_goto = true;
        }
        i = i + 1;
    }
    let ghost closing = cur_block;
    let ghost pre_final = blocks@;
    blocks.push((cur_id, cur_block));
    proof {
        assert(blocks@ == pre_final.push((cur_id, closing)));
        assert(blocks@.len() >= 1);
        assert(blocks@[0].0 == 0);
        assert forall|b: int, k: int|
            #![trigger blocks@[b].1.body@[k]]
            0 <= b < blocks@.len() && 0 <= k < blocks@[b].1.body@.len() implies blocks@[b].1.body@[k]
            == blocks@[b].0 + k by {
            if b < pre_final.len() {
                assert(blocks@[b] == pre_final[b]);
                assert(pre_final[b].1.body@[k] == pre_final[b].0 + k);
            } else {
                assert(blocks@[b] == (cur_id, closing));
                assert(closing.body@[k] == cur_id + k);
            }
        }
        assert forall|b: int|
            #![trigger blocks@[b]]
            0 <= b < blocks@.len() - 1 implies blocks@[b + 1].0 == blocks@[b].0
            + blocks@[b].1.body@.len() by {
            assert(blocks@[b] == pre_final[b]);
            if b + 1 < pre_final.len() {
                assert(blocks@[b + 1] == pre_final[b + 1]);
            } else {
                assert(blocks@[b + 1] == (cur_id, closing));
                assert(pre_final.last().0 + pre_final.last().1.body@.len() == cur_id);
            }
        }
        assert(blocks@.last() == (cur_id, closing));
        assert(blocks@.last().0 + blocks@.last().1.body@.len() == n);
        if n > 0 {
            assert forall|b: int| 0 <= b < blocks@.len() implies (
            #[trigger] blocks@[b]).1.body@.len() > 0 by {
                if b < pre_final.len() {
                    assert(blocks@[b] == pre_final[b]);
                } else {
                    assert(blocks@[b] == (cur_id, closing));
                    assert(cur_id < n);
                }
            }
        }
        assert forall|b: int| 0 <= b < blocks@.len() implies ((#[trigger] blocks@[b]).1.handler
            matches Option::Some(h) ==> h < new_handlers@.len()) by {
            if b < pre_final.len() {
                assert(blocks@[b] == pre_final[b]);
            } else {
                assert(blocks@[b] == (cur_id, closing));
            }
        }
    }
    // Back-link at block level: a block's entries are the blocks whose exit
    // list names it.
    let m = blocks.len();
    let mut linked: Vec<(usize, BasicBlock)> = Vec::new();
    let mut j: usize = 0;
    #[verifier::loop_isolation(false)]
    while j < m
        invariant
            j <= m,
            m == blocks@.len(),
            linked@.len() == j,
            forall|x: int|
                0 <= x < j ==> (#[trigger] linked@[x]).0 == blocks@[x].0 && linked@[x].1.exits@
                    == blocks@[x].1.exits@ && linked@[x].1.body@ == blocks@[x].1.body@
                    && linked@[x].1.handler == blocks@[x].1.handler,
            forall|x: int, k: int|
                #![trigger linked@[x].1.entries@[k]]
                0 <= x < j && 0 <= k < linked@[x].1.entries@.len() ==> links_back(
                    blocks@,
                    linked@[x].1.entries@[k],
                    blocks@[x].0,
                ),
        decreases m - j,
    {
        let ghost blocks0 = blocks@;
        let target_id = blocks[j].0;
        let mut row: Vec<usize> = Vec::new();
        let mut a: usize = 0;
        #[verifier::loop_isolation(false)]
        while a < m
            invariant
                a <= m,
                m == blocks@.len(),
                blocks@ == blocks0,
                j < m,
                target_id == blocks@[j as int].0,
                forall|k: int|
                    #![trigger row@[k]]
                    0 <= k < row@.len() ==> links_back(blocks@, row@[k], blocks@[j as int].0),
            decreases m - a,
        {
            if contains_usize(&blocks[a].1.exits, target_id) {
                let e_id = blocks[a].0;
                proof {
                    assert(blocks@[a as int].0 == e_id && blocks@[a as int].1.exits@.contains(
                        blocks@[j as int].0,
                    ));
                }
                let ghost old_row = row@;
                row.push(e_id);
                proof {
                    assert forall|k: int|
                        #![trigger row@[k]]
                        0 <= k < row@.len() implies links_back(
                        blocks@,
                        row@[k],
                        blocks@[j as int].0,
                    ) by {
                        if k < old_row.len() {
                            assert(row@[k] == old_row[k]);
                        } else {
                            assert(row@[k] == e_id);
                            assert(0 <= a < m && blocks@[a as int].0 == row@[k] && blocks@[a as int].1.exits@.contains(blocks@[j as int].0));
                        }
                    }
                }
            }
            a = a + 1;
        }
        let ghost row_v = row@;
        let b = &blocks[j];
        let mut nb = BasicBlock::new();
        nb.entries = row;
        nb.exits = {
            let src = &b.1.exits;
            let mut copy: Vec<usize> = Vec::new();
            let mut ci: usize = 0;
            #[verifier::loop_isolation(false)]
            while ci < src.len()
                invariant
                    ci <= src@.len(),
                    copy@ =~= src@.subrange(0, ci as int),
                decreases src@.len() - ci,
            {
                copy.push(src[ci]);
                ci = ci + 1;
            }
            proof {
                assert(copy@ =~= src@);
            }
            copy
        };
        nb.body = {
            let src = &b.1.body;
            let mut copy: Vec<usize> = Vec::new();
            let mut ci: usize = 0;
            #[verifier::loop_isolation(false)]
            while ci < src.len()
                invariant
                    ci <= src@.len(),
                    copy@ =~= src@.subrange(0, ci as int),
                decreases src@.len() - ci,
            {
                copy.push(src[ci]);
                ci = ci + 1;
            }
            proof {
                assert(copy@ =~= src@);
            }
            copy
        };
        nb.is_handler = b.1.is_handler;
        nb.handler = b.1.handler;
        let ghost nbv = nb;
        let ghost pre_linked = linked@;
        linked.push((target_id, nb));
        proof {
            assert forall|x: int, k: int|
                #![trigger linked@[x].1.entries@[k]]
                0 <= x < linked@.len() && 0 <= k < linked@[x].1.entries@.len() implies links_back(
                blocks@,
                linked@[x].1.entries@[k],
                blocks@[x].0,
            ) by {
                if x < pre_linked.len() {
                    assert(linked@[x] == pre_linked[x]);
                } else {
                    assert(linked@[x] == (target_id, nbv));
                    assert(nbv.entries@ == row_v);
                    assert(links_back(blocks@, row_v[k], blocks@[j as int].0));
                }
            }
        }
        j = j + 1;
    }
    proof {
        assert(linked@.len() == blocks@.len());
        assert(linked@.len() >= 1);
        assert(linked@[0].0 == blocks@[0].0);
        assert forall|b: int, k: int|
            #![trigger linked@[b].1.body@[k]]
            0 <= b < linked@.len() && 0 <= k < linked@[b].1.body@.len() implies linked@[b].1.body@[k]
            == linked@[b].0 + k by {
            assert(linked@[b].1.body@ == blocks@[b].1.body@ && linked@[b].0 == blocks@[b].0);
            assert(blocks@[b].1.body@[k] == blocks@[b].0 + k);
        }
        assert forall|b: int|
            #![trigger linked@[b]]
            0 <= b < linked@.len() - 1 implies linked@[b + 1].0 == linked@[b].0
            + linked@[b].1.body@.len() by {
            assert(linked@[b].0 == blocks@[b].0 && linked@[b].1.body@ == blocks@[b].1.body@);
            assert(linked@[b + 1].0 == blocks@[b + 1].0);
        }
        assert(linked@.last().0 == blocks@.last().0 && linked@.last().1.body@
            == blocks@.last().1.body@);
        if n > 0 {
            assert forall|b: int| 0 <= b < linked@.len() implies (
            #[trigger] linked@[b]).1.body@.len() > 0 by {
                assert(linked@[b].1.body@ == blocks@[b].1.body@);
                assert(blocks@[b].1.body@.len() > 0);
            }
        }
        assert forall|b: int| 0 <= b < linked@.len() implies ((#[trigger] linked@[b]).1.handler
            matches Option::Some(h) ==> h < new_handlers@.len()) by {
            assert(linked@[b].1.handler == blocks@[b].1.handler);
        }
        assert forall|x: int, k: int|
            #![trigger linked@[x].1.entries@[k]]
            0 <= x < linked@.len() && 0 <= k < linked@[x].1.entries@.len() implies links_back(
            linked@,
            linked@[x].1.entries@[k],
            linked@[x].0,
        ) by {
            assert(links_back(blocks@, linked@[x].1.entries@[k], blocks@[x].0));
            let a0 = choose|a: int|
                0 <= a < blocks@.len() && blocks@[a].0 == linked@[x].1.entries@[k] && blocks@[a].1.exits@.contains(blocks@[x].0);
            assert(linked@[a0].0 == blocks@[a0].0 && linked@[a0].1.exits@ == blocks@[a0].1.exits@);
            assert(0 <= a0 < linked@.len() && linked@[a0].0 == linked@[x].1.entries@[k] && linked@[a0].1.exits@.contains(linked@[x].0));
        }
    }
    Result::Ok((linked, new_handlers))
}

/// The items of a rendered id list, separated by commas.
pub open spec fn list_inner(s: Seq<usize>) -> Seq<char>
    decreases s.len(),
{
    if s.len() == 0 {
        Seq::empty()
    } else if s.len() == 1 {
        text::decimal(s[0] as int)
    } else {
        list_inner(s.drop_last()) + ", "@ + text::decimal(s.last() as int)
    }
}

/// A rendered id list in brackets.
pub open spec fn list_ir(s: Seq<usize>) -> Seq<char> {
    "["@ + list_inner(s) + "]"@
}

/// Render an id list.
fn render_list(v: &Vec<usize>) -> (out: String)
    ensures
        out@ == list_ir(v@),
{
    let mut out = String::new();
    out.append("[");
    let n = v.len();
    let mut i: usize = 0;
    #[verifier::loop_isolation(false)]
    while i < n
        invariant
            i <= n,
            n == v@.len(),
            out@ == "["@ + list_inner(v@.take(i as int)),
        decreases n - i,
    {
        proof {
            assert(v@.take(i + 1).drop_last() =~= v@.take(i as int));
        }
        if i > 0 {
            out.append(", ");
        }
        let d = text::format_usize(v[i]);
        out.append(d.as_str());
        i = i + 1;
        proof {
            assert(out@ =~= "["@ + list_inner(v@.take(i as int)));
        }
    }
    out.append("]");
    proof {
        assert(v@.take(n as int) =~= v@);
        assert(out@ =~= list_ir(v@));
    }
    out
}

/// One line per block of the analysis: its id, entries and exits.
pub open spec fn analysis_ir(s: Seq<(usize, BasicBlock)>) -> Seq<char>
    decreases s.len(),
{
    if s.len() == 0 {
        Seq::empty()
    } else {
        analysis_ir(s.drop_last()) + text::decimal(s.last().0 as int) + "| En: "@ + list_ir(
            s.last().1.entries@,
        ) + " ; Ex: "@ + list_ir(s.last().1.exits@) + "\n"@
    }
}

/// Render the analysis to a readable format, one line per block.
pub fn format_analysis(analysis: &(Vec<(usize, BasicBlock)>, Vec<HandlerTable>)) -> (out: String)
    ensures
        out@ == analysis_ir(analysis.0@),
{
    let mut out = String::new();
    let blocks = &analysis.0;
    let n = blocks.len();
    let mut i: usize = 0;
    proof {
        assert(out@ =~= analysis_ir(blocks@.take(0)));
    }
    #[verifier::loop_isolation(false)]
    while i < n
        invariant
            i <= n,
            n == blocks@.len(),
            out@ == analysis_ir(blocks@.take(i as int)),
        decreases n - i,
    {
        proof {
            assert(blocks@.take(i + 1).drop_last() =~= blocks@.take(i as int));
        }
        let d = text::format_usize(blocks[i].0);
        out.append(d.as_str());
        out.append("| En: ");
        let en = render_list(&blocks[i].1.entries);
        out.append(en.as_str());
        out.append(" ; Ex: ");
        let ex = render_list(&blocks[i].1.exits);
        out.append(ex.as_str());
        out.append("\n");
        i = i + 1;
        proof {
            assert(out@ =~= analysis_ir(blocks@.take(i as int)));
        }
    }
    proof {
        assert(blocks@.take(n as int) =~= blocks@);
    }
    out
}

} // verus!
