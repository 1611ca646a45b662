//! The small-step semantics of one interpreter frame, stated over the
//! mathematical views. The interpreter refines this machine: whatever the
//! machine fully determines, `run_interpreted` returns.
//!
//! The machine stops with `CallsOut` where an instruction invokes another
//! function: from there on the outcome depends on the module's other
//! functions, and the interpreter's contract makes no promise.

use vstd::prelude::*;

use crate::errors::ErrorV;
use crate::function::FnV;
use crate::instructions::{
    BinOpKind, BinOpLitKind, GetPutKind, IfKind, InstructionV, InvokeKind, LiteralV, ReturnType,
};
use crate::runtime::{string_instance, InstanceV, ValueV};

verus! {

/// One frame's machine state: register file, program counter, return-value
/// slot and pending-exception slot.
#[verifier::ext_equal]
pub struct FrameV {
    pub regs: Seq<ValueV>,
    pub pc: int,
    pub ret: ValueV,
    pub exc: Option<InstanceV>,
}

/// The state a frame shares with the module: the static table and the
/// instance store.
#[verifier::ext_equal]
pub struct GlobalsV {
    pub statics: Map<Seq<char>, ValueV>,
    pub store: Seq<InstanceV>,
}

/// How a frame ends: a value, a catchable exception, or a runtime error.
#[verifier::ext_equal]
pub enum Outcome {
    Okay(ValueV),
    Exception(InstanceV),
    Error(ErrorV),
}

/// The result of one machine step.
#[verifier::ext_equal]
pub enum StepOut {
    Next(FrameV, GlobalsV),
    Final(Outcome, GlobalsV),
    CallsOut,
}

/// The position of the label a jump to `id` lands on: the last `Label(id)`
/// in the instruction list, as the interpreter's label index has it.
pub open spec fn label_index(body: Seq<(InstructionV, Option<usize>)>, id: int) -> Option<int>
    decreases body.len(),
{
    if body.len() == 0 {
        Option::None
    } else if body.last().0 == InstructionV::Label(id) {
        Option::Some(body.len() - 1)
    } else {
        label_index(body.drop_last(), id)
    }
}

/// The description a failed cast to an array index carries.
pub open spec fn cast_to_index_msg(v: ValueV) -> Seq<char> {
    v.kind_name() + " as index"@
}

/// The description a failed cast to an array carries.
pub open spec fn cast_to_array_msg(v: ValueV) -> Seq<char> {
    v.kind_name() + " as array"@
}

/// 32-bit wrapping addition.
pub open spec fn wrap_add(a: i32, b: i32) -> i32 {
    vstd::wrapping::i32_specs::wrapping_add(a, b)
}

/// 32-bit division, truncating toward zero, wrapping on overflow.
pub open spec fn wrap_div(a: i32, b: i32) -> i32
    recommends
        b != 0,
{
    let ua = if a >= 0 {
        a as int
    } else {
        -(a as int)
    };
    let ub = if b >= 0 {
        b as int
    } else {
        -(b as int)
    };
    let uq = ua / ub;
    let r = if (a >= 0) == (b >= 0) {
        uq
    } else {
        -uq
    };
    if r == 0x8000_0000 {
        i32::MIN
    } else {
        r as i32
    }
}

/// The exception thrown by a division by zero: an instance of the
/// arithmetic-exception type whose `value` field holds a fresh string
/// instance reading "/ by zero".
pub open spec fn div_by_zero_exception(next_id: int) -> InstanceV {
    InstanceV {
        class_type: "Ljava/lang/ArithmeticException;"@,
        fields: Map::<Seq<char>, ValueV>::empty().insert("value"@, ValueV::Instance(next_id)),
    }
}

/// Route a thrown exception: no handler index ends the frame with the
/// exception; with one, an exact match on the type name jumps to the
/// handler's label, and a miss ends the frame with the exception.
pub open spec fn throw_to(
    f: FnV,
    fr: FrameV,
    g: GlobalsV,
    e: InstanceV,
    handler: Option<usize>,
) -> StepOut {
    match handler {
        Option::None => StepOut::Final(Outcome::Exception(e), g),
        Option::Some(h) => {
            if h >= f.handlers.len() {
                StepOut::Final(Outcome::Error(ErrorV::BadJumpTarget), g)
            } else if f.handlers[h as int].dom().contains(e.class_type) {
                let target = f.handlers[h as int][e.class_type];
                match label_index(f.body, target as int) {
                    Option::None => StepOut::Final(Outcome::Error(ErrorV::BadJumpTarget), g),
                    Option::Some(ix) => StepOut::Next(
                        FrameV { pc: ix, exc: Option::Some(e), ..fr },
                        g,
                    ),
                }
            } else {
                StepOut::Final(Outcome::Exception(e), g)
            }
        },
    }
}

/// Whether a register number is inside the frame's register file.
pub open spec fn reg_ok(fr: FrameV, r: int) -> bool {
    0 <= r < fr.regs.len()
}

/// A frame ending with a register access outside the file.
pub open spec fn reg_oob(g: GlobalsV) -> StepOut {
    StepOut::Final(Outcome::Error(ErrorV::RegisterOutOfBounds), g)
}

/// A frame ending with an `Unimplemented` runtime error.
pub open spec fn unimpl(g: GlobalsV, what: Seq<char>) -> StepOut {
    StepOut::Final(Outcome::Error(ErrorV::Unimplemented(what)), g)
}

/// A jump to label `id`: the program counter moves onto the label, or the
/// frame ends with a bad-jump-target error.
pub open spec fn jump_to(f: FnV, fr: FrameV, g: GlobalsV, id: int) -> StepOut {
    match label_index(f.body, id) {
        Option::None => StepOut::Final(Outcome::Error(ErrorV::BadJumpTarget), g),
        Option::Some(ix) => StepOut::Next(FrameV { pc: ix, ..fr }, g),
    }
}

/// Whether all of an invocation's argument registers are inside the frame's
/// register file.
pub open spec fn args_ok(fr: FrameV, args: Seq<u8>, argc: int) -> bool {
    forall|i: int| 0 <= i < argc ==> reg_ok(fr, #[trigger] (args[i]) as int)
}

/// The comparison an `If` instruction performs on two 32-bit values.
pub open spec fn if_holds(kind: IfKind, a: i32, b: i32) -> bool {
    match kind {
        IfKind::Eq => a == b,
        IfKind::Ne => a != b,
        IfKind::Lt => a < b,
        IfKind::Ge => a >= b,
        IfKind::Gt => a > b,
        IfKind::Le => a <= b,
    }
}

/// One machine step. Past the end of the instruction list the frame ends
/// with `Okay(Void)`; otherwise the instruction under the program counter
/// executes with the counter already advanced.
pub open spec fn machine_step(f: FnV, fr: FrameV, g: GlobalsV) -> StepOut {
    if !(0 <= fr.pc < f.body.len()) {
        StepOut::Final(Outcome::Okay(ValueV::Void), g)
    } else {
        let ins = f.body[fr.pc].0;
        let handler = f.body[fr.pc].1;
        let fr1 = FrameV { pc: fr.pc + 1, ..fr };
        step_instruction(f, fr1, g, ins, handler)
    }
}

/// The effect of one instruction, with the program counter already past it.
pub open spec fn step_instruction(
    f: FnV,
    fr: FrameV,
    g: GlobalsV,
    ins: InstructionV,
    handler: Option<usize>,
) -> StepOut {
    match ins {
        InstructionV::Label(_) => StepOut::Next(fr, g),
        InstructionV::Nop => StepOut::Next(fr, g),
        InstructionV::MoveResult(_, r) => {
            if !reg_ok(fr, r) {
                reg_oob(g)
            } else {
                StepOut::Next(
                    FrameV { regs: fr.regs.update(r, fr.ret), ret: ValueV::Void, ..fr },
                    g,
                )
            }
        },
        InstructionV::MoveException(r) => {
            match fr.exc {
                Option::None => unimpl(g, "no exception to move"@),
                Option::Some(e) => {
                    if !reg_ok(fr, r) {
                        reg_oob(g)
                    } else {
                        StepOut::Next(
                            FrameV {
                                regs: fr.regs.update(r, ValueV::Instance(g.store.len() as int)),
                                exc: Option::None,
                                ..fr
                            },
                            GlobalsV { store: g.store.push(e), ..g },
                        )
                    }
                },
            }
        },
        InstructionV::Return(ty) => {
            match ty {
                ReturnType::Void => StepOut::Final(Outcome::Okay(ValueV::Void), g),
                ReturnType::Single(r) => {
                    if !reg_ok(fr, r as int) {
                        reg_oob(g)
                    } else {
                        StepOut::Final(Outcome::Okay(ValueV::U32(fr.regs[r as int].single())), g)
                    }
                },
                ReturnType::Wide(_) => unimpl(g, "return-wide"@),
                ReturnType::Object(r) => {
                    if !reg_ok(fr, r as int) {
                        reg_oob(g)
                    } else {
                        StepOut::Final(Outcome::Okay(fr.regs[r as int]), g)
                    }
                },
            }
        },
        InstructionV::ConstSet(r, lit) => {
            if !reg_ok(fr, r) {
                reg_oob(g)
            } else {
                match lit {
                    LiteralV::Lit(i) => StepOut::Next(
                        FrameV { regs: fr.regs.update(r, ValueV::U32(i)), ..fr },
                        g,
                    ),
                    LiteralV::Wide(w) => StepOut::Next(
                        FrameV { regs: fr.regs.update(r, ValueV::U64(w)), ..fr },
                        g,
                    ),
                    LiteralV::Str(s) => StepOut::Next(
                        FrameV {
                            regs: fr.regs.update(r, ValueV::Instance(g.store.len() as int)),
                            ..fr
                        },
                        GlobalsV { store: g.store.push(string_instance(s)), ..g },
                    ),
                    LiteralV::Class(_) => unimpl(g, "const class"@),
                }
            }
        },
        InstructionV::GoTo(l) => jump_to(f, fr, g, l),
        InstructionV::If(kind, a, b, l) => {
            if !reg_ok(fr, a) {
                reg_oob(g)
            } else if !reg_ok(fr, b) {
                reg_oob(g)
            } else {
                match (fr.regs[a], fr.regs[b]) {
                    (ValueV::U32(x), ValueV::U32(y)) => {
                        if if_holds(kind, x, y) {
                            jump_to(f, fr, g, l)
                        } else {
                            StepOut::Next(fr, g)
                        }
                    },
                    _ => unimpl(g, "if on non-integer values"@),
                }
            }
        },
        InstructionV::NewInstance(r, _) => {
            if !reg_ok(fr, r) {
                reg_oob(g)
            } else {
                StepOut::Next(
                    FrameV { regs: fr.regs.update(r, ValueV::Instance(g.store.len() as int)), ..fr },
                    GlobalsV { store: g.store.push(InstanceV::empty()), ..g },
                )
            }
        },
        InstructionV::NewArray(r, _, _) => {
            if !reg_ok(fr, r) {
                reg_oob(g)
            } else {
                StepOut::Next(
                    FrameV { regs: fr.regs.update(r, ValueV::Array(Seq::empty())), ..fr },
                    g,
                )
            }
        },
        InstructionV::FillArrayData(r, data) => {
            if !reg_ok(fr, r) {
                reg_oob(g)
            } else {
                StepOut::Next(FrameV { regs: fr.regs.update(r, ValueV::Array(data)), ..fr }, g)
            }
        },
        InstructionV::ArrayGet(kind, d, a, i) => {
            if !reg_ok(fr, i) {
                reg_oob(g)
            } else if !(fr.regs[i] is U32) {
                StepOut::Final(Outcome::Error(ErrorV::CastError(cast_to_index_msg(fr.regs[i]))), g)
            } else if !reg_ok(fr, a) {
                reg_oob(g)
            } else if !(fr.regs[a] is Array) {
                StepOut::Final(Outcome::Error(ErrorV::CastError(cast_to_array_msg(fr.regs[a]))), g)
            } else {
                let idx = (fr.regs[i]->U32_0 as u32) as int;
                let arr = fr.regs[a]->Array_0;
                match kind {
                    GetPutKind::Single | GetPutKind::Boolean => {
                        if idx >= arr.len() {
                            unimpl(g, "array index out of bounds"@)
                        } else if !reg_ok(fr, d) {
                            reg_oob(g)
                        } else {
                            StepOut::Next(FrameV { regs: fr.regs.update(d, arr[idx]), ..fr }, g)
                        }
                    },
                    _ => unimpl(g, "array-get kind"@),
                }
            }
        },
        InstructionV::InstanceGet(kind, d, o, field) => {
            if !reg_ok(fr, o) {
                reg_oob(g)
            } else {
                match fr.regs[o] {
                    ValueV::Instance(id) => {
                        if !(0 <= id < g.store.len()) {
                            StepOut::Final(
                                Outcome::Error(ErrorV::CastError("dangling instance handle"@)),
                                g,
                            )
                        } else {
                            match kind {
                                GetPutKind::Single | GetPutKind::Object => {
                                    let value = if g.store[id].fields.dom().contains(field) {
                                        g.store[id].fields[field]
                                    } else {
                                        ValueV::Void
                                    };
                                    if !reg_ok(fr, d) {
                                        reg_oob(g)
                                    } else {
                                        StepOut::Next(
                                            FrameV { regs: fr.regs.update(d, value), ..fr },
                                            g,
                                        )
                                    }
                                },
                                _ => unimpl(g, "instance-get kind"@),
                            }
                        }
                    },
                    v => StepOut::Final(
                        Outcome::Error(ErrorV::CastError(v.kind_name() + " as instance"@)),
                        g,
                    ),
                }
            }
        },
        InstructionV::InstancePut(kind, s, o, field) => {
            if !reg_ok(fr, o) {
                reg_oob(g)
            } else {
                match fr.regs[o] {
                    ValueV::Instance(id) => {
                        if !(0 <= id < g.store.len()) {
                            StepOut::Final(
                                Outcome::Error(ErrorV::CastError("dangling instance handle"@)),
                                g,
                            )
                        } else if !reg_ok(fr, s) {
                            reg_oob(g)
                        } else {
                            match kind {
                                GetPutKind::Single | GetPutKind::Object => {
                                    let inst = g.store[id];
                                    let inst2 = InstanceV {
                                        fields: inst.fields.insert(field, fr.regs[s]),
                                        ..inst
                                    };
                                    StepOut::Next(
                                        fr,
                                        GlobalsV { store: g.store.update(id, inst2), ..g },
                                    )
                                },
                                _ => unimpl(g, "instance-put kind"@),
                            }
                        }
                    },
                    v => StepOut::Final(
                        Outcome::Error(ErrorV::CastError(v.kind_name() + " as instance"@)),
                        g,
                    ),
                }
            }
        },
        InstructionV::StaticGet(kind, d, name) => {
            let value = if g.statics.dom().contains(name) {
                g.statics[name]
            } else {
                ValueV::Void
            };
            if !reg_ok(fr, d) {
                reg_oob(g)
            } else {
                match kind {
                    GetPutKind::Single | GetPutKind::Object => StepOut::Next(
                        FrameV { regs: fr.regs.update(d, value), ..fr },
                        g,
                    ),
                    _ => unimpl(g, "static-get kind"@),
                }
            }
        },
        InstructionV::StaticPut(kind, s, name) => {
            if !reg_ok(fr, s) {
                reg_oob(g)
            } else {
                match kind {
                    GetPutKind::Single => StepOut::Next(
                        fr,
                        GlobalsV { statics: g.statics.insert(name, fr.regs[s]), ..g },
                    ),
                    _ => unimpl(g, "static-put kind"@),
                }
            }
        },
        InstructionV::Invoke(kind, _, argc, args) => {
            match kind {
                InvokeKind::Direct | InvokeKind::Static | InvokeKind::Virtual => {
                    if argc > 5 {
                        unimpl(g, "too many arguments"@)
                    } else if !args_ok(fr, args, argc) {
                        reg_oob(g)
                    } else {
                        StepOut::CallsOut
                    }
                },
                _ => unimpl(g, "invoke kind"@),
            }
        },
        InstructionV::BinOp2Addr(kind, d, s) => {
            match kind {
                BinOpKind::AddInt => {
                    if !reg_ok(fr, d) {
                        reg_oob(g)
                    } else if !reg_ok(fr, s) {
                        reg_oob(g)
                    } else {
                        let x = fr.regs[d].single();
                        let y = fr.regs[s].single();
                        StepOut::Next(
                            FrameV { regs: fr.regs.update(d, ValueV::U32(wrap_add(x, y))), ..fr },
                            g,
                        )
                    }
                },
                _ => unimpl(g, "binop kind"@),
            }
        },
        InstructionV::BinOpLit(kind, d, s, lit) => {
            match kind {
                BinOpLitKind::AddInt => {
                    if !reg_ok(fr, s) {
                        reg_oob(g)
                    } else if !reg_ok(fr, d) {
                        reg_oob(g)
                    } else {
                        let x = fr.regs[s].single();
                        StepOut::Next(
                            FrameV {
                                regs: fr.regs.update(d, ValueV::U32(wrap_add(x, lit as i32))),
                                ..fr
                            },
                            g,
                        )
                    }
                },
                BinOpLitKind::DivInt => {
                    if !reg_ok(fr, s) {
                        reg_oob(g)
                    } else if lit == 0 {
                        let g2 = GlobalsV { store: g.store.push(string_instance("/ by zero"@)), ..g };
                        let e = div_by_zero_exception(g.store.len() as int);
                        throw_to(f, fr, g2, e, handler)
                    } else {
                        let x = fr.regs[s].single();
                        if !reg_ok(fr, d) {
                            reg_oob(g)
                        } else {
                            StepOut::Next(
                                FrameV {
                                    regs: fr.regs.update(d, ValueV::U32(wrap_div(x, lit as i32))),
                                    ..fr
                                },
                                g,
                            )
                        }
                    }
                },
                _ => unimpl(g, "binop-lit kind"@),
            }
        },
        InstructionV::Unsupported(what) => unimpl(g, what),
    }
}

/// The state the machine is in after `n` steps: still mid-run, done with an
/// outcome, or past a call into another function.
#[verifier::ext_equal]
pub enum RunState {
    Mid(FrameV, GlobalsV),
    Done(Outcome, GlobalsV),
    Out,
}

/// Run the machine for `n` steps from the given frame and globals. `Done`
/// and `Out` absorb: once reached, further steps change nothing.
pub open spec fn machine_run(f: FnV, fr: FrameV, g: GlobalsV, n: nat) -> RunState
    decreases n,
{
    if n == 0 {
        RunState::Mid(fr, g)
    } else {
        match machine_run(f, fr, g, (n - 1) as nat) {
            RunState::Mid(fr1, g1) => match machine_step(f, fr1, g1) {
                StepOut::Next(fr2, g2) => RunState::Mid(fr2, g2),
                StepOut::Final(o, g2) => RunState::Done(o, g2),
                StepOut::CallsOut => RunState::Out,
            },
            RunState::Done(o, g1) => RunState::Done(o, g1),
            RunState::Out => RunState::Out,
        }
    }
}

/// The register file a frame starts with: `Void` everywhere, then the
/// parameters in the highest-numbered registers.
pub open spec fn initial_regs(n_regs: int, params: Seq<ValueV>) -> Seq<ValueV> {
    Seq::new(
        n_regs as nat,
        |i: int|
            if i >= n_regs - params.len() {
                params[i - (n_regs - params.len())]
            } else {
                ValueV::Void
            },
    )
}

/// The frame a function starts in.
pub open spec fn initial_frame(f: FnV, params: Seq<ValueV>) -> FrameV {
    FrameV {
        regs: initial_regs(f.n_regs as int, params),
        pc: 0,
        ret: ValueV::Void,
        exc: Option::None,
    }
}

/// After a run has called out, no step count ever reaches a `Done` state.
pub proof fn lemma_out_never_done(f: FnV, fr: FrameV, g: GlobalsV, k: nat)
    requires
        machine_run(f, fr, g, k) is Out,
    ensures
        forall|n: nat| !((#[trigger] machine_run(f, fr, g, n)) is Done),
{
    assert forall|n: nat| !((#[trigger] machine_run(f, fr, g, n)) is Done) by {
        if n <= k {
            lemma_run_absorbs(f, fr, g, n, k);
        } else {
            lemma_run_absorbs(f, fr, g, k, n);
        }
    }
}

/// While the run is still mid-way at `m` steps, no earlier count is `Done`.
pub proof fn lemma_no_done_before_mid(f: FnV, fr: FrameV, g: GlobalsV, m: nat)
    requires
        machine_run(f, fr, g, m) is Mid,
    ensures
        forall|n: nat| n <= m ==> !((#[trigger] machine_run(f, fr, g, n)) is Done),
{
    assert forall|n: nat| n <= m implies !((#[trigger] machine_run(f, fr, g, n)) is Done) by {
        lemma_run_absorbs(f, fr, g, n, m);
    }
}

/// Once done, every later count is done with the same outcome.
pub proof fn lemma_done_unique(f: FnV, fr: FrameV, g: GlobalsV, k: nat)
    requires
        machine_run(f, fr, g, k) is Done,
    ensures
        forall|n: nat|
            (#[trigger] machine_run(f, fr, g, n)) is Done ==> machine_run(f, fr, g, n)
                == machine_run(f, fr, g, k),
{
    assert forall|n: nat| (#[trigger] machine_run(f, fr, g, n)) is Done implies machine_run(
        f,
        fr,
        g,
        n,
    ) == machine_run(f, fr, g, k) by {
        if n <= k {
            lemma_run_absorbs(f, fr, g, n, k);
        } else {
            lemma_run_absorbs(f, fr, g, k, n);
        }
    }
}

/// A function consisting only of a 32-bit constant load into its one
/// register and a single-value return of that register, run with no
/// parameters, ends with exactly that constant, whatever the globals and
/// whatever the constant.
pub proof fn lemma_const_return(k: i32, g: GlobalsV, f: FnV)
    requires
        f.n_regs == 1,
        f.n_params == 0,
        f.body == seq![
            (
                InstructionV::ConstSet(0, crate::instructions::LiteralV::Lit(k)),
                Option::<usize>::None,
            ),
            (InstructionV::Return(ReturnType::Single(0)), Option::<usize>::None),
        ],
    ensures
        machine_run(f, initial_frame(f, Seq::empty()), g, 2) == RunState::Done(
            Outcome::Okay(ValueV::U32(k)),
            g,
        ),
{
    let fr0 = initial_frame(f, Seq::empty());
    assert(fr0.regs =~= seq![ValueV::Void]);
    assert(f.body[0].0 == InstructionV::ConstSet(0, crate::instructions::LiteralV::Lit(k)));
    let fr1 = FrameV { pc: 1, ..fr0 };
    let fr1b = FrameV { regs: fr1.regs.update(0, ValueV::U32(k)), ..fr1 };
    assert(machine_step(f, fr0, g) == StepOut::Next(fr1b, g));
    assert(machine_run(f, fr0, g, 0) == RunState::Mid(fr0, g));
    assert(machine_run(f, fr0, g, 1) == RunState::Mid(fr1b, g));
    assert(f.body[1].0 == InstructionV::Return(ReturnType::Single(0)));
    assert(fr1b.regs[0] == ValueV::U32(k));
    assert(fr1b.regs[0].single() == k);
    assert(machine_step(f, fr1b, g) == StepOut::Final(Outcome::Okay(ValueV::U32(k)), g));
    assert(machine_run(f, fr0, g, 2) == RunState::Done(Outcome::Okay(ValueV::U32(k)), g));
}

/// `Done` and `Out` absorb later steps.
pub proof fn lemma_run_absorbs(f: FnV, fr: FrameV, g: GlobalsV, n1: nat, n2: nat)
    requires
        n1 <= n2,
    ensures
        machine_run(f, fr, g, n1) is Done ==> machine_run(f, fr, g, n2) == machine_run(
            f,
            fr,
            g,
            n1,
        ),
        machine_run(f, fr, g, n1) is Out ==> machine_run(f, fr, g, n2) is Out,
    decreases n2,
{
    if n1 < n2 {
        lemma_run_absorbs(f, fr, g, n1, (n2 - 1) as nat);
    }
}

} // verus!
