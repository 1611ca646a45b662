//! The interpreter: per-call frames, the fetch/execute step, and the driving
//! loop that runs a function to completion with an explicit frame stack.
//!
//! The step function refines the machine of [`crate::machine`]: whenever the
//! machine determines the next state or the frame's outcome, the executable
//! step produces exactly that.

use vstd::prelude::*;

use std::rc::Rc;

use crate::callstack::CallStack;
use crate::errors::{ErrorV, RuntimeError};
use crate::function::InterpretedFunction;
use crate::instructions::Instruction;
use crate::machine::{machine_step, label_index, FrameV, Outcome, StepOut};
use crate::module::Module;
use crate::runtime::{seq_view, Instance, InvokeResult, Value};

verus! {

/// The runtime state of one in-progress call: the function being run, its
/// register file, program counter, return and exception slots, its call
/// stack, and the handler index of the invoke that is currently waiting on a
/// callee.
pub struct Frame {
    pub fun: InterpretedFunction,
    pub regs: Vec<Value>,
    pub pc: usize,
    pub ret: Value,
    pub exc: Option<Instance>,
    pub cs: Rc<CallStack>,
    pub pending: Option<usize>,
}

impl View for Frame {
    type V = FrameV;

    open spec fn view(&self) -> FrameV {
        FrameV {
            regs: seq_view(self.regs@),
            pc: self.pc as int,
            ret: self.ret@,
            exc: match self.exc {
                Option::None => Option::None,
                Option::Some(e) => Option::Some(e@),
            },
        }
    }
}

impl Frame {
    /// The frame's function and held exception are well-formed.
    pub open spec fn wf(self) -> bool {
        self.fun.wf() && match self.exc {
            Option::None => true,
            Option::Some(e) => e.wf(),
        }
    }
}

/// What one executed step asks the driving loop to do: nothing, finish the
/// frame with a result, or invoke `name` on the collected arguments.
pub enum StepRes {
    KeepGoing,
    Finish(InvokeResult),
    Call(String, Vec<Value>),
}

/// Whether the instance an invocation result carries is well-formed.
pub open spec fn result_wf(r: InvokeResult) -> bool {
    match r {
        InvokeResult::Exception(e, _) => e.wf(),
        _ => true,
    }
}

/// Whether the result a step hands back carries only well-formed instances.
pub open spec fn step_res_wf(r: StepRes) -> bool {
    match r {
        StepRes::Finish(res) => result_wf(res),
        _ => true,
    }
}

/// Whether an invocation result is the given machine outcome, with the given
/// call stack attached where the result carries one.
pub open spec fn result_matches(r: InvokeResult, o: Outcome, cs: Rc<CallStack>) -> bool {
    match o {
        Outcome::Okay(v) => r matches InvokeResult::Okay(rv) && rv@ == v,
        Outcome::Exception(e) => r matches InvokeResult::Exception(re, rcs) && re@ == e && rcs
            == cs,
        Outcome::Error(err) => r matches InvokeResult::RuntimeError(res) && res.error@ == err
            && res.stack == cs,
    }
}

/// Like [`result_matches`], but identifying the call stack by its frame
/// names rather than by handle.
pub open spec fn result_matches_at(r: InvokeResult, o: Outcome, names: Seq<Seq<char>>) -> bool {
    match o {
        Outcome::Okay(v) => r matches InvokeResult::Okay(rv) && rv@ == v,
        Outcome::Exception(e) => r matches InvokeResult::Exception(re, rcs) && re@ == e
            && rcs.names() == names,
        Outcome::Error(err) => r matches InvokeResult::RuntimeError(res) && res.error@ == err
            && res.stack.names() == names,
    }
}

/// Find the label a jump to `id` lands on: the position of the last
/// `Label(id)` in the function's instruction list.
pub fn find_label(f: &InterpretedFunction, id: usize) -> (r: Option<usize>)
    ensures
        match r {
            Option::Some(ix) => label_index(f@.body, id as int) == Option::Some(ix as int),
            Option::None => label_index(f@.body, id as int) is None,
        },
{
    let instructions = f.instructions();
    let n = instructions.len();
    let mut j: usize = n;
    proof {
        assert(f@.body =~= f@.body.take(n as int));
    }
    while j > 0
        invariant
            j <= n,
            n == instructions@.len(),
            f@.body == crate::function::body_view(instructions@),
            f@.body.len() == n,
            label_index(f@.body, id as int) == label_index(f@.body.take(j as int), id as int),
        decreases j,
    {
        let is_match = match &instructions[j - 1].0 {
            Instruction::Label(l) => *l == id,
            _ => false,
        };
        proof {
            assert(f@.body[j - 1] == crate::function::entry_view(instructions@[j - 1]));
            assert(f@.body.take(j as int).last() == f@.body[j - 1]);
            assert(f@.body.take(j as int).drop_last() =~= f@.body.take(j - 1));
        }
        if is_match {
            proof {
                assert(f@.body[j - 1].0 == crate::instructions::InstructionV::Label(id as int));
                assert(label_index(f@.body.take(j as int), id as int) == Option::Some(j - 1));
            }
            return Option::Some(j - 1);
        }
        proof {
            assert(f@.body[j - 1].0 != crate::instructions::InstructionV::Label(id as int));
        }
        j = j - 1;
    }
    proof {
        assert(f@.body.take(0) =~= Seq::<
            (crate::instructions::InstructionV, Option<usize>),
        >::empty());
    }
    Option::None
}

/// A step result that finishes the frame with the given runtime error.
fn err_res(e: RuntimeError, cs: &Rc<CallStack>) -> (r: StepRes)
    ensures
        r matches StepRes::Finish(res) && result_matches(res, Outcome::Error(e@), *cs),
        step_res_wf(r),
{
    StepRes::Finish(InvokeResult::runtime(e, cs.clone()))
}

/// A step result that finishes the frame with an `Unimplemented` error.
fn unimpl_res(what: &str, cs: &Rc<CallStack>) -> (r: StepRes)
    ensures
        r matches StepRes::Finish(res) && result_matches(
            res,
            Outcome::Error(ErrorV::Unimplemented(what@)),
            *cs,
        ),
        step_res_wf(r),
{
    err_res(RuntimeError::Unimplemented(what.to_owned()), cs)
}

/// Store `v` in register `i`.
fn set_reg(regs: &mut Vec<Value>, i: usize, v: Value)
    requires
        i < old(regs)@.len(),
    ensures
        final(regs)@.len() == old(regs)@.len(),
        seq_view(final(regs)@) == seq_view(old(regs)@).update(i as int, v@),
{
    let ghost tv = v@;
    let ghost prev = regs@;
    regs.set(i, v);
    proof {
        crate::runtime::lemma_seq_view(prev);
        crate::runtime::lemma_seq_view(regs@);
        assert(seq_view(regs@) =~= seq_view(prev).update(i as int, tv));
    }
}

/// Route a thrown exception into the frame, as `throw_to` describes: either
/// the program counter moves to the handler's label and the exception is
/// pended, or the routine hands back the result the frame ends with.
fn deliver(
    fr: &mut Frame,
    e: Instance,
    handler: Option<usize>,
    Ghost(g): Ghost<crate::machine::GlobalsV>,
) -> (r: Option<InvokeResult>)
    requires
        old(fr).wf(),
        e.wf(),
    ensures
        final(fr).wf(),
        final(fr).fun@ == old(fr).fun@,
        final(fr).fun.wf(),
        final(fr).cs == old(fr).cs,
        (r matches Option::Some(res) ==> result_wf(res)),
        match crate::machine::throw_to(old(fr).fun@, old(fr)@, g, e@, handler) {
            StepOut::Final(o, g2) => g2 == g && (r matches Option::Some(res)
                && result_matches(res, o, old(fr).cs)),
            StepOut::Next(f2, g2) => g2 == g && r is None && final(fr)@ == f2,
            StepOut::CallsOut => false,
        },
{
    let h = match handler {
        Option::None => {
            return Option::Some(InvokeResult::Exception(e, fr.cs.clone()));
        },
        Option::Some(h) => h,
    };
    let hs_len = fr.fun.handlers().len();
    if h >= hs_len {
        return Option::Some(InvokeResult::runtime(RuntimeError::BadJumpTarget, fr.cs.clone()));
    }
    let ct = e.get_class_type().clone();
    let target_opt = {
        let hs = fr.fun.handlers();
        proof {
            assert(fr.fun@.handlers[h as int] == hs@[h as int]@);
        }
        hs[h].get_copied(ct.as_str())
    };
    match target_opt {
        Option::None => Option::Some(InvokeResult::Exception(e, fr.cs.clone())),
        Option::Some(target) => {
            match find_label(&fr.fun, target) {
                Option::None => Option::Some(
                    InvokeResult::runtime(RuntimeError::BadJumpTarget, fr.cs.clone()),
                ),
                Option::Some(ix) => {
                    let ghost ev = e@;
                    fr.pc = ix;
                    fr.exc = Option::Some(e);
                    proof {
                        assert(fr@ =~= (FrameV {
                            pc: ix as int,
                            exc: Option::Some(ev),
                            ..old(fr)@
                        }));
                    }
                    Option::None
                },
            }
        },
    }
}


fn exec_move_result(fr: &mut Frame, env: &mut Module, kind: crate::instructions::MoveKind, v: usize, handler: Option<usize>) -> (r: StepRes)
    requires
        old(fr).wf(),
        old(env).wf(),
    ensures
        final(fr).wf(),
        final(env).wf(),
        final(fr).fun@ == old(fr).fun@,
        final(fr).fun.wf(),
        final(fr).cs == old(fr).cs,
        final(env).functions_view() == old(env).functions_view(),
        final(env).spec_name() == old(env).spec_name(),
        step_res_wf(r),
        match crate::machine::step_instruction(
            old(fr).fun@,
            old(fr)@,
            old(env).globals(),
            crate::instructions::InstructionV::MoveResult(kind, v as int),
            handler,
        ) {
            StepOut::Next(f2, g2) => r is KeepGoing && final(fr)@ == f2 && final(env).globals()
                == g2,
            StepOut::Final(o, g2) => (r matches StepRes::Finish(res) && result_matches(
                res,
                o,
                old(fr).cs,
            )) && final(env).globals() == g2,
            StepOut::CallsOut => r is Call && final(env).globals() == old(env).globals(),
        },
{
    let ghost fr1 = old(fr)@;
    let ghost g0 = old(env).globals();
    proof {
        crate::runtime::lemma_seq_view(fr.regs@);
    }
    if v >= fr.regs.len() {
        return err_res(RuntimeError::RegisterOutOfBounds, &fr.cs);
    }
    let mut tmp = Value::Void;
    core::mem::swap(&mut tmp, &mut fr.ret);
    set_reg(&mut fr.regs, v, tmp);
    proof {
        assert(fr@ =~= (FrameV {
            regs: fr1.regs.update(v as int, fr1.ret),
            ret: crate::runtime::ValueV::Void,
            ..fr1
        }));
    }
    StepRes::KeepGoing
}


fn exec_move_exception(fr: &mut Frame, env: &mut Module, v: usize, handler: Option<usize>) -> (r: StepRes)
    requires
        old(fr).wf(),
        old(env).wf(),
    ensures
        final(fr).wf(),
        final(env).wf(),
        final(fr).fun@ == old(fr).fun@,
        final(fr).fun.wf(),
        final(fr).cs == old(fr).cs,
        final(env).functions_view() == old(env).functions_view(),
        final(env).spec_name() == old(env).spec_name(),
        step_res_wf(r),
        match crate::machine::step_instruction(
            old(fr).fun@,
            old(fr)@,
            old(env).globals(),
            crate::instructions::InstructionV::MoveException(v as int),
            handler,
        ) {
            StepOut::Next(f2, g2) => r is KeepGoing && final(fr)@ == f2 && final(env).globals()
                == g2,
            StepOut::Final(o, g2) => (r matches StepRes::Finish(res) && result_matches(
                res,
                o,
                old(fr).cs,
            )) && final(env).globals() == g2,
            StepOut::CallsOut => r is Call && final(env).globals() == old(env).globals(),
        },
{
    let ghost fr1 = old(fr)@;
    let ghost g0 = old(env).globals();
    proof {
        crate::runtime::lemma_seq_view(fr.regs@);
    }
    let mut tmp: Option<Instance> = Option::None;
    core::mem::swap(&mut tmp, &mut fr.exc);
    match tmp {
        Option::None => unimpl_res("no exception to move", &fr.cs),
        Option::Some(e) => {
            if v >= fr.regs.len() {
                return err_res(RuntimeError::RegisterOutOfBounds, &fr.cs);
            }
            let ghost ev = e@;
            let id = env.store_alloc(e);
            set_reg(&mut fr.regs, v, Value::Instance(id));
            proof {
                assert(fr@ =~= (FrameV {
                    regs: fr1.regs.update(v as int, crate::runtime::ValueV::Instance(
                        g0.store.len() as int,
                    )),
                    exc: Option::None,
                    ..fr1
                }));
                assert(env.globals() =~= (crate::machine::GlobalsV {
                    store: g0.store.push(ev),
                    ..g0
                }));
            }
            StepRes::KeepGoing
        },
    }
}


fn exec_return(fr: &mut Frame, env: &mut Module, ty: crate::instructions::ReturnType, handler: Option<usize>) -> (r: StepRes)
    requires
        old(fr).wf(),
        old(env).wf(),
    ensures
        final(fr).wf(),
        final(env).wf(),
        final(fr).fun@ == old(fr).fun@,
        final(fr).fun.wf(),
        final(fr).cs == old(fr).cs,
        final(env).functions_view() == old(env).functions_view(),
        final(env).spec_name() == old(env).spec_name(),
        step_res_wf(r),
        match crate::machine::step_instruction(
            old(fr).fun@,
            old(fr)@,
            old(env).globals(),
            crate::instructions::InstructionV::Return(ty),
            handler,
        ) {
            StepOut::Next(f2, g2) => r is KeepGoing && final(fr)@ == f2 && final(env).globals()
                == g2,
            StepOut::Final(o, g2) => (r matches StepRes::Finish(res) && result_matches(
                res,
                o,
                old(fr).cs,
            )) && final(env).globals() == g2,
            StepOut::CallsOut => r is Call && final(env).globals() == old(env).globals(),
        },
{
    let ghost fr1 = old(fr)@;
    let ghost g0 = old(env).globals();
    proof {
        crate::runtime::lemma_seq_view(fr.regs@);
    }
    match ty {
        crate::instructions::ReturnType::Void => StepRes::Finish(InvokeResult::Okay(Value::Void)),
        crate::instructions::ReturnType::Single(rr) => {
            if rr >= fr.regs.len() {
                return err_res(RuntimeError::RegisterOutOfBounds, &fr.cs);
            }
            let x = fr.regs[rr].to_single();
            StepRes::Finish(InvokeResult::Okay(Value::U32(x)))
        },
        crate::instructions::ReturnType::Wide(_) => unimpl_res("return-wide", &fr.cs),
        crate::instructions::ReturnType::Object(rr) => {
            if rr >= fr.regs.len() {
                return err_res(RuntimeError::RegisterOutOfBounds, &fr.cs);
            }
            StepRes::Finish(InvokeResult::Okay(fr.regs[rr].clone()))
        },
    }
}


fn exec_const_set(fr: &mut Frame, env: &mut Module, v: usize, lit: crate::instructions::LiteralValue, handler: Option<usize>) -> (r: StepRes)
    requires
        old(fr).wf(),
        old(env).wf(),
    ensures
        final(fr).wf(),
        final(env).wf(),
        final(fr).fun@ == old(fr).fun@,
        final(fr).fun.wf(),
        final(fr).cs == old(fr).cs,
        final(env).functions_view() == old(env).functions_view(),
        final(env).spec_name() == old(env).spec_name(),
        step_res_wf(r),
        match crate::machine::step_instruction(
            old(fr).fun@,
            old(fr)@,
            old(env).globals(),
            crate::instructions::InstructionV::ConstSet(v as int, lit@),
            handler,
        ) {
            StepOut::Next(f2, g2) => r is KeepGoing && final(fr)@ == f2 && final(env).globals()
                == g2,
            StepOut::Final(o, g2) => (r matches StepRes::Finish(res) && result_matches(
                res,
                o,
                old(fr).cs,
            )) && final(env).globals() == g2,
            StepOut::CallsOut => r is Call && final(env).globals() == old(env).globals(),
        },
{
    let ghost fr1 = old(fr)@;
    let ghost g0 = old(env).globals();
    proof {
        crate::runtime::lemma_seq_view(fr.regs@);
    }
    if v >= fr.regs.len() {
        return err_res(RuntimeError::RegisterOutOfBounds, &fr.cs);
    }
    if let crate::instructions::LiteralValue::Class(_) = &lit {
        return unimpl_res("const class", &fr.cs);
    }
    let value = env.convert_literal(&lit);
    set_reg(&mut fr.regs, v, value);
    proof {
        assert(fr@ =~= (FrameV {
            regs: fr1.regs.update(v as int, crate::runtime::of_literal(
                lit@,
                g0.store.len() as int,
            )),
            ..fr1
        }));
    }
    StepRes::KeepGoing
}


fn exec_goto(fr: &mut Frame, env: &mut Module, l: usize, handler: Option<usize>) -> (r: StepRes)
    requires
        old(fr).wf(),
        old(env).wf(),
    ensures
        final(fr).wf(),
        final(env).wf(),
        final(fr).fun@ == old(fr).fun@,
        final(fr).fun.wf(),
        final(fr).cs == old(fr).cs,
        final(env).functions_view() == old(env).functions_view(),
        final(env).spec_name() == old(env).spec_name(),
        step_res_wf(r),
        match crate::machine::step_instruction(
            old(fr).fun@,
            old(fr)@,
            old(env).globals(),
            crate::instructions::InstructionV::GoTo(l as int),
            handler,
        ) {
            StepOut::Next(f2, g2) => r is KeepGoing && final(fr)@ == f2 && final(env).globals()
                == g2,
            StepOut::Final(o, g2) => (r matches StepRes::Finish(res) && result_matches(
                res,
                o,
                old(fr).cs,
            )) && final(env).globals() == g2,
            StepOut::CallsOut => r is Call && final(env).globals() == old(env).globals(),
        },
{
    let ghost fr1 = old(fr)@;
    let ghost g0 = old(env).globals();
    proof {
        crate::runtime::lemma_seq_view(fr.regs@);
    }
    match find_label(&fr.fun, l) {
        Option::None => err_res(RuntimeError::BadJumpTarget, &fr.cs),
        Option::Some(ix) => {
            fr.pc = ix;
            proof {
                assert(fr@ =~= (FrameV { pc: ix as int, ..fr1 }));
            }
            StepRes::KeepGoing
        },
    }
}


fn exec_if(fr: &mut Frame, env: &mut Module, kind: crate::instructions::IfKind, a: u8, b: u8, l: usize, handler: Option<usize>) -> (r: StepRes)
    requires
        old(fr).wf(),
        old(env).wf(),
    ensures
        final(fr).wf(),
        final(env).wf(),
        final(fr).fun@ == old(fr).fun@,
        final(fr).fun.wf(),
        final(fr).cs == old(fr).cs,
        final(env).functions_view() == old(env).functions_view(),
        final(env).spec_name() == old(env).spec_name(),
        step_res_wf(r),
        match crate::machine::step_instruction(
            old(fr).fun@,
            old(fr)@,
            old(env).globals(),
            crate::instructions::InstructionV::If(kind, a as int, b as int, l as int),
            handler,
        ) {
            StepOut::Next(f2, g2) => r is KeepGoing && final(fr)@ == f2 && final(env).globals()
                == g2,
            StepOut::Final(o, g2) => (r matches StepRes::Finish(res) && result_matches(
                res,
                o,
                old(fr).cs,
            )) && final(env).globals() == g2,
            StepOut::CallsOut => r is Call && final(env).globals() == old(env).globals(),
        },
{
    let ghost fr1 = old(fr)@;
    let ghost g0 = old(env).globals();
    proof {
        crate::runtime::lemma_seq_view(fr.regs@);
    }
    let au = a as usize;
    let bu = b as usize;
    if au >= fr.regs.len() {
        return err_res(RuntimeError::RegisterOutOfBounds, &fr.cs);
    }
    if bu >= fr.regs.len() {
        return err_res(RuntimeError::RegisterOutOfBounds, &fr.cs);
    }
    let cond = {
        let va = &fr.regs[au];
        let vb = &fr.regs[bu];
        match (va, vb) {
            (Value::U32(x), Value::U32(y)) => {
                match kind {
                    crate::instructions::IfKind::Eq => *x == *y,
                    crate::instructions::IfKind::Ne => *x != *y,
                    crate::instructions::IfKind::Lt => *x < *y,
                    crate::instructions::IfKind::Ge => *x >= *y,
                    crate::instructions::IfKind::Gt => *x > *y,
                    crate::instructions::IfKind::Le => *x <= *y,
                }
            },
            _ => {
                return unimpl_res("if on non-integer values", &fr.cs);
            },
        }
    };
    if cond {
        match find_label(&fr.fun, l) {
            Option::None => err_res(RuntimeError::BadJumpTarget, &fr.cs),
            Option::Some(ix) => {
                fr.pc = ix;
                proof {
                    assert(fr@ =~= (FrameV { pc: ix as int, ..fr1 }));
                }
                StepRes::KeepGoing
            },
        }
    } else {
        StepRes::KeepGoing
    }
}


fn exec_new_instance(fr: &mut Frame, env: &mut Module, v: u8, ty: usize, handler: Option<usize>) -> (r: StepRes)
    requires
        old(fr).wf(),
        old(env).wf(),
    ensures
        final(fr).wf(),
        final(env).wf(),
        final(fr).fun@ == old(fr).fun@,
        final(fr).fun.wf(),
        final(fr).cs == old(fr).cs,
        final(env).functions_view() == old(env).functions_view(),
        final(env).spec_name() == old(env).spec_name(),
        step_res_wf(r),
        match crate::machine::step_instruction(
            old(fr).fun@,
            old(fr)@,
            old(env).globals(),
            crate::instructions::InstructionV::NewInstance(v as int, ty as int),
            handler,
        ) {
            StepOut::Next(f2, g2) => r is KeepGoing && final(fr)@ == f2 && final(env).globals()
                == g2,
            StepOut::Final(o, g2) => (r matches StepRes::Finish(res) && result_matches(
                res,
                o,
                old(fr).cs,
            )) && final(env).globals() == g2,
            StepOut::CallsOut => r is Call && final(env).globals() == old(env).globals(),
        },
{
    let ghost fr1 = old(fr)@;
    let ghost g0 = old(env).globals();
    proof {
        crate::runtime::lemma_seq_view(fr.regs@);
    }
    let vu = v as usize;
    if vu >= fr.regs.len() {
        return err_res(RuntimeError::RegisterOutOfBounds, &fr.cs);
    }
    let id = env.store_alloc(Instance::empty());
    set_reg(&mut fr.regs, vu, Value::Instance(id));
    proof {
        assert(fr@ =~= (FrameV {
            regs: fr1.regs.update(vu as int, crate::runtime::ValueV::Instance(
                g0.store.len() as int,
            )),
            ..fr1
        }));
        assert(env.globals() =~= (crate::machine::GlobalsV {
            store: g0.store.push(crate::runtime::InstanceV::empty()),
            ..g0
        }));
    }
    StepRes::KeepGoing
}


fn exec_new_array(fr: &mut Frame, env: &mut Module, v: u8, size: usize, ty: usize, handler: Option<usize>) -> (r: StepRes)
    requires
        old(fr).wf(),
        old(env).wf(),
    ensures
        final(fr).wf(),
        final(env).wf(),
        final(fr).fun@ == old(fr).fun@,
        final(fr).fun.wf(),
        final(fr).cs == old(fr).cs,
        final(env).functions_view() == old(env).functions_view(),
        final(env).spec_name() == old(env).spec_name(),
        step_res_wf(r),
        match crate::machine::step_instruction(
            old(fr).fun@,
            old(fr)@,
            old(env).globals(),
            crate::instructions::InstructionV::NewArray(v as int, size as int, ty as int),
            handler,
        ) {
            StepOut::Next(f2, g2) => r is KeepGoing && final(fr)@ == f2 && final(env).globals()
                == g2,
            StepOut::Final(o, g2) => (r matches StepRes::Finish(res) && result_matches(
                res,
                o,
                old(fr).cs,
            )) && final(env).globals() == g2,
            StepOut::CallsOut => r is Call && final(env).globals() == old(env).globals(),
        },
{
    let ghost fr1 = old(fr)@;
    let ghost g0 = old(env).globals();
    proof {
        crate::runtime::lemma_seq_view(fr.regs@);
    }
    let vu = v as usize;
    if vu >= fr.regs.len() {
        return err_res(RuntimeError::RegisterOutOfBounds, &fr.cs);
    }
    set_reg(&mut fr.regs, vu, Value::Array(Vec::new()));
    proof {
        assert(fr@ =~= (FrameV {
            regs: fr1.regs.update(vu as int, crate::runtime::ValueV::Array(Seq::empty())),
            ..fr1
        }));
    }
    StepRes::KeepGoing
}


fn exec_fill_array(fr: &mut Frame, env: &mut Module, v: usize, data: Vec<Value>, handler: Option<usize>) -> (r: StepRes)
    requires
        old(fr).wf(),
        old(env).wf(),
    ensures
        final(fr).wf(),
        final(env).wf(),
        final(fr).fun@ == old(fr).fun@,
        final(fr).fun.wf(),
        final(fr).cs == old(fr).cs,
        final(env).functions_view() == old(env).functions_view(),
        final(env).spec_name() == old(env).spec_name(),
        step_res_wf(r),
        match crate::machine::step_instruction(
            old(fr).fun@,
            old(fr)@,
            old(env).globals(),
            crate::instructions::InstructionV::FillArrayData(v as int, seq_view(data@)),
            handler,
        ) {
            StepOut::Next(f2, g2) => r is KeepGoing && final(fr)@ == f2 && final(env).globals()
                == g2,
            StepOut::Final(o, g2) => (r matches StepRes::Finish(res) && result_matches(
                res,
                o,
                old(fr).cs,
            )) && final(env).globals() == g2,
            StepOut::CallsOut => r is Call && final(env).globals() == old(env).globals(),
        },
{
    let ghost fr1 = old(fr)@;
    let ghost g0 = old(env).globals();
    proof {
        crate::runtime::lemma_seq_view(fr.regs@);
    }
    if v >= fr.regs.len() {
        return err_res(RuntimeError::RegisterOutOfBounds, &fr.cs);
    }
    let ghost dv = seq_view(data@);
    set_reg(&mut fr.regs, v, Value::Array(data));
    proof {
        assert(fr@ =~= (FrameV {
            regs: fr1.regs.update(v as int, crate::runtime::ValueV::Array(dv)),
            ..fr1
        }));
    }
    StepRes::KeepGoing
}


fn exec_array_get(fr: &mut Frame, env: &mut Module, kind: crate::instructions::GetPutKind, d: u8, a: u8, iidx: u8, handler: Option<usize>) -> (r: StepRes)
    requires
        old(fr).wf(),
        old(env).wf(),
    ensures
        final(fr).wf(),
        final(env).wf(),
        final(fr).fun@ == old(fr).fun@,
        final(fr).fun.wf(),
        final(fr).cs == old(fr).cs,
        final(env).functions_view() == old(env).functions_view(),
        final(env).spec_name() == old(env).spec_name(),
        step_res_wf(r),
        match crate::machine::step_instruction(
            old(fr).fun@,
            old(fr)@,
            old(env).globals(),
            crate::instructions::InstructionV::ArrayGet(kind, d as int, a as int, iidx as int),
            handler,
        ) {
            StepOut::Next(f2, g2) => r is KeepGoing && final(fr)@ == f2 && final(env).globals()
                == g2,
            StepOut::Final(o, g2) => (r matches StepRes::Finish(res) && result_matches(
                res,
                o,
                old(fr).cs,
            )) && final(env).globals() == g2,
            StepOut::CallsOut => r is Call && final(env).globals() == old(env).globals(),
        },
{
    let ghost fr1 = old(fr)@;
    let ghost g0 = old(env).globals();
    proof {
        crate::runtime::lemma_seq_view(fr.regs@);
    }
    let du = d as usize;
    let au = a as usize;
    let iu = iidx as usize;
    if iu >= fr.regs.len() {
        return err_res(RuntimeError::RegisterOutOfBounds, &fr.cs);
    }
    let idx: usize = {
        let iv = &fr.regs[iu];
        match iv {
            Value::U32(x) => #[verifier::truncate] ((*x as u32) as usize),
            _ => {
                let mut msg = iv.kind_name_str();
                msg.append(" as index");
                proof {
                    assert(msg@ =~= crate::machine::cast_to_index_msg(fr1.regs[iu as int]));
                }
                return err_res(RuntimeError::CastError(msg), &fr.cs);
            },
        }
    };
    if au >= fr.regs.len() {
        return err_res(RuntimeError::RegisterOutOfBounds, &fr.cs);
    }
    let elem = {
        let av = &fr.regs[au];
        let arr = match av {
            Value::Array(arr) => arr,
            _ => {
                let mut msg = av.kind_name_str();
                msg.append(" as array");
                proof {
                    assert(msg@ =~= crate::machine::cast_to_array_msg(fr1.regs[au as int]));
                }
                return err_res(RuntimeError::CastError(msg), &fr.cs);
            },
        };
        match kind {
            crate::instructions::GetPutKind::Single | crate::instructions::GetPutKind::Boolean => {
            },
            _ => {
                return unimpl_res("array-get kind", &fr.cs);
            },
        }
        proof {
            crate::runtime::lemma_seq_view(arr@);
        }
        if idx >= arr.len() {
            return unimpl_res("array index out of bounds", &fr.cs);
        }
        arr[idx].clone()
    };
    if du >= fr.regs.len() {
        return err_res(RuntimeError::RegisterOutOfBounds, &fr.cs);
    }
    let ghost ev = elem@;
    set_reg(&mut fr.regs, du, elem);
    proof {
        assert(fr@ =~= (FrameV { regs: fr1.regs.update(du as int, ev), ..fr1 }));
    }
    StepRes::KeepGoing
}


fn exec_instance_get(fr: &mut Frame, env: &mut Module, kind: crate::instructions::GetPutKind, d: u8, o: u8, field: String, handler: Option<usize>) -> (r: StepRes)
    requires
        old(fr).wf(),
        old(env).wf(),
    ensures
        final(fr).wf(),
        final(env).wf(),
        final(fr).fun@ == old(fr).fun@,
        final(fr).fun.wf(),
        final(fr).cs == old(fr).cs,
        final(env).functions_view() == old(env).functions_view(),
        final(env).spec_name() == old(env).spec_name(),
        step_res_wf(r),
        match crate::machine::step_instruction(
            old(fr).fun@,
            old(fr)@,
            old(env).globals(),
            crate::instructions::InstructionV::InstanceGet(kind, d as int, o as int, field@),
            handler,
        ) {
            StepOut::Next(f2, g2) => r is KeepGoing && final(fr)@ == f2 && final(env).globals()
                == g2,
            StepOut::Final(o, g2) => (r matches StepRes::Finish(res) && result_matches(
                res,
                o,
                old(fr).cs,
            )) && final(env).globals() == g2,
            StepOut::CallsOut => r is Call && final(env).globals() == old(env).globals(),
        },
{
    let ghost fr1 = old(fr)@;
    let ghost g0 = old(env).globals();
    proof {
        crate::runtime::lemma_seq_view(fr.regs@);
    }
    let du = d as usize;
    let ou = o as usize;
    if ou >= fr.regs.len() {
        return err_res(RuntimeError::RegisterOutOfBounds, &fr.cs);
    }
    let oid = match fr.regs[ou].instance() {
        Result::Err(e) => {
            return err_res(e, &fr.cs);
        },
        Result::Ok(id) => id,
    };
    if oid >= env.store_len() {
        return err_res(RuntimeError::CastError("dangling instance handle".to_owned()), &fr.cs);
    }
    match kind {
        crate::instructions::GetPutKind::Single | crate::instructions::GetPutKind::Object => {
        },
        _ => {
            return unimpl_res("instance-get kind", &fr.cs);
        },
    }
    let value = {
        let inst = env.store_read(oid);
        match inst.get_field(field.as_str()) {
            Option::Some(v) => v.clone(),
            Option::None => Value::Void,
        }
    };
    if du >= fr.regs.len() {
        return err_res(RuntimeError::RegisterOutOfBounds, &fr.cs);
    }
    let ghost vv = value@;
    set_reg(&mut fr.regs, du, value);
    proof {
        assert(fr@ =~= (FrameV { regs: fr1.regs.update(du as int, vv), ..fr1 }));
    }
    StepRes::KeepGoing
}


fn exec_instance_put(fr: &mut Frame, env: &mut Module, kind: crate::instructions::GetPutKind, s: u8, o: u8, field: String, handler: Option<usize>) -> (r: StepRes)
    requires
        old(fr).wf(),
        old(env).wf(),
    ensures
        final(fr).wf(),
        final(env).wf(),
        final(fr).fun@ == old(fr).fun@,
        final(fr).fun.wf(),
        final(fr).cs == old(fr).cs,
        final(env).functions_view() == old(env).functions_view(),
        final(env).spec_name() == old(env).spec_name(),
        step_res_wf(r),
        match crate::machine::step_instruction(
            old(fr).fun@,
            old(fr)@,
            old(env).globals(),
            crate::instructions::InstructionV::InstancePut(kind, s as int, o as int, field@),
            handler,
        ) {
            StepOut::Next(f2, g2) => r is KeepGoing && final(fr)@ == f2 && final(env).globals()
                == g2,
            StepOut::Final(o, g2) => (r matches StepRes::Finish(res) && result_matches(
                res,
                o,
                old(fr).cs,
            )) && final(env).globals() == g2,
            StepOut::CallsOut => r is Call && final(env).globals() == old(env).globals(),
        },
{
    let ghost fr1 = old(fr)@;
    let ghost g0 = old(env).globals();
    proof {
        crate::runtime::lemma_seq_view(fr.regs@);
    }
    let su = s as usize;
    let ou = o as usize;
    if ou >= fr.regs.len() {
        return err_res(RuntimeError::RegisterOutOfBounds, &fr.cs);
    }
    let oid = match fr.regs[ou].instance() {
        Result::Err(e) => {
            return err_res(e, &fr.cs);
        },
        Result::Ok(id) => id,
    };
    if oid >= env.store_len() {
        return err_res(RuntimeError::CastError("dangling instance handle".to_owned()), &fr.cs);
    }
    if su >= fr.regs.len() {
        return err_res(RuntimeError::RegisterOutOfBounds, &fr.cs);
    }
    match kind {
        crate::instructions::GetPutKind::Single | crate::instructions::GetPutKind::Object => {
        },
        _ => {
            return unimpl_res("instance-put kind", &fr.cs);
        },
    }
    let srcv = fr.regs[su].clone();
    let ghost sv = srcv@;
    let ghost fieldv = field@;
    let mut inst = env.store_read(oid).clone();
    inst.set_field(field, srcv);
    env.store_replace(oid, inst);
    proof {
        assert(env.globals() =~= (crate::machine::GlobalsV {
            store: g0.store.update(oid as int, crate::runtime::InstanceV {
                fields: g0.store[oid as int].fields.insert(fieldv, sv),
                ..g0.store[oid as int]
            }),
            ..g0
        }));
        assert(fr@ =~= fr1);
    }
    StepRes::KeepGoing
}


fn exec_static_get(fr: &mut Frame, env: &mut Module, kind: crate::instructions::GetPutKind, d: u8, name: String, handler: Option<usize>) -> (r: StepRes)
    requires
        old(fr).wf(),
        old(env).wf(),
    ensures
        final(fr).wf(),
        final(env).wf(),
        final(fr).fun@ == old(fr).fun@,
        final(fr).fun.wf(),
        final(fr).cs == old(fr).cs,
        final(env).functions_view() == old(env).functions_view(),
        final(env).spec_name() == old(env).spec_name(),
        step_res_wf(r),
        match crate::machine::step_instruction(
            old(fr).fun@,
            old(fr)@,
            old(env).globals(),
            crate::instructions::InstructionV::StaticGet(kind, d as int, name@),
            handler,
        ) {
            StepOut::Next(f2, g2) => r is KeepGoing && final(fr)@ == f2 && final(env).globals()
                == g2,
            StepOut::Final(o, g2) => (r matches StepRes::Finish(res) && result_matches(
                res,
                o,
                old(fr).cs,
            )) && final(env).globals() == g2,
            StepOut::CallsOut => r is Call && final(env).globals() == old(env).globals(),
        },
{
    let ghost fr1 = old(fr)@;
    let ghost g0 = old(env).globals();
    proof {
        crate::runtime::lemma_seq_view(fr.regs@);
    }
    let du = d as usize;
    let value = match env.get_static(name.as_str()) {
        Option::Some(v) => v,
        Option::None => Value::Void,
    };
    if du >= fr.regs.len() {
        return err_res(RuntimeError::RegisterOutOfBounds, &fr.cs);
    }
    match kind {
        crate::instructions::GetPutKind::Single | crate::instructions::GetPutKind::Object => {
        },
        _ => {
            return unimpl_res("static-get kind", &fr.cs);
        },
    }
    let ghost vv = value@;
    set_reg(&mut fr.regs, du, value);
    proof {
        assert(fr@ =~= (FrameV { regs: fr1.regs.update(du as int, vv), ..fr1 }));
    }
    StepRes::KeepGoing
}


fn exec_static_put(fr: &mut Frame, env: &mut Module, kind: crate::instructions::GetPutKind, s: u8, name: String, handler: Option<usize>) -> (r: StepRes)
    requires
        old(fr).wf(),
        old(env).wf(),
    ensures
        final(fr).wf(),
        final(env).wf(),
        final(fr).fun@ == old(fr).fun@,
        final(fr).fun.wf(),
        final(fr).cs == old(fr).cs,
        final(env).functions_view() == old(env).functions_view(),
        final(env).spec_name() == old(env).spec_name(),
        step_res_wf(r),
        match crate::machine::step_instruction(
            old(fr).fun@,
            old(fr)@,
            old(env).globals(),
            crate::instructions::InstructionV::StaticPut(kind, s as int, name@),
            handler,
        ) {
            StepOut::Next(f2, g2) => r is KeepGoing && final(fr)@ == f2 && final(env).globals()
                == g2,
            StepOut::Final(o, g2) => (r matches StepRes::Finish(res) && result_matches(
                res,
                o,
                old(fr).cs,
            )) && final(env).globals() == g2,
            StepOut::CallsOut => r is Call && final(env).globals() == old(env).globals(),
        },
{
    let ghost fr1 = old(fr)@;
    let ghost g0 = old(env).globals();
    proof {
        crate::runtime::lemma_seq_view(fr.regs@);
    }
    let su = s as usize;
    if su >= fr.regs.len() {
        return err_res(RuntimeError::RegisterOutOfBounds, &fr.cs);
    }
    match kind {
        crate::instructions::GetPutKind::Single => {
        },
        _ => {
            return unimpl_res("static-put kind", &fr.cs);
        },
    }
    let srcv = fr.regs[su].clone();
    env.set_static(name, srcv);
    proof {
        assert(fr@ =~= fr1);
    }
    StepRes::KeepGoing
}


fn exec_invoke(fr: &mut Frame, env: &mut Module, kind: crate::instructions::InvokeKind, name: String, argc: u8, args: [u8; 5], handler: Option<usize>) -> (r: StepRes)
    requires
        old(fr).wf(),
        old(env).wf(),
    ensures
        final(fr).wf(),
        final(env).wf(),
        final(fr).fun@ == old(fr).fun@,
        final(fr).fun.wf(),
        final(fr).cs == old(fr).cs,
        final(env).functions_view() == old(env).functions_view(),
        final(env).spec_name() == old(env).spec_name(),
        step_res_wf(r),
        match crate::machine::step_instruction(
            old(fr).fun@,
            old(fr)@,
            old(env).globals(),
            crate::instructions::InstructionV::Invoke(kind, name@, argc as int, args@),
            handler,
        ) {
            StepOut::Next(f2, g2) => r is KeepGoing && final(fr)@ == f2 && final(env).globals()
                == g2,
            StepOut::Final(o, g2) => (r matches StepRes::Finish(res) && result_matches(
                res,
                o,
                old(fr).cs,
            )) && final(env).globals() == g2,
            StepOut::CallsOut => r is Call && final(env).globals() == old(env).globals(),
        },
{
    let ghost fr1 = old(fr)@;
    let ghost g0 = old(env).globals();
    proof {
        crate::runtime::lemma_seq_view(fr.regs@);
    }
    match kind {
        crate::instructions::InvokeKind::Direct
        | crate::instructions::InvokeKind::Static
        | crate::instructions::InvokeKind::Virtual => {
        },
        _ => {
            return unimpl_res("invoke kind", &fr.cs);
        },
    }
    let argc_us = argc as usize;
    if argc_us > 5 {
        return unimpl_res("too many arguments", &fr.cs);
    }
    let mut argv: Vec<Value> = Vec::new();
    let mut i: usize = 0;
    #[verifier::loop_isolation(false)]
    while i < argc_us
        invariant
            i <= argc_us,
            forall|j: int| 0 <= j < i ==> crate::machine::reg_ok(fr1, args@[j] as int),
        decreases argc_us - i,
    {
        let ai = args[i] as usize;
        if ai >= fr.regs.len() {
            proof {
                crate::runtime::lemma_seq_view(fr.regs@);
                assert(!crate::machine::reg_ok(fr1, args@[i as int] as int));
                assert(!crate::machine::args_ok(fr1, args@, argc as int));
            }
            return err_res(RuntimeError::RegisterOutOfBounds, &fr.cs);
        }
        argv.push(fr.regs[ai].clone());
        i = i + 1;
    }
    fr.pending = handler;
    proof {
        assert forall|j: int| 0 <= j < argc as int implies crate::machine::reg_ok(
            fr1,
            #[trigger] (args@[j]) as int,
        ) by {
            assert(crate::machine::reg_ok(fr1, args@[j] as int));
        }
        assert(crate::machine::args_ok(fr1, args@, argc as int));
        assert(fr@ =~= fr1);
    }
    StepRes::Call(name, argv)
}


fn exec_binop2(fr: &mut Frame, env: &mut Module, kind: crate::instructions::BinOpKind, d: u8, s: u8, handler: Option<usize>) -> (r: StepRes)
    requires
        old(fr).wf(),
        old(env).wf(),
    ensures
        final(fr).wf(),
        final(env).wf(),
        final(fr).fun@ == old(fr).fun@,
        final(fr).fun.wf(),
        final(fr).cs == old(fr).cs,
        final(env).functions_view() == old(env).functions_view(),
        final(env).spec_name() == old(env).spec_name(),
        step_res_wf(r),
        match crate::machine::step_instruction(
            old(fr).fun@,
            old(fr)@,
            old(env).globals(),
            crate::instructions::InstructionV::BinOp2Addr(kind, d as int, s as int),
            handler,
        ) {
            StepOut::Next(f2, g2) => r is KeepGoing && final(fr)@ == f2 && final(env).globals()
                == g2,
            StepOut::Final(o, g2) => (r matches StepRes::Finish(res) && result_matches(
                res,
                o,
                old(fr).cs,
            )) && final(env).globals() == g2,
            StepOut::CallsOut => r is Call && final(env).globals() == old(env).globals(),
        },
{
    let ghost fr1 = old(fr)@;
    let ghost g0 = old(env).globals();
    proof {
        crate::runtime::lemma_seq_view(fr.regs@);
    }
    let du = d as usize;
    let su = s as usize;
    match kind {
        crate::instructions::BinOpKind::AddInt => {
        },
        _ => {
            return unimpl_res("binop kind", &fr.cs);
        },
    }
    if du >= fr.regs.len() {
        return err_res(RuntimeError::RegisterOutOfBounds, &fr.cs);
    }
    if su >= fr.regs.len() {
        return err_res(RuntimeError::RegisterOutOfBounds, &fr.cs);
    }
    let x = fr.regs[du].to_single();
    let y = fr.regs[su].to_single();
    set_reg(&mut fr.regs, du, Value::U32(x.wrapping_add(y)));
    proof {
        assert(fr@ =~= (FrameV {
            regs: fr1.regs.update(du as int, crate::runtime::ValueV::U32(
                crate::machine::wrap_add(fr1.regs[du as int].single(), fr1.regs[
                    su as int].single()),
            )),
            ..fr1
        }));
    }
    StepRes::KeepGoing
}


fn exec_binop_lit(fr: &mut Frame, env: &mut Module, kind: crate::instructions::BinOpLitKind, d: u8, s: u8, lit: i16, handler: Option<usize>) -> (r: StepRes)
    requires
        old(fr).wf(),
        old(env).wf(),
    ensures
        final(fr).wf(),
        final(env).wf(),
        final(fr).fun@ == old(fr).fun@,
        final(fr).fun.wf(),
        final(fr).cs == old(fr).cs,
        final(env).functions_view() == old(env).functions_view(),
        final(env).spec_name() == old(env).spec_name(),
        step_res_wf(r),
        match crate::machine::step_instruction(
            old(fr).fun@,
            old(fr)@,
            old(env).globals(),
            crate::instructions::InstructionV::BinOpLit(kind, d as int, s as int, lit),
            handler,
        ) {
            StepOut::Next(f2, g2) => r is KeepGoing && final(fr)@ == f2 && final(env).globals()
                == g2,
            StepOut::Final(o, g2) => (r matches StepRes::Finish(res) && result_matches(
                res,
                o,
                old(fr).cs,
            )) && final(env).globals() == g2,
            StepOut::CallsOut => r is Call && final(env).globals() == old(env).globals(),
        },
{
    let ghost fr1 = old(fr)@;
    let ghost g0 = old(env).globals();
    proof {
        crate::runtime::lemma_seq_view(fr.regs@);
    }
    let du = d as usize;
    let su = s as usize;
    match kind {
        crate::instructions::BinOpLitKind::AddInt => {
            if su >= fr.regs.len() {
                return err_res(RuntimeError::RegisterOutOfBounds, &fr.cs);
            }
            if du >= fr.regs.len() {
                return err_res(RuntimeError::RegisterOutOfBounds, &fr.cs);
            }
            let x = fr.regs[su].to_single();
            set_reg(&mut fr.regs, du, Value::U32(x.wrapping_add(lit as i32)));
            proof {
                assert(fr@ =~= (FrameV {
                    regs: fr1.regs.update(du as int, crate::runtime::ValueV::U32(
                        crate::machine::wrap_add(fr1.regs[su as int].single(), lit as i32),
                    )),
                    ..fr1
                }));
            }
            StepRes::KeepGoing
        },
        crate::instructions::BinOpLitKind::DivInt => {
            if su >= fr.regs.len() {
                return err_res(RuntimeError::RegisterOutOfBounds, &fr.cs);
            }
            if lit == 0 {
                let sval = env.convert_literal(
                    &crate::instructions::LiteralValue::String("/ by zero".to_owned()),
                );
                let mut einst = Instance::empty();
                einst.set_class_type("Ljava/lang/ArithmeticException;".to_owned());
                einst.set_field("value".to_owned(), sval);
                proof {
                    assert(einst@ =~= crate::machine::div_by_zero_exception(
                        g0.store.len() as int,
                    ));
                    assert(env.globals() =~= (crate::machine::GlobalsV {
                        store: g0.store.push(crate::runtime::string_instance("/ by zero"@)),
                        ..g0
                    }));
                }
                let ghost g2 = env.globals();
                match deliver(fr, einst, handler, Ghost(g2)) {
                    Option::None => StepRes::KeepGoing,
                    Option::Some(res) => StepRes::Finish(res),
                }
            } else {
                let x = fr.regs[su].to_single();
                if du >= fr.regs.len() {
                    return err_res(RuntimeError::RegisterOutOfBounds, &fr.cs);
                }
                let q = div_trunc_wrap(x, lit as i32);
                set_reg(&mut fr.regs, du, Value::U32(q));
                proof {
                    assert(fr@ =~= (FrameV {
                        regs: fr1.regs.update(du as int, crate::runtime::ValueV::U32(
                            crate::machine::wrap_div(fr1.regs[su as int].single(), lit as i32),
                        )),
                        ..fr1
                    }));
                }
                StepRes::KeepGoing
            }
        },
        _ => unimpl_res("binop-lit kind", &fr.cs),
    }
}


/// Execute the instruction under the program counter, which is advanced past
/// it. The result tells the driving loop whether to keep going, finish the
/// frame, or perform an invocation.
///
/// The contract is a refinement: whatever `machine_step` determines for the
/// frame's view, this function does.
#[verifier::rlimit(100)]
pub fn step(fr: &mut Frame, env: &mut Module) -> (r: StepRes)
    requires
        old(fr).wf(),
        old(env).wf(),
        old(fr)@.pc < old(fr).fun@.body.len(),
        old(fr).pc < usize::MAX,
    ensures
        final(fr).wf(),
        final(env).wf(),
        final(fr).fun@ == old(fr).fun@,
        final(fr).fun.wf(),
        final(fr).cs == old(fr).cs,
        final(env).functions_view() == old(env).functions_view(),
        final(env).spec_name() == old(env).spec_name(),
        step_res_wf(r),
        match machine_step(old(fr).fun@, old(fr)@, old(env).globals()) {
            StepOut::Next(f2, g2) => r is KeepGoing && final(fr)@ == f2 && final(env).globals()
                == g2,
            StepOut::Final(o, g2) => (r matches StepRes::Finish(res) && result_matches(
                res,
                o,
                old(fr).cs,
            )) && final(env).globals() == g2,
            StepOut::CallsOut => r is Call && final(env).globals() == old(env).globals(),
        },
{
    let ghost f = old(fr).fun@;
    let ghost fr0 = old(fr)@;
    let ghost g0 = old(env).globals();
    let pc = fr.pc;
    let (ins, handler) = {
        let instructions = fr.fun.instructions();
        let e = &instructions[pc];
        proof {
            assert(f.body[pc as int] == crate::function::entry_view(instructions@[pc as int]));
        }
        (e.0.clone(), e.1)
    };
    fr.pc = pc + 1;
    let ghost fr1 = FrameV { pc: fr0.pc + 1, ..fr0 };
    proof {
        assert(ins@ == f.body[pc as int].0);
        assert(handler == f.body[pc as int].1);
        assert(machine_step(f, fr0, g0) == crate::machine::step_instruction(
            f,
            fr1,
            g0,
            ins@,
            handler,
        ));
        assert(fr@ =~= fr1);
    }
    match ins {
        Instruction::Label(_) => StepRes::KeepGoing,
        Instruction::Nop => StepRes::KeepGoing,
        Instruction::MoveResult(kind, v) => exec_move_result(fr, env, kind, v, handler),
        Instruction::MoveException(v) => exec_move_exception(fr, env, v, handler),
        Instruction::Return(ty) => exec_return(fr, env, ty, handler),
        Instruction::ConstSet(v, lit) => exec_const_set(fr, env, v, lit, handler),
        Instruction::GoTo(l) => exec_goto(fr, env, l, handler),
        Instruction::If(kind, a, b, l) => exec_if(fr, env, kind, a, b, l, handler),
        Instruction::NewInstance(v, ty) => exec_new_instance(fr, env, v, ty, handler),
        Instruction::NewArray(v, size, ty) => exec_new_array(fr, env, v, size, ty, handler),
        Instruction::FillArrayData(v, data) => exec_fill_array(fr, env, v, data, handler),
        Instruction::ArrayGet(kind, d, a, i) => exec_array_get(fr, env, kind, d, a, i, handler),
        Instruction::InstanceGet(kind, d, o, field) => exec_instance_get(
            fr,
            env,
            kind,
            d,
            o,
            field,
            handler,
        ),
        Instruction::InstancePut(kind, s, o, field) => exec_instance_put(
            fr,
            env,
            kind,
            s,
            o,
            field,
            handler,
        ),
        Instruction::StaticGet(kind, d, name) => exec_static_get(fr, env, kind, d, name, handler),
        Instruction::StaticPut(kind, s, name) => exec_static_put(fr, env, kind, s, name, handler),
        Instruction::Invoke(kind, name, argc, args) => exec_invoke(
            fr,
            env,
            kind,
            name,
            argc,
            args,
            handler,
        ),
        Instruction::BinOp2Addr(kind, d, s) => exec_binop2(fr, env, kind, d, s, handler),
        Instruction::BinOpLit(kind, d, s, lit) => exec_binop_lit(fr, env, kind, d, s, lit, handler),
        Instruction::Unsupported(what) => unimpl_res(what.as_str(), &fr.cs),
    }
}

/// 32-bit division, truncating toward zero, wrapping on overflow.
fn div_trunc_wrap(a: i32, b: i32) -> (r: i32)
    requires
        b != 0,
    ensures
        r == crate::machine::wrap_div(a, b),
{
    let sa = a as i64;
    let sb = b as i64;
    let ua: u64 = if sa >= 0 {
        sa as u64
    } else {
        (-sa) as u64
    };
    let ub: u64 = if sb >= 0 {
        sb as u64
    } else {
        (-sb) as u64
    };
    let uq: u64 = ua / ub;
    proof {
        assert(ua <= 0x8000_0000);
        assert(ub >= 1);
        assert(uq <= ua) by (nonlinear_arith)
            requires
                ub >= 1,
                uq == ua as int / ub as int,
                ua <= 0x8000_0000,
        ;
    }
    let qi: i64 = if (sa >= 0) == (sb >= 0) {
        uq as i64
    } else {
        -(uq as i64)
    };
    if qi == 0x8000_0000i64 {
        i32::MIN
    } else {
        qi as i32
    }
}


/// The register file a frame starts with: `Void` everywhere, then the
/// parameters in the highest-numbered registers.
fn build_regs(n_regs: usize, params: &Vec<Value>) -> (regs: Vec<Value>)
    requires
        params@.len() <= n_regs,
    ensures
        regs@.len() == n_regs,
        seq_view(regs@) == crate::machine::initial_regs(n_regs as int, seq_view(params@)),
{
    let n_params = params.len();
    let base = n_regs - n_params;
    let mut regs: Vec<Value> = Vec::new();
    let mut i: usize = 0;
    while i < base
        invariant
            i <= base,
            regs@.len() == i,
            forall|j: int| 0 <= j < i ==> regs@[j] == Value::Void,
        decreases base - i,
    {
        regs.push(Value::Void);
        i = i + 1;
    }
    let mut i: usize = 0;
    while i < n_params
        invariant
            i <= n_params,
            n_params == params@.len(),
            base + n_params <= usize::MAX,
            regs@.len() == base + i,
            forall|j: int| 0 <= j < base ==> regs@[j] == Value::Void,
            forall|j: int| 0 <= j < i ==> regs@[base + j]@ == params@[j]@,
        decreases n_params - i,
    {
        regs.push(params[i].clone());
        i = i + 1;
    }
    proof {
        crate::runtime::lemma_seq_view(regs@);
        crate::runtime::lemma_seq_view(params@);
        assert(seq_view(regs@) =~= crate::machine::initial_regs(
            n_regs as int,
            seq_view(params@),
        ));
    }
    regs
}

impl InterpretedFunction {
    /// Run this function using the interpreter.
    ///
    /// A mismatched argument count ends at once with a
    /// `WrongNumberOfParameters` error, and more parameters than registers
    /// with a `RegisterOutOfBounds` error. Otherwise the function runs with
    /// an explicit frame stack; whatever outcome the machine semantics
    /// determine within the interpreter's step budget, this returns. A run
    /// that invokes another function is beyond the single-frame machine, and
    /// the contract promises only the module's conservation for it.
    pub fn run_interpreted(
        &self,
        parameters: Vec<Value>,
        call_stack: Rc<CallStack>,
        env: &mut Module,
    ) -> (r: InvokeResult)
        requires
            self.wf(),
            old(env).wf(),
        ensures
            final(env).wf(),
            final(env).functions_view() == old(env).functions_view(),
            final(env).spec_name() == old(env).spec_name(),
            result_wf(r),
            parameters@.len() != self@.n_params ==> (r matches InvokeResult::RuntimeError(res)
                && res.error@ == ErrorV::WrongNumberOfParameters(
                self@.n_params as int,
                parameters@.len() as int,
            ) && res.stack == call_stack) && final(env).globals() == old(env).globals(),
            (parameters@.len() == self@.n_params && self@.n_params > self@.n_regs) ==> (
            r matches InvokeResult::RuntimeError(res) && res.error@
                == ErrorV::RegisterOutOfBounds && res.stack == call_stack) && final(env).globals()
                == old(env).globals(),
            (parameters@.len() == self@.n_params && self@.n_params <= self@.n_regs) ==> forall|
                n: nat,
            |
                n <= 0xffff_ffff_ffff_ffff && (#[trigger] crate::machine::machine_run(
                    self@,
                    crate::machine::initial_frame(self@, seq_view(parameters@)),
                    old(env).globals(),
                    n,
                )) is Done ==> result_matches(
                    r,
                    crate::machine::machine_run(
                        self@,
                        crate::machine::initial_frame(self@, seq_view(parameters@)),
                        old(env).globals(),
                        n,
                    )->Done_0,
                    call_stack,
                ) && final(env).globals() == crate::machine::machine_run(
                    self@,
                    crate::machine::initial_frame(self@, seq_view(parameters@)),
                    old(env).globals(),
                    n,
                )->Done_1,
    {
        let n_params = self.n_params();
        let n_regs = self.n_regs();
        if parameters.len() != n_params {
            return InvokeResult::runtime(
                RuntimeError::WrongNumberOfParameters(n_params, parameters.len()),
                call_stack,
            );
        }
        if n_params > n_regs {
            return InvokeResult::runtime(RuntimeError::RegisterOutOfBounds, call_stack);
        }
        let regs = build_regs(n_regs, &parameters);
        let bottom = Frame {
            fun: self.clone(),
            regs,
            pc: 0,
            ret: Value::Void,
            exc: Option::None,
            cs: call_stack.clone(),
            pending: Option::None,
        };
        let mut frames: Vec<Frame> = Vec::new();
        frames.push(bottom);

        let ghost f0 = self@;
        let ghost init_fr = crate::machine::initial_frame(f0, seq_view(parameters@));
        let ghost g_init = old(env).globals();
        let ghost mut clean: bool = true;
        let ghost mut steps: nat = 0;
        proof {
            assert(frames@[0]@ =~= init_fr);
        }
        let mut fuel: u64 = u64::MAX;
        while fuel > 0
            invariant
                parameters@.len() == self@.n_params,
                self@.n_params <= self@.n_regs,
                f0 == self@,
                init_fr == crate::machine::initial_frame(f0, seq_view(parameters@)),
                g_init == old(env).globals(),
                env.wf(),
                env.functions_view() == old(env).functions_view(),
                env.spec_name() == old(env).spec_name(),
                frames@.len() >= 1,
                forall|k: int| 0 <= k < frames@.len() ==> (#[trigger] frames@[k]).wf(),
                frames@[0].cs == call_stack,
                clean ==> frames@.len() == 1 && frames@[0].fun@ == f0 && crate::machine::machine_run(
                    f0,
                    init_fr,
                    g_init,
                    steps,
                ) == crate::machine::RunState::Mid(frames@[0]@, env.globals()) && steps + fuel
                    == 0xffff_ffff_ffff_ffff,
                !clean ==> exists|k: nat|
                    (#[trigger] crate::machine::machine_run(f0, init_fr, g_init, k)) is Out,
            decreases fuel,
        {
            fuel = fuel - 1;
            let mut fr = match frames.pop() {
                Option::Some(x) => x,
                Option::None => {
                    proof {
                        assert(false);
                    }
                    unreached()
                },
            };
            let ghost pre_fr = fr@;
            let ghost pre_g = env.globals();
            let mut finished: InvokeResult = InvokeResult::Okay(Value::Void);
            let insn_count = fr.fun.instructions().len();
            if fr.pc >= insn_count {
                finished = InvokeResult::Okay(Value::Void);
                proof {
                    if clean {
                        assert(crate::machine::machine_step(f0, pre_fr, pre_g)
                            == StepOut::Final(Outcome::Okay(crate::runtime::ValueV::Void), pre_g));
                    }
                }
            } else {
                let sr = step(&mut fr, env);
                match sr {
                    StepRes::KeepGoing => {
                        proof {
                            if clean {
                                assert(crate::machine::machine_step(f0, pre_fr, pre_g) matches
                                    StepOut::Next(f2, g2) && f2 == fr@ && g2 == env.globals());
                                steps = steps + 1;
                                assert(crate::machine::machine_run(f0, init_fr, g_init, steps)
                                    == crate::machine::RunState::Mid(fr@, env.globals()));
                            }
                        }
                        frames.push(fr);
                        continue;
                    },
                    StepRes::Finish(res) => {
                        finished = res;
                    },
                    StepRes::Call(name, argv) => {
                        proof {
                            if clean {
                                assert(crate::machine::machine_step(f0, pre_fr, pre_g)
                                    is CallsOut);
                                assert(crate::machine::machine_run(f0, init_fr, g_init, steps + 1)
                                    is Out);
                                clean = false;
                            }
                            assert(exists|k: nat|
                                (#[trigger] crate::machine::machine_run(f0, init_fr, g_init, k))
                                    is Out);
                            let k = choose|k: nat|
                                (#[trigger] crate::machine::machine_run(f0, init_fr, g_init, k))
                                    is Out;
                            crate::machine::lemma_out_never_done(f0, init_fr, g_init, k);
                        }
                        let cs2 = Rc::new(CallStack::extend(name.clone(), fr.cs.clone()));
                        let callee: crate::function::Function = match env.get_function(
                            name.as_str(),
                        ) {
                            Option::None => {
                                return InvokeResult::runtime(
                                    RuntimeError::InvokeOnNonExistingFunction(name),
                                    cs2,
                                );
                            },
                            Option::Some(fun) => fun.clone(),
                        };
                        match callee {
                            crate::function::Function::Native(nf) => {
                                let nres = crate::std_env::run_native(nf, argv, cs2, env);
                                match nres {
                                    InvokeResult::Okay(v) => {
                                        fr.ret = v;
                                        frames.push(fr);
                                        continue;
                                    },
                                    InvokeResult::RuntimeError(re) => {
                                        return InvokeResult::RuntimeError(re);
                                    },
                                    InvokeResult::Exception(e, _ecs) => {
                                        let pend = fr.pending;
                                        match deliver(&mut fr, e, pend, Ghost(env.globals())) {
                                            Option::None => {
                                                frames.push(fr);
                                                continue;
                                            },
                                            Option::Some(res2) => {
                                                finished = res2;
                                            },
                                        }
                                    },
                                }
                            },
                            crate::function::Function::Interpreted(cf) => {
                                let cn_params = cf.n_params();
                                let cn_regs = cf.n_regs();
                                if argv.len() != cn_params {
                                    return InvokeResult::runtime(
                                        RuntimeError::WrongNumberOfParameters(
                                            cn_params,
                                            argv.len(),
                                        ),
                                        cs2,
                                    );
                                }
                                if cn_params > cn_regs {
                                    return InvokeResult::runtime(
                                        RuntimeError::RegisterOutOfBounds,
                                        cs2,
                                    );
                                }
                                let child_regs = build_regs(cn_regs, &argv);
                                let child = Frame {
                                    fun: cf,
                                    regs: child_regs,
                                    pc: 0,
                                    ret: Value::Void,
                                    exc: Option::None,
                                    cs: cs2,
                                    pending: Option::None,
                                };
                                frames.push(fr);
                                frames.push(child);
                                continue;
                            },
                        }
                    },
                }
            }
            // The frame in hand has finished with `finished`.
            if frames.len() == 0 {
                proof {
                    if clean {
                        let d = crate::machine::machine_run(f0, init_fr, g_init, steps + 1);
                        assert(d is Done);
                        crate::machine::lemma_done_unique(f0, init_fr, g_init, steps + 1);
                    } else {
                        let k = choose|k: nat|
                            (#[trigger] crate::machine::machine_run(f0, init_fr, g_init, k))
                                is Out;
                        crate::machine::lemma_out_never_done(f0, init_fr, g_init, k);
                    }
                }
                return finished;
            }
            proof {
                assert(!clean);
            }
            let mut res = finished;
            while frames.len() > 0
                invariant
                    parameters@.len() == self@.n_params,
                    self@.n_params <= self@.n_regs,
                    f0 == self@,
                    init_fr == crate::machine::initial_frame(f0, seq_view(parameters@)),
                    g_init == old(env).globals(),
                    env.wf(),
                    env.functions_view() == old(env).functions_view(),
                    env.spec_name() == old(env).spec_name(),
                    forall|k: int| 0 <= k < frames@.len() ==> (#[trigger] frames@[k]).wf(),
                    frames@.len() >= 1 ==> frames@[0].cs == call_stack,
                    result_wf(res),
                    !clean,
                    exists|k: nat|
                        (#[trigger] crate::machine::machine_run(f0, init_fr, g_init, k)) is Out,
                decreases frames@.len(),
            {
                let mut parent = match frames.pop() {
                    Option::Some(x) => x,
                    Option::None => {
                        proof {
                            assert(false);
                        }
                        unreached()
                    },
                };
                let cur = res;
                res = InvokeResult::Okay(Value::Void);
                match cur {
                    InvokeResult::Okay(v) => {
                        parent.ret = v;
                        frames.push(parent);
                        break;
                    },
                    InvokeResult::RuntimeError(re) => {
                        proof {
                            let k = choose|k: nat|
                                (#[trigger] crate::machine::machine_run(f0, init_fr, g_init, k))
                                    is Out;
                            crate::machine::lemma_out_never_done(f0, init_fr, g_init, k);
                        }
                        return InvokeResult::RuntimeError(re);
                    },
                    InvokeResult::Exception(e, _ecs) => {
                        let pend = parent.pending;
                        match deliver(&mut parent, e, pend, Ghost(env.globals())) {
                            Option::None => {
                                frames.push(parent);
                                break;
                            },
                            Option::Some(res2) => {
                                res = res2;
                            },
                        }
                    },
                }
            }
            if frames.len() == 0 {
                proof {
                    let k = choose|k: nat|
                        (#[trigger] crate::machine::machine_run(f0, init_fr, g_init, k)) is Out;
                    crate::machine::lemma_out_never_done(f0, init_fr, g_init, k);
                }
                return res;
            }
        }
        // The step budget ran out; give up with a runtime error. The
        // refinement clause stays true: within the budget the machine was
        // still mid-run, so no step count it covers is done.
        proof {
            if clean {
                crate::machine::lemma_no_done_before_mid(f0, init_fr, g_init, steps);
            } else {
                let k = choose|k: nat|
                    (#[trigger] crate::machine::machine_run(f0, init_fr, g_init, k)) is Out;
                crate::machine::lemma_out_never_done(f0, init_fr, g_init, k);
            }
        }
        InvokeResult::runtime(RuntimeError::Unimplemented("step budget exhausted".to_owned()), call_stack)
    }
}

} // verus!

