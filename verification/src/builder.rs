//! The function builder: collects interpreter instructions, each tagged with
//! the handler index in effect at that point, and finalises them into an
//! interpreted function.

use vstd::prelude::*;

use crate::function::{body_view, FnV, Function, FunctionV, HandlerTable, InterpretedFunction};
use crate::instructions::{
    BinOpKind, BinOpLitKind, CmpKind, GetPutKind, IfKind, Instruction, InstructionV, InvokeKind,
    LiteralValue, MoveKind, ReturnType, TypeIndex, UnOpKind,
};
use crate::parser::ParserError;
use crate::runtime::{seq_view, Value, ValueV};

verus! {

pub struct FunctionBuilder {
    n_regs: usize,
    n_params: usize,
    return_: bool,
    instructions: Vec<(Instruction, Option<usize>)>,
    next_handler: Option<usize>,
    handlers: Vec<HandlerTable>,
}

impl FunctionBuilder {
    /// The instruction list collected so far, with each instruction's
    /// handler index.
    pub closed spec fn body(self) -> Seq<(InstructionV, Option<usize>)> {
        body_view(self.instructions@)
    }

    /// The handler tables set so far.
    pub closed spec fn handler_maps(self) -> Seq<Map<Seq<char>, usize>> {
        crate::function::handlers_view(self.handlers@)
    }

    /// The handler index the next pushed instruction will carry.
    pub closed spec fn pending_handler(self) -> Option<usize> {
        self.next_handler
    }

    pub closed spec fn regs(self) -> usize {
        self.n_regs
    }

    pub closed spec fn params(self) -> usize {
        self.n_params
    }

    pub closed spec fn has_return(self) -> bool {
        self.return_
    }

    /// The builder's handler tables are well-formed.
    pub closed spec fn wf(self) -> bool {
        forall|i: int| 0 <= i < self.handlers@.len() ==> (#[trigger] self.handlers@[i]).wf()
    }

    pub fn new() -> (r: Self)
        ensures
            r.wf(),
            r.body() == Seq::<(InstructionV, Option<usize>)>::empty(),
            r.handler_maps() == Seq::<Map<Seq<char>, usize>>::empty(),
            r.pending_handler() is None,
            r.regs() == 0,
            r.params() == 0,
            !r.has_return(),
    {
        let r = FunctionBuilder {
            n_regs: 0,
            n_params: 0,
            return_: false,
            instructions: Vec::new(),
            next_handler: Option::None,
            handlers: Vec::new(),
        };
        proof {
            assert(r.body() =~= Seq::<(InstructionV, Option<usize>)>::empty());
            assert(r.handler_maps() =~= Seq::<Map<Seq<char>, usize>>::empty());
        }
        r
    }

    /// Finalise into an interpreted function.
    pub fn build(self) -> (r: Function)
        requires
            self.wf(),
        ensures
            r.wf(),
            r@ == FunctionV::Interpreted(
                FnV {
                    n_regs: self.regs(),
                    n_params: self.params(),
                    return_: self.has_return(),
                    body: self.body(),
                    handlers: self.handler_maps(),
                },
            ),
    {
        Function::Interpreted(
            InterpretedFunction::new(
                self.n_regs,
                self.n_params,
                self.return_,
                self.instructions,
                self.handlers,
            ),
        )
    }

    pub fn set_handlers(&mut self, new_handlers: Vec<HandlerTable>)
        requires
            old(self).wf(),
            forall|i: int| 0 <= i < new_handlers@.len() ==> (#[trigger] new_handlers@[i]).wf(),
        ensures
            final(self).wf(),
            final(self).handler_maps() == crate::function::handlers_view(new_handlers@),
            final(self).body() == old(self).body(),
            final(self).pending_handler() == old(self).pending_handler(),
            final(self).regs() == old(self).regs(),
            final(self).params() == old(self).params(),
            final(self).has_return() == old(self).has_return(),
    {
        self.handlers = new_handlers;
    }

    pub fn set_next_handler(&mut self, handler: Option<usize>)
        requires
            old(self).wf(),
        ensures
            final(self).wf(),
            final(self).pending_handler() == handler,
            final(self).body() == old(self).body(),
            final(self).handler_maps() == old(self).handler_maps(),
            final(self).regs() == old(self).regs(),
            final(self).params() == old(self).params(),
            final(self).has_return() == old(self).has_return(),
    {
        self.next_handler = handler;
    }

    pub fn set_n_regs(&mut self, new_n_regs: usize)
        requires
            old(self).wf(),
        ensures
            final(self).wf(),
            final(self).regs() == new_n_regs,
            final(self).body() == old(self).body(),
            final(self).handler_maps() == old(self).handler_maps(),
            final(self).pending_handler() == old(self).pending_handler(),
            final(self).params() == old(self).params(),
            final(self).has_return() == old(self).has_return(),
    {
        self.n_regs = new_n_regs;
    }

    pub fn set_n_params(&mut self, new_n_params: usize)
        requires
            old(self).wf(),
        ensures
            final(self).wf(),
            final(self).params() == new_n_params,
            final(self).body() == old(self).body(),
            final(self).handler_maps() == old(self).handler_maps(),
            final(self).pending_handler() == old(self).pending_handler(),
            final(self).regs() == old(self).regs(),
            final(self).has_return() == old(self).has_return(),
    {
        self.n_params = new_n_params;
    }

    pub fn set_return(&mut self, new_return: bool)
        requires
            old(self).wf(),
        ensures
            final(self).wf(),
            final(self).has_return() == new_return,
            final(self).body() == old(self).body(),
            final(self).handler_maps() == old(self).handler_maps(),
            final(self).pending_handler() == old(self).pending_handler(),
            final(self).regs() == old(self).regs(),
            final(self).params() == old(self).params(),
    {
        self.return_ = new_return;
    }

    /// Record an opcode that is not translated: the sentinel reports it if
    /// the interpreter ever reaches it.
    pub fn unsupported(&mut self, what: &str)
        requires
            old(self).wf(),
        ensures
            final(self).wf(),
            final(self).body() == old(self).body().push(
                (InstructionV::Unsupported(what@), old(self).pending_handler()),
            ),
            final(self).pending_handler() is None,
            final(self).handler_maps() == old(self).handler_maps(),
            final(self).regs() == old(self).regs(),
            final(self).params() == old(self).params(),
            final(self).has_return() == old(self).has_return(),
    {
        self.push_instruction(Instruction::Unsupported(what.to_owned()));
    }

    /// Append `ins`, tagging it with the pending handler index, which is
    /// then cleared.
    fn push_instruction(&mut self, ins: Instruction)
        requires
            old(self).wf(),
        ensures
            final(self).wf(),
            final(self).body() == old(self).body().push((ins@, old(self).pending_handler())),
            final(self).pending_handler() is None,
            final(self).handler_maps() == old(self).handler_maps(),
            final(self).regs() == old(self).regs(),
            final(self).params() == old(self).params(),
            final(self).has_return() == old(self).has_return(),
    {
        let ghost iv = ins@;
        let ghost h = self.next_handler;
        self.instructions.push((ins, self.next_handler));
        self.next_handler = Option::None;
        proof {
            assert(self.body() =~= old(self).body().push((iv, h)));
        }
    }

    pub fn label(&mut self, id: usize)
        requires
            old(self).wf(),
        ensures
            final(self).wf(),
            final(self).body() == old(self).body().push(
                (InstructionV::Label(id as int), old(self).pending_handler()),
            ),
            final(self).pending_handler() is None,
            final(self).handler_maps() == old(self).handler_maps(),
            final(self).regs() == old(self).regs(),
            final(self).params() == old(self).params(),
            final(self).has_return() == old(self).has_return(),
    {
        self.push_instruction(Instruction::Label(id))
    }

    pub fn nop(&mut self)
        requires
            old(self).wf(),
        ensures
            final(self).wf(),
            final(self).body() == old(self).body().push(
                (InstructionV::Nop, old(self).pending_handler()),
            ),
            final(self).pending_handler() is None,
            final(self).handler_maps() == old(self).handler_maps(),
            final(self).regs() == old(self).regs(),
            final(self).params() == old(self).params(),
            final(self).has_return() == old(self).has_return(),
    {
        self.push_instruction(Instruction::Nop);
    }

    /// Move from one register to another: not translated yet; the sentinel
    /// reports it at run time.
    pub fn move_v(&mut self, _kind: MoveKind, _va: u16, _vb: u16)
        requires
            old(self).wf(),
        ensures
            final(self).wf(),
            final(self).body() == old(self).body().push(
                (InstructionV::Unsupported("move"@), old(self).pending_handler()),
            ),
            final(self).pending_handler() is None,
            final(self).handler_maps() == old(self).handler_maps(),
            final(self).regs() == old(self).regs(),
            final(self).params() == old(self).params(),
            final(self).has_return() == old(self).has_return(),
    {
        self.push_instruction(Instruction::Unsupported("move".to_owned()));
    }

    /// Move the results to a register.
    pub fn move_results(&mut self, kind: MoveKind, v: usize)
        requires
            old(self).wf(),
        ensures
            final(self).wf(),
            final(self).body() == old(self).body().push(
                (InstructionV::MoveResult(kind, v as int), old(self).pending_handler()),
            ),
            final(self).pending_handler() is None,
            final(self).handler_maps() == old(self).handler_maps(),
            final(self).regs() == old(self).regs(),
            final(self).params() == old(self).params(),
            final(self).has_return() == old(self).has_return(),
    {
        self.push_instruction(Instruction::MoveResult(kind, v));
    }

    /// Move exception to a register.
    pub fn move_exception(&mut self, v: usize)
        requires
            old(self).wf(),
        ensures
            final(self).wf(),
            final(self).body() == old(self).body().push(
                (InstructionV::MoveException(v as int), old(self).pending_handler()),
            ),
            final(self).pending_handler() is None,
            final(self).handler_maps() == old(self).handler_maps(),
            final(self).regs() == old(self).regs(),
            final(self).params() == old(self).params(),
            final(self).has_return() == old(self).has_return(),
    {
        self.push_instruction(Instruction::MoveException(v));
    }

    /// Return a void or register value.
    pub fn return_v(&mut self, ty: ReturnType)
        requires
            old(self).wf(),
        ensures
            final(self).wf(),
            final(self).body() == old(self).body().push(
                (InstructionV::Return(ty), old(self).pending_handler()),
            ),
            final(self).pending_handler() is None,
            final(self).handler_maps() == old(self).handler_maps(),
            final(self).regs() == old(self).regs(),
            final(self).params() == old(self).params(),
            final(self).has_return() == old(self).has_return(),
    {
        self.push_instruction(Instruction::Return(ty));
    }

    /// Move the literal value into the specified register.
    pub fn const_set(&mut self, v: usize, lit: LiteralValue)
        requires
            old(self).wf(),
        ensures
            final(self).wf(),
            final(self).body() == old(self).body().push(
                (InstructionV::ConstSet(v as int, lit@), old(self).pending_handler()),
            ),
            final(self).pending_handler() is None,
            final(self).handler_maps() == old(self).handler_maps(),
            final(self).regs() == old(self).regs(),
            final(self).params() == old(self).params(),
            final(self).has_return() == old(self).has_return(),
    {
        self.push_instruction(Instruction::ConstSet(v, lit))
    }

    /// Monitor enter and exit: not translated yet.
    pub fn monitor(&mut self)
        requires
            old(self).wf(),
        ensures
            final(self).wf(),
            final(self).body() == old(self).body().push(
                (InstructionV::Unsupported("monitor"@), old(self).pending_handler()),
            ),
            final(self).pending_handler() is None,
            final(self).handler_maps() == old(self).handler_maps(),
            final(self).regs() == old(self).regs(),
            final(self).params() == old(self).params(),
            final(self).has_return() == old(self).has_return(),
    {
        self.push_instruction(Instruction::Unsupported("monitor".to_owned()));
    }

    /// Check a cast: not translated yet.
    pub fn check_cast(&mut self)
        requires
            old(self).wf(),
        ensures
            final(self).wf(),
            final(self).body() == old(self).body().push(
                (InstructionV::Unsupported("check-cast"@), old(self).pending_handler()),
            ),
            final(self).pending_handler() is None,
            final(self).handler_maps() == old(self).handler_maps(),
            final(self).regs() == old(self).regs(),
            final(self).params() == old(self).params(),
            final(self).has_return() == old(self).has_return(),
    {
        self.push_instruction(Instruction::Unsupported("check-cast".to_owned()));
    }

    /// Test whether a reference is an instance of a type: not translated
    /// yet.
    pub fn instance_of(&mut self, _va: u8, _vb: u8, _type_: TypeIndex)
        requires
            old(self).wf(),
        ensures
            final(self).wf(),
            final(self).body() == old(self).body().push(
                (InstructionV::Unsupported("instance-of"@), old(self).pending_handler()),
            ),
            final(self).pending_handler() is None,
            final(self).handler_maps() == old(self).handler_maps(),
            final(self).regs() == old(self).regs(),
            final(self).params() == old(self).params(),
            final(self).has_return() == old(self).has_return(),
    {
        self.push_instruction(Instruction::Unsupported("instance-of".to_owned()));
    }

    /// Store the length of an array: not translated yet.
    pub fn array_length(&mut self, _v_dest: u8, _v_arr: u8)
        requires
            old(self).wf(),
        ensures
            final(self).wf(),
            final(self).body() == old(self).body().push(
                (InstructionV::Unsupported("array-length"@), old(self).pending_handler()),
            ),
            final(self).pending_handler() is None,
            final(self).handler_maps() == old(self).handler_maps(),
            final(self).regs() == old(self).regs(),
            final(self).params() == old(self).params(),
            final(self).has_return() == old(self).has_return(),
    {
        self.push_instruction(Instruction::Unsupported("array-length".to_owned()));
    }

    /// Construct a new instance of the indicated type.
    pub fn new_instance(&mut self, v_dest: u8, type_: TypeIndex)
        requires
            old(self).wf(),
        ensures
            final(self).wf(),
            final(self).body() == old(self).body().push(
                (
                    InstructionV::NewInstance(v_dest as int, type_ as int),
                    old(self).pending_handler(),
                ),
            ),
            final(self).pending_handler() is None,
            final(self).handler_maps() == old(self).handler_maps(),
            final(self).regs() == old(self).regs(),
            final(self).params() == old(self).params(),
            final(self).has_return() == old(self).has_return(),
    {
        self.push_instruction(Instruction::NewInstance(v_dest, type_));
    }

    /// Construct a new array of the indicated type and size.
    pub fn new_array(&mut self, v_dest: u8, v_size: usize, type_: TypeIndex)
        requires
            old(self).wf(),
        ensures
            final(self).wf(),
            final(self).body() == old(self).body().push(
                (
                    InstructionV::NewArray(v_dest as int, v_size as int, type_ as int),
                    old(self).pending_handler(),
                ),
            ),
            final(self).pending_handler() is None,
            final(self).handler_maps() == old(self).handler_maps(),
            final(self).regs() == old(self).regs(),
            final(self).params() == old(self).params(),
            final(self).has_return() == old(self).has_return(),
    {
        self.push_instruction(Instruction::NewArray(v_dest, v_size, type_));
    }

    /// Filled new array: not translated yet.
    pub fn filled_new_array(&mut self)
        requires
            old(self).wf(),
        ensures
            final(self).wf(),
            final(self).body() == old(self).body().push(
                (InstructionV::Unsupported("filled-new-array"@), old(self).pending_handler()),
            ),
            final(self).pending_handler() is None,
            final(self).handler_maps() == old(self).handler_maps(),
            final(self).regs() == old(self).regs(),
            final(self).params() == old(self).params(),
            final(self).has_return() == old(self).has_return(),
    {
        self.push_instruction(Instruction::Unsupported("filled-new-array".to_owned()));
    }

    /// Filled new array, range form: not translated yet.
    pub fn filled_new_array_range(&mut self)
        requires
            old(self).wf(),
        ensures
            final(self).wf(),
            final(self).body() == old(self).body().push(
                (
                    InstructionV::Unsupported("filled-new-array/range"@),
                    old(self).pending_handler(),
                ),
            ),
            final(self).pending_handler() is None,
            final(self).handler_maps() == old(self).handler_maps(),
            final(self).regs() == old(self).regs(),
            final(self).params() == old(self).params(),
            final(self).has_return() == old(self).has_return(),
    {
        self.push_instruction(Instruction::Unsupported("filled-new-array/range".to_owned()));
    }

    /// Throw the indicated exception: not translated yet.
    pub fn throw(&mut self, _v_ex: u8)
        requires
            old(self).wf(),
        ensures
            final(self).wf(),
            final(self).body() == old(self).body().push(
                (InstructionV::Unsupported("throw"@), old(self).pending_handler()),
            ),
            final(self).pending_handler() is None,
            final(self).handler_maps() == old(self).handler_maps(),
            final(self).regs() == old(self).regs(),
            final(self).params() == old(self).params(),
            final(self).has_return() == old(self).has_return(),
    {
        self.push_instruction(Instruction::Unsupported("throw".to_owned()));
    }

    /// Go to the specified label.
    pub fn goto(&mut self, label_id: usize)
        requires
            old(self).wf(),
        ensures
            final(self).wf(),
            final(self).body() == old(self).body().push(
                (InstructionV::GoTo(label_id as int), old(self).pending_handler()),
            ),
            final(self).pending_handler() is None,
            final(self).handler_maps() == old(self).handler_maps(),
            final(self).regs() == old(self).regs(),
            final(self).params() == old(self).params(),
            final(self).has_return() == old(self).has_return(),
    {
        self.push_instruction(Instruction::GoTo(label_id));
    }

    /// Switch statement: not translated yet.
    pub fn switch(&mut self)
        requires
            old(self).wf(),
        ensures
            final(self).wf(),
            final(self).body() == old(self).body().push(
                (InstructionV::Unsupported("switch"@), old(self).pending_handler()),
            ),
            final(self).pending_handler() is None,
            final(self).handler_maps() == old(self).handler_maps(),
            final(self).regs() == old(self).regs(),
            final(self).params() == old(self).params(),
            final(self).has_return() == old(self).has_return(),
    {
        self.push_instruction(Instruction::Unsupported("switch".to_owned()));
    }

    /// Long or floating-point comparison: not translated yet.
    pub fn cmp_kind(&mut self, _v_dest: u8, _v_b: u8, _v_c: u8, _kind: CmpKind)
        requires
            old(self).wf(),
        ensures
            final(self).wf(),
            final(self).body() == old(self).body().push(
                (InstructionV::Unsupported("cmp"@), old(self).pending_handler()),
            ),
            final(self).pending_handler() is None,
            final(self).handler_maps() == old(self).handler_maps(),
            final(self).regs() == old(self).regs(),
            final(self).params() == old(self).params(),
            final(self).has_return() == old(self).has_return(),
    {
        self.push_instruction(Instruction::Unsupported("cmp".to_owned()));
    }

    /// Branch to the given destination if the given two registers' values
    /// compare as specified.
    pub fn if_test(&mut self, kind: IfKind, v_first: u8, v_second: u8, target_label: usize)
        requires
            old(self).wf(),
        ensures
            final(self).wf(),
            final(self).body() == old(self).body().push(
                (
                    InstructionV::If(kind, v_first as int, v_second as int, target_label as int),
                    old(self).pending_handler(),
                ),
            ),
            final(self).pending_handler() is None,
            final(self).handler_maps() == old(self).handler_maps(),
            final(self).regs() == old(self).regs(),
            final(self).params() == old(self).params(),
            final(self).has_return() == old(self).has_return(),
    {
        self.push_instruction(Instruction::If(kind, v_first, v_second, target_label));
    }

    /// Branch on a comparison against zero: not translated yet.
    pub fn ifz_test(&mut self, _v_test: u8, _target_label: usize)
        requires
            old(self).wf(),
        ensures
            final(self).wf(),
            final(self).body() == old(self).body().push(
                (InstructionV::Unsupported("if-testz"@), old(self).pending_handler()),
            ),
            final(self).pending_handler() is None,
            final(self).handler_maps() == old(self).handler_maps(),
            final(self).regs() == old(self).regs(),
            final(self).params() == old(self).params(),
            final(self).has_return() == old(self).has_return(),
    {
        self.push_instruction(Instruction::Unsupported("if-testz".to_owned()));
    }

    /// Read from an array at an index into the destination register.
    pub fn array_get(&mut self, kind: GetPutKind, v_dest: u8, v_arr: u8, v_idx: u8)
        requires
            old(self).wf(),
        ensures
            final(self).wf(),
            final(self).body() == old(self).body().push(
                (
                    InstructionV::ArrayGet(kind, v_dest as int, v_arr as int, v_idx as int),
                    old(self).pending_handler(),
                ),
            ),
            final(self).pending_handler() is None,
            final(self).handler_maps() == old(self).handler_maps(),
            final(self).regs() == old(self).regs(),
            final(self).params() == old(self).params(),
            final(self).has_return() == old(self).has_return(),
    {
        self.push_instruction(Instruction::ArrayGet(kind, v_dest, v_arr, v_idx));
    }

    /// Store into an array at an index: not translated yet.
    pub fn array_put(&mut self, _v_src: u8, _v_arr: u8, _v_idx: u8, _kind: GetPutKind)
        requires
            old(self).wf(),
        ensures
            final(self).wf(),
            final(self).body() == old(self).body().push(
                (InstructionV::Unsupported("array-put"@), old(self).pending_handler()),
            ),
            final(self).pending_handler() is None,
            final(self).handler_maps() == old(self).handler_maps(),
            final(self).regs() == old(self).regs(),
            final(self).params() == old(self).params(),
            final(self).has_return() == old(self).has_return(),
    {
        self.push_instruction(Instruction::Unsupported("array-put".to_owned()));
    }

    /// Read the named field of an instance into the destination register.
    pub fn instance_get(&mut self, kind: GetPutKind, v_dest: u8, v_inst: u8, field: String)
        requires
            old(self).wf(),
        ensures
            final(self).wf(),
            final(self).body() == old(self).body().push(
                (
                    InstructionV::InstanceGet(kind, v_dest as int, v_inst as int, field@),
                    old(self).pending_handler(),
                ),
            ),
            final(self).pending_handler() is None,
            final(self).handler_maps() == old(self).handler_maps(),
            final(self).regs() == old(self).regs(),
            final(self).params() == old(self).params(),
            final(self).has_return() == old(self).has_return(),
    {
        self.push_instruction(Instruction::InstanceGet(kind, v_dest, v_inst, field));
    }

    /// Write the source register into the named field of an instance.
    pub fn instance_put(&mut self, kind: GetPutKind, v_src: u8, v_inst: u8, field_ref: String)
        requires
            old(self).wf(),
        ensures
            final(self).wf(),
            final(self).body() == old(self).body().push(
                (
                    InstructionV::InstancePut(kind, v_src as int, v_inst as int, field_ref@),
                    old(self).pending_handler(),
                ),
            ),
            final(self).pending_handler() is None,
            final(self).handler_maps() == old(self).handler_maps(),
            final(self).regs() == old(self).regs(),
            final(self).params() == old(self).params(),
            final(self).has_return() == old(self).has_return(),
    {
        self.push_instruction(Instruction::InstancePut(kind, v_src, v_inst, field_ref));
    }

    /// Read the named static into the destination register.
    pub fn static_get(&mut self, kind: GetPutKind, v_dest: u8, static_name: String)
        requires
            old(self).wf(),
        ensures
            final(self).wf(),
            final(self).body() == old(self).body().push(
                (
                    InstructionV::StaticGet(kind, v_dest as int, static_name@),
                    old(self).pending_handler(),
                ),
            ),
            final(self).pending_handler() is None,
            final(self).handler_maps() == old(self).handler_maps(),
            final(self).regs() == old(self).regs(),
            final(self).params() == old(self).params(),
            final(self).has_return() == old(self).has_return(),
    {
        self.push_instruction(Instruction::StaticGet(kind, v_dest, static_name));
    }

    /// Write the source register into the named static.
    pub fn static_put(&mut self, kind: GetPutKind, v_src: u8, static_idx: String)
        requires
            old(self).wf(),
        ensures
            final(self).wf(),
            final(self).body() == old(self).body().push(
                (
                    InstructionV::StaticPut(kind, v_src as int, static_idx@),
                    old(self).pending_handler(),
                ),
            ),
            final(self).pending_handler() is None,
            final(self).handler_maps() == old(self).handler_maps(),
            final(self).regs() == old(self).regs(),
            final(self).params() == old(self).params(),
            final(self).has_return() == old(self).has_return(),
    {
        self.push_instruction(Instruction::StaticPut(kind, v_src, static_idx));
    }

    /// Call the indicated method.
    pub fn invoke(&mut self, kind: InvokeKind, method: String, argc: u8, args: [u8; 5])
        requires
            old(self).wf(),
        ensures
            final(self).wf(),
            final(self).body() == old(self).body().push(
                (
                    InstructionV::Invoke(kind, method@, argc as int, args@),
                    old(self).pending_handler(),
                ),
            ),
            final(self).pending_handler() is None,
            final(self).handler_maps() == old(self).handler_maps(),
            final(self).regs() == old(self).regs(),
            final(self).params() == old(self).params(),
            final(self).has_return() == old(self).has_return(),
    {
        self.push_instruction(Instruction::Invoke(kind, method, argc, args));
    }

    /// Call the indicated method, range form: not translated yet.
    pub fn invoke_range(&mut self, _kind: InvokeKind, _method: u16, _argc: u8, _v_arg1: u16)
        requires
            old(self).wf(),
        ensures
            final(self).wf(),
            final(self).body() == old(self).body().push(
                (InstructionV::Unsupported("invoke/range"@), old(self).pending_handler()),
            ),
            final(self).pending_handler() is None,
            final(self).handler_maps() == old(self).handler_maps(),
            final(self).regs() == old(self).regs(),
            final(self).params() == old(self).params(),
            final(self).has_return() == old(self).has_return(),
    {
        self.push_instruction(Instruction::Unsupported("invoke/range".to_owned()));
    }

    /// Unary operation: not translated yet.
    pub fn un_op(&mut self, _kind: UnOpKind, _v_dest: u8, _v_src: u8)
        requires
            old(self).wf(),
        ensures
            final(self).wf(),
            final(self).body() == old(self).body().push(
                (InstructionV::Unsupported("unary op"@), old(self).pending_handler()),
            ),
            final(self).pending_handler() is None,
            final(self).handler_maps() == old(self).handler_maps(),
            final(self).regs() == old(self).regs(),
            final(self).params() == old(self).params(),
            final(self).has_return() == old(self).has_return(),
    {
        self.push_instruction(Instruction::Unsupported("unary op".to_owned()));
    }

    /// Three-register binary operation: not translated yet.
    pub fn bin_op(&mut self, _kind: BinOpKind, _v_dest: u8, _v_src_a: u8, _v_src_b: u8)
        requires
            old(self).wf(),
        ensures
            final(self).wf(),
            final(self).body() == old(self).body().push(
                (InstructionV::Unsupported("binary op"@), old(self).pending_handler()),
            ),
            final(self).pending_handler() is None,
            final(self).handler_maps() == old(self).handler_maps(),
            final(self).regs() == old(self).regs(),
            final(self).params() == old(self).params(),
            final(self).has_return() == old(self).has_return(),
    {
        self.push_instruction(Instruction::Unsupported("binary op".to_owned()));
    }

    /// Two-address binary operation on the two source registers, storing
    /// into the first.
    pub fn bin_op_2_addr(&mut self, kind: BinOpKind, v_dest_and_src_a: u8, v_src_b: u8)
        requires
            old(self).wf(),
        ensures
            final(self).wf(),
            final(self).body() == old(self).body().push(
                (
                    InstructionV::BinOp2Addr(kind, v_dest_and_src_a as int, v_src_b as int),
                    old(self).pending_handler(),
                ),
            ),
            final(self).pending_handler() is None,
            final(self).handler_maps() == old(self).handler_maps(),
            final(self).regs() == old(self).regs(),
            final(self).params() == old(self).params(),
            final(self).has_return() == old(self).has_return(),
    {
        self.push_instruction(Instruction::BinOp2Addr(kind, v_dest_and_src_a, v_src_b));
    }

    /// Binary operation on a source register and a literal, storing into the
    /// destination register.
    pub fn bin_op_lit(&mut self, kind: BinOpLitKind, v_dest: u8, v_src: u8, lit: i16)
        requires
            old(self).wf(),
        ensures
            final(self).wf(),
            final(self).body() == old(self).body().push(
                (
                    InstructionV::BinOpLit(kind, v_dest as int, v_src as int, lit),
                    old(self).pending_handler(),
                ),
            ),
            final(self).pending_handler() is None,
            final(self).handler_maps() == old(self).handler_maps(),
            final(self).regs() == old(self).regs(),
            final(self).params() == old(self).params(),
            final(self).has_return() == old(self).has_return(),
    {
        self.push_instruction(Instruction::BinOpLit(kind, v_dest, v_src, lit));
    }

    /// What a width-1 or width-4 array-data payload holds: each byte
    /// zero-extended, or each aligned little-endian 4-byte group read as a
    /// 32-bit value.
    pub open spec fn fill_values(el_width: int, data: Seq<u8>) -> Seq<ValueV> {
        if el_width == 1 {
            Seq::new(data.len(), |j: int| ValueV::U32(data[j] as i32))
        } else {
            Seq::new(
                data.len() / 4,
                |j: int|
                    ValueV::U32(
                        crate::formats::le32(
                            data[4 * j],
                            data[4 * j + 1],
                            data[4 * j + 2],
                            data[4 * j + 3],
                        ) as i32,
                    ),
            )
        }
    }

    /// Fill array data: the raw payload becomes 32-bit values. Widths other
    /// than 1 and 4 are rejected, as is a width-4 payload whose length is
    /// not a multiple of four.
    pub fn fill_array_data(&mut self, arr_v: usize, el_width: usize, data: Vec<u8>) -> (r: Result<
        (),
        ParserError,
    >)
        requires
            old(self).wf(),
        ensures
            final(self).wf(),
            final(self).handler_maps() == old(self).handler_maps(),
            final(self).regs() == old(self).regs(),
            final(self).params() == old(self).params(),
            final(self).has_return() == old(self).has_return(),
            match r {
                Result::Ok(_) => (el_width == 1 || (el_width == 4 && data@.len() % 4 == 0))
                    && final(self).body() == old(self).body().push(
                    (
                        InstructionV::FillArrayData(
                            arr_v as int,
                            Self::fill_values(el_width as int, data@),
                        ),
                        old(self).pending_handler(),
                    ),
                ) && final(self).pending_handler() is None,
                Result::Err(e) => *final(self) == *old(self) && ((el_width == 4 && data@.len() % 4
                    != 0 && e == ParserError::UnevenArrayData) || (!(el_width == 1 || el_width == 4)
                    && e == ParserError::BadArrayWidth)),
            },
    {
        let values: Vec<Value> = if el_width == 1 {
            let mut out: Vec<Value> = Vec::new();
            let mut i: usize = 0;
            while i < data.len()
                invariant
                    i <= data@.len(),
                    out@.len() == i,
                    forall|j: int| 0 <= j < i ==> out@[j] == Value::U32(data@[j] as i32),
                decreases data@.len() - i,
            {
                out.push(Value::U32(data[i] as i32));
                i = i + 1;
            }
            out
        } else if el_width == 4 {
            if data.len() % 4 != 0 {
                return Result::Err(ParserError::UnevenArrayData);
            }
            let mut out: Vec<Value> = Vec::new();
            let mut i: usize = 0;
            let n = data.len() / 4;
            #[verifier::loop_isolation(false)]
            while i < n
                invariant
                    i <= n,
                    out@.len() == i,
                    forall|j: int|
                        0 <= j < i ==> out@[j] == Value::U32(
                            crate::formats::le32(
                                data@[4 * j],
                                data@[4 * j + 1],
                                data@[4 * j + 2],
                                data@[4 * j + 3],
                            ) as i32,
                        ),
                decreases n - i,
            {
                let w = crate::formats::join32(
                    data[4 * i],
                    data[4 * i + 1],
                    data[4 * i + 2],
                    data[4 * i + 3],
                );
                out.push(Value::U32(#[verifier::truncate] (w as i32)));
                i = i + 1;
            }
            out
        } else {
            return Result::Err(ParserError::BadArrayWidth);
        };
        let ghost vv = seq_view(values@);
        proof {
            crate::runtime::lemma_seq_view(values@);
            assert(vv =~= Self::fill_values(el_width as int, data@));
        }
        self.push_instruction(Instruction::FillArrayData(arr_v, values));
        Result::Ok(())
    }
}

} // verus!
