//! Functions of a module: interpreted functions (instructions plus handler
//! tables) and the native functions of the standard environment.

use vstd::prelude::*;

use crate::instructions::{Instruction, InstructionV};
use crate::table::Table;
use crate::text;

verus! {

/// A handler table: exception type name to target label.
pub type HandlerTable = Table<usize>;

/// The names of the native functions the standard environment provides.
/// What each one returns and does to the module's globals is pinned, case by
/// case, by `native_result`.
#[derive(Clone, Copy, Debug, PartialEq, Eq)]
pub enum NativeFunction {
    ObjectInit,
    PrintStreamPrintln,
    StringBuilderInit,
    StringBuilderAppend,
    StringBuilderToString,
}

/// The mathematical content of an [`InterpretedFunction`].
#[verifier::ext_equal]
pub struct FnV {
    pub n_regs: usize,
    pub n_params: usize,
    pub return_: bool,
    pub body: Seq<(InstructionV, Option<usize>)>,
    pub handlers: Seq<Map<Seq<char>, usize>>,
}

/// An interpreted function: register and parameter counts, whether it
/// returns a value, the instruction list (each instruction paired with the
/// handler-table index in effect at that point), and the handler tables.
#[derive(Debug)]
pub struct InterpretedFunction {
    n_regs: usize,
    n_params: usize,
    return_: bool,
    instructions: Vec<(Instruction, Option<usize>)>,
    handlers: Vec<HandlerTable>,
}

/// The view of one stored instruction.
pub open spec fn entry_view(e: (Instruction, Option<usize>)) -> (InstructionV, Option<usize>) {
    (e.0@, e.1)
}

/// The view of a handler table.
pub open spec fn handlers_view(hs: Seq<HandlerTable>) -> Seq<Map<Seq<char>, usize>> {
    Seq::new(hs.len(), |i: int| hs[i]@)
}

/// The views of a stored instruction list.
pub open spec fn body_view(s: Seq<(Instruction, Option<usize>)>) -> Seq<
    (InstructionV, Option<usize>),
> {
    Seq::new(s.len(), |i: int| entry_view(s[i]))
}

impl View for InterpretedFunction {
    type V = FnV;

    closed spec fn view(&self) -> FnV {
        FnV {
            n_regs: self.n_regs,
            n_params: self.n_params,
            return_: self.return_,
            body: body_view(self.instructions@),
            handlers: handlers_view(self.handlers@),
        }
    }
}

impl Clone for InterpretedFunction {
    fn clone(&self) -> (res: Self)
        ensures
            res@ == self@,
            res.wf() == self.wf(),
    {
        let mut instructions: Vec<(Instruction, Option<usize>)> = Vec::new();
        let mut i: usize = 0;
        let n = self.instructions.len();
        while i < n
            invariant
                n == self.instructions@.len(),
                i <= n,
                instructions@.len() == i,
                forall|j: int|
                    0 <= j < i ==> #[trigger] entry_view(instructions@[j]) == entry_view(
                        self.instructions@[j],
                    ),
            decreases n - i,
        {
            let e = &self.instructions[i];
            instructions.push((e.0.clone(), e.1));
            i = i + 1;
        }
        let mut handlers: Vec<HandlerTable> = Vec::new();
        let mut i: usize = 0;
        let m = self.handlers.len();
        while i < m
            invariant
                m == self.handlers@.len(),
                i <= m,
                handlers@.len() == i,
                forall|j: int| #![trigger handlers@[j]@] 0 <= j < i ==> handlers@[j]@
                    == self.handlers@[j]@,
                forall|j: int| #![trigger handlers@[j].wf()] 0 <= j < i ==> handlers@[j].wf()
                    == self.handlers@[j].wf(),
            decreases m - i,
        {
            let h = self.handlers[i].duplicate_copied();
            handlers.push(h);
            i = i + 1;
        }
        let res = InterpretedFunction {
            n_regs: self.n_regs,
            n_params: self.n_params,
            return_: self.return_,
            instructions,
            handlers,
        };
        proof {
            assert(body_view(res.instructions@) =~= body_view(self.instructions@));
            assert(handlers_view(res.handlers@) =~= handlers_view(self.handlers@));
            assert(res@ =~= self@);
            if res.wf() {
                assert forall|j: int| 0 <= j < self.handlers@.len() implies (
                #[trigger] self.handlers@[j]).wf() by {
                    assert(res.handlers@[j].wf());
                }
            }
            if self.wf() {
                assert forall|j: int| 0 <= j < res.handlers@.len() implies (
                #[trigger] res.handlers@[j]).wf() by {
                    assert(self.handlers@[j].wf());
                }
            }
        }
        res
    }
}

impl InterpretedFunction {
    /// All handler tables are well-formed.
    pub closed spec fn wf(self) -> bool {
        forall|i: int| 0 <= i < self.handlers@.len() ==> (#[trigger] self.handlers@[i]).wf()
    }

    pub fn new(
        n_regs: usize,
        n_params: usize,
        return_: bool,
        instructions: Vec<(Instruction, Option<usize>)>,
        handlers: Vec<HandlerTable>,
    ) -> (r: Self)
        requires
            forall|i: int| 0 <= i < handlers@.len() ==> (#[trigger] handlers@[i]).wf(),
        ensures
            r.wf(),
            r@ == (FnV {
                n_regs,
                n_params,
                return_,
                body: body_view(instructions@),
                handlers: handlers_view(handlers@),
            }),
    {
        InterpretedFunction { n_regs, n_params, return_, instructions, handlers }
    }

    pub fn n_params(&self) -> (r: usize)
        ensures
            r == self@.n_params,
    {
        self.n_params
    }

    pub fn n_regs(&self) -> (r: usize)
        ensures
            r == self@.n_regs,
    {
        self.n_regs
    }

    pub fn return_(&self) -> (r: bool)
        ensures
            r == self@.return_,
    {
        self.return_
    }

    pub fn instructions(&self) -> (r: &Vec<(Instruction, Option<usize>)>)
        ensures
            body_view(r@) == self@.body,
    {
        &self.instructions
    }

    pub fn handlers(&self) -> (r: &Vec<HandlerTable>)
        ensures
            handlers_view(r@) == self@.handlers,
            self.wf() ==> forall|i: int| 0 <= i < r@.len() ==> (#[trigger] r@[i]).wf(),
    {
        &self.handlers
    }
}

/// A function of the module: interpreted, or one of the standard
/// environment's natives.
#[derive(Debug)]
pub enum Function {
    Native(NativeFunction),
    Interpreted(InterpretedFunction),
}

/// The mathematical content of a [`Function`].
#[verifier::ext_equal]
pub enum FunctionV {
    Native(NativeFunction),
    Interpreted(FnV),
}

impl View for Function {
    type V = FunctionV;

    open spec fn view(&self) -> FunctionV {
        match self {
            Function::Native(nf) => FunctionV::Native(*nf),
            Function::Interpreted(f) => FunctionV::Interpreted(f@),
        }
    }
}

impl Clone for Function {
    fn clone(&self) -> (res: Self)
        ensures
            res@ == self@,
            res.wf() == self.wf(),
    {
        match self {
            Function::Native(nf) => Function::Native(*nf),
            Function::Interpreted(f) => Function::Interpreted(f.clone()),
        }
    }
}

impl Function {
    /// Natives are well-formed as they stand; an interpreted function is
    /// well-formed when its handler tables are.
    pub open spec fn wf(self) -> bool {
        match self {
            Function::Native(_) => true,
            Function::Interpreted(f) => f.wf(),
        }
    }
}

/// The mnemonic a stored instruction is listed under in the readable dump.
pub open spec fn instr_tag(i: InstructionV) -> Seq<char> {
    match i {
        InstructionV::Label(_) => "label"@,
        InstructionV::Nop => "nop"@,
        InstructionV::MoveResult(_, _) => "move-result"@,
        InstructionV::MoveException(_) => "move-exception"@,
        InstructionV::Return(_) => "return"@,
        InstructionV::ConstSet(_, _) => "const"@,
        InstructionV::NewInstance(_, _) => "new-instance"@,
        InstructionV::NewArray(_, _, _) => "new-array"@,
        InstructionV::FillArrayData(_, _) => "fill-array-data"@,
        InstructionV::GoTo(_) => "goto"@,
        InstructionV::If(_, _, _, _) => "if"@,
        InstructionV::ArrayGet(_, _, _, _) => "array-get"@,
        InstructionV::StaticGet(_, _, _) => "static-get"@,
        InstructionV::StaticPut(_, _, _) => "static-put"@,
        InstructionV::InstanceGet(_, _, _, _) => "instance-get"@,
        InstructionV::InstancePut(_, _, _, _) => "instance-put"@,
        InstructionV::Invoke(_, _, _, _) => "invoke"@,
        InstructionV::BinOp2Addr(_, _, _) => "binop"@,
        InstructionV::BinOpLit(_, _, _, _) => "binop-lit"@,
        InstructionV::Unsupported(_) => "unsupported"@,
    }
}

/// The instruction lines of the readable dump, one tab-indented mnemonic per
/// stored instruction.
pub open spec fn body_lines(body: Seq<(InstructionV, Option<usize>)>) -> Seq<char>
    decreases body.len(),
{
    if body.len() == 0 {
        Seq::empty()
    } else {
        body_lines(body.drop_last()) + "\t"@ + instr_tag(body.last().0) + "\n"@
    }
}

/// The readable dump of an interpreted function.
pub open spec fn fn_ir(name: Seq<char>, f: FnV) -> Seq<char> {
    "func "@ + text::quoted(name) + "\n\tRegisters (total): "@ + text::decimal(f.n_regs as int)
        + "\n\t       Parameters: "@ + text::decimal(f.n_params as int)
        + "\n\t Has return value: "@ + (if f.return_ {
        "true"@
    } else {
        "false"@
    }) + "\n\n"@ + body_lines(f.body)
}

/// The readable dump of a module function: interpreted functions list their
/// header and instructions, native ones only their name.
pub open spec fn function_ir(name: Seq<char>, f: FunctionV) -> Seq<char> {
    match f {
        FunctionV::Interpreted(fv) => fn_ir(name, fv),
        FunctionV::Native(_) => "native func "@ + text::quoted(name) + ";"@,
    }
}

fn instr_tag_str(i: &Instruction) -> (out: String)
    ensures
        out@ == instr_tag(i@),
{
    match i {
        Instruction::Label(_) => "label".to_owned(),
        Instruction::Nop => "nop".to_owned(),
        Instruction::MoveResult(_, _) => "move-result".to_owned(),
        Instruction::MoveException(_) => "move-exception".to_owned(),
        Instruction::Return(_) => "return".to_owned(),
        Instruction::ConstSet(_, _) => "const".to_owned(),
        Instruction::NewInstance(_, _) => "new-instance".to_owned(),
        Instruction::NewArray(_, _, _) => "new-array".to_owned(),
        Instruction::FillArrayData(_, _) => "fill-array-data".to_owned(),
        Instruction::GoTo(_) => "goto".to_owned(),
        Instruction::If(_, _, _, _) => "if".to_owned(),
        Instruction::ArrayGet(_, _, _, _) => "array-get".to_owned(),
        Instruction::StaticGet(_, _, _) => "static-get".to_owned(),
        Instruction::StaticPut(_, _, _) => "static-put".to_owned(),
        Instruction::InstanceGet(_, _, _, _) => "instance-get".to_owned(),
        Instruction::InstancePut(_, _, _, _) => "instance-put".to_owned(),
        Instruction::Invoke(_, _, _, _) => "invoke".to_owned(),
        Instruction::BinOp2Addr(_, _, _) => "binop".to_owned(),
        Instruction::BinOpLit(_, _, _, _) => "binop-lit".to_owned(),
        Instruction::Unsupported(_) => "unsupported".to_owned(),
    }
}

impl InterpretedFunction {
    /// Convert this function to a readable format.
    pub fn build_ir(&self, name: &str) -> (out: String)
        ensures
            out@ == fn_ir(name@, self@),
    {
        let mut out = String::new();
        out.append("func ");
        let q = text::quote(name);
        out.append(q.as_str());
        out.append("\n\tRegisters (total): ");
        let r = text::format_usize(self.n_regs());
        out.append(r.as_str());
        out.append("\n\t       Parameters: ");
        let p = text::format_usize(self.n_params());
        out.append(p.as_str());
        out.append("\n\t Has return value: ");
        if self.return_() {
            out.append("true");
        } else {
            out.append("false");
        }
        out.append("\n\n");
        let ghost header = out@;
        proof {
            assert(header =~= "func "@ + text::quoted(name@) + "\n\tRegisters (total): "@
                + text::decimal(self@.n_regs as int) + "\n\t       Parameters: "@ + text::decimal(
                self@.n_params as int,
            ) + "\n\t Has return value: "@ + (if self@.return_ {
                "true"@
            } else {
                "false"@
            }) + "\n\n"@);
        }
        let instructions = self.instructions();
        let n = instructions.len();
        let mut i: usize = 0;
        #[verifier::loop_isolation(false)]
        while i < n
            invariant
                i <= n,
                n == instructions@.len(),
                out@ == header + body_lines(self@.body.take(i as int)),
                self@.body == body_view(instructions@),
            decreases n - i,
        {
            proof {
                assert(self@.body.take(i + 1).drop_last() =~= self@.body.take(i as int));
                assert(self@.body.take(i + 1).last() == entry_view(instructions@[i as int]));
            }
            out.append("\t");
            let tag = instr_tag_str(&instructions[i].0);
            out.append(tag.as_str());
            out.append("\n");
            i = i + 1;
            proof {
                assert(out@ =~= header + body_lines(self@.body.take(i as int)));
            }
        }
        proof {
            assert(self@.body.take(n as int) =~= self@.body);
            assert(out@ == header + body_lines(self@.body));
            assert(fn_ir(name@, self@) == header + body_lines(self@.body));
            assert(out@ == fn_ir(name@, self@));
        }
        out
    }
}

impl Function {
    /// Convert this function to a readable format.
    pub fn build_ir(&self, name: &str) -> (out: String)
        ensures
            out@ == function_ir(name@, self@),
    {
        match self {
            Function::Interpreted(ifn) => ifn.build_ir(name),
            Function::Native(_) => {
                let mut out = String::new();
                out.append("native func ");
                let q = text::quote(name);
                out.append(q.as_str());
                out.append(";");
                proof {
                    assert(out@ =~= function_ir(name@, self@));
                }
                out
            },
        }
    }
}

} // verus!
