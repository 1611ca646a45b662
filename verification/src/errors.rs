//! The non-catchable error channel: `RuntimeError` names what went wrong,
//! `RuntimeErrorStack` pairs it with the call stack at the point of failure.

use vstd::prelude::*;

use std::rc::Rc;

use crate::callstack::CallStack;
use crate::text;

verus! {

/// The mathematical content of a [`RuntimeError`]: names become character
/// sequences.
#[verifier::ext_equal]
pub enum ErrorV {
    InvokeOnNonExistingFunction(Seq<char>),
    RegisterOutOfBounds,
    WrongNumberOfParameters(int, int),
    BadJumpTarget,
    CastError(Seq<char>),
    Unimplemented(Seq<char>),
}

#[derive(Debug, PartialEq, Eq)]
pub enum RuntimeError {
    InvokeOnNonExistingFunction(String),
    /// Tried to access a register outside of the function's scope
    RegisterOutOfBounds,
    /// Wrong number of parameters were passed to some function
    /// (n_expected, n_got)
    WrongNumberOfParameters(usize, usize),
    /// Tried to jump to an unknown label
    BadJumpTarget,
    CastError(String),
    Unimplemented(String),
}

impl View for RuntimeError {
    type V = ErrorV;

    open spec fn view(&self) -> ErrorV {
        match *self {
            RuntimeError::InvokeOnNonExistingFunction(n) => {
                ErrorV::InvokeOnNonExistingFunction(n@)
            },
            RuntimeError::RegisterOutOfBounds => ErrorV::RegisterOutOfBounds,
            RuntimeError::WrongNumberOfParameters(e, g) => {
                ErrorV::WrongNumberOfParameters(e as int, g as int)
            },
            RuntimeError::BadJumpTarget => ErrorV::BadJumpTarget,
            RuntimeError::CastError(d) => ErrorV::CastError(d@),
            RuntimeError::Unimplemented(d) => ErrorV::Unimplemented(d@),
        }
    }
}

impl Clone for RuntimeError {
    fn clone(&self) -> (res: Self)
        ensures
            res == *self,
    {
        match self {
            RuntimeError::InvokeOnNonExistingFunction(n) => {
                RuntimeError::InvokeOnNonExistingFunction(n.clone())
            },
            RuntimeError::RegisterOutOfBounds => RuntimeError::RegisterOutOfBounds,
            RuntimeError::WrongNumberOfParameters(e, g) => {
                RuntimeError::WrongNumberOfParameters(*e, *g)
            },
            RuntimeError::BadJumpTarget => RuntimeError::BadJumpTarget,
            RuntimeError::CastError(d) => RuntimeError::CastError(d.clone()),
            RuntimeError::Unimplemented(d) => RuntimeError::Unimplemented(d.clone()),
        }
    }
}

impl RuntimeError {
    /// One line naming the error, as the report prints it.
    pub open spec fn described(self) -> Seq<char> {
        match self {
            RuntimeError::InvokeOnNonExistingFunction(n) => {
                "InvokeOnNonExistingFunction("@ + text::quoted(n@) + ")"@
            },
            RuntimeError::RegisterOutOfBounds => "RegisterOutOfBounds"@,
            RuntimeError::WrongNumberOfParameters(e, g) => {
                "WrongNumberOfParameters("@ + text::decimal(e as int) + ", "@ + text::decimal(
                    g as int,
                ) + ")"@
            },
            RuntimeError::BadJumpTarget => "BadJumpTarget"@,
            RuntimeError::CastError(d) => "CastError("@ + text::quoted(d@) + ")"@,
            RuntimeError::Unimplemented(d) => "Unimplemented("@ + text::quoted(d@) + ")"@,
        }
    }

    /// Render the error for user-facing reporting.
    pub fn describe(&self) -> (out: String)
        ensures
            out@ == self.described(),
    {
        match self {
            RuntimeError::InvokeOnNonExistingFunction(n) => {
                let mut out = String::new();
                out.append("InvokeOnNonExistingFunction(");
                let q = text::quote(n.as_str());
                out.append(q.as_str());
                out.append(")");
                proof {
                    assert(out@ =~= self.described());
                }
                out
            },
            RuntimeError::RegisterOutOfBounds => "RegisterOutOfBounds".to_owned(),
            RuntimeError::WrongNumberOfParameters(e, g) => {
                let mut out = String::new();
                out.append("WrongNumberOfParameters(");
                let es = text::format_usize(*e);
                out.append(es.as_str());
                out.append(", ");
                let gs = text::format_usize(*g);
                out.append(gs.as_str());
                out.append(")");
                proof {
                    assert(out@ =~= self.described());
                }
                out
            },
            RuntimeError::BadJumpTarget => "BadJumpTarget".to_owned(),
            RuntimeError::CastError(d) => {
                let mut out = String::new();
                out.append("CastError(");
                let q = text::quote(d.as_str());
                out.append(q.as_str());
                out.append(")");
                proof {
                    assert(out@ =~= self.described());
                }
                out
            },
            RuntimeError::Unimplemented(d) => {
                let mut out = String::new();
                out.append("Unimplemented(");
                let q = text::quote(d.as_str());
                out.append(q.as_str());
                out.append(")");
                proof {
                    assert(out@ =~= self.described());
                }
                out
            },
        }
    }
}

/// A runtime error together with the call stack where it arose.
#[derive(Debug)]
pub struct RuntimeErrorStack {
    pub stack: Rc<CallStack>,
    pub error: RuntimeError,
}

impl RuntimeErrorStack {
    pub fn new(error: RuntimeError, stack: Rc<CallStack>) -> (r: Self)
        ensures
            r.error == error,
            r.stack == stack,
    {
        RuntimeErrorStack { error, stack }
    }

    /// The full report: the error line, then the backtrace.
    pub fn finalize(&self) -> (out: String)
        ensures
            out@ == "Error: "@ + self.error.described() + "\n"@ + CallStack::render(
                self.stack.names(),
            ),
    {
        let mut out = String::new();
        out.append("Error: ");
        let e = self.error.describe();
        out.append(e.as_str());
        out.append("\n");
        let s = self.stack.finalize();
        out.append(s.as_str());
        proof {
            assert(out@ =~= "Error: "@ + self.error.described() + "\n"@ + CallStack::render(
                self.stack.names(),
            ));
        }
        out
    }
}

} // verus!
