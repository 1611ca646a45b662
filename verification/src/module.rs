//! The module: the function table, the static-variable table and the
//! instance store, with the public entry points for running functions.

use vstd::prelude::*;

use std::rc::Rc;

use crate::callstack::CallStack;
use crate::function::{Function, FunctionV};
use crate::machine::GlobalsV;
use crate::runtime::{lifted, Instance, InstanceStore, InvokeResult, Value};
use crate::table::Table;
use crate::text;

verus! {

/// A module: named functions (interpreted and native), static variables,
/// and the store the instances of all runs live in.
#[derive(Debug)]
pub struct Module {
    pub(crate) name: String,
    pub(crate) statics: Table<Value>,
    pub(crate) functions: Table<Function>,
    pub(crate) store: InstanceStore,
}

impl Module {
    /// The module's well-formedness: its tables are well-formed, and so is
    /// every function it holds. Established by `new` and kept by every
    /// method.
    pub closed spec fn wf(self) -> bool {
        self.statics.wf() && self.functions.wf() && self.store.wf() && forall|k: Seq<char>|
            self.functions@.dom().contains(k) ==> (#[trigger] self.functions@[k]).wf()
    }

    /// The state the interpreter machine sees: statics and instance store.
    pub closed spec fn globals(self) -> GlobalsV {
        GlobalsV { statics: lifted(self.statics@), store: self.store@ }
    }

    /// The functions the module holds, by view.
    pub closed spec fn functions_view(self) -> Map<Seq<char>, FunctionV> {
        Map::new(
            |k: Seq<char>| self.functions@.dom().contains(k),
            |k: Seq<char>| self.functions@[k]@,
        )
    }

    /// The module's name.
    pub closed spec fn spec_name(self) -> Seq<char> {
        self.name@
    }

    /// The static table's entries, in insertion order.
    pub closed spec fn statics_entries(self) -> Seq<(String, Value)> {
        self.statics.entry_seq()
    }

    /// The function table's entries, in insertion order.
    pub closed spec fn functions_entries(self) -> Seq<(String, Function)> {
        self.functions.entry_seq()
    }

    pub fn new(name: String) -> (r: Self)
        ensures
            r.wf(),
            r.spec_name() == name@,
            r.globals() == (GlobalsV {
                statics: Map::<Seq<char>, crate::runtime::ValueV>::empty(),
                store: Seq::<crate::runtime::InstanceV>::empty(),
            }),
            r.functions_view() == Map::<Seq<char>, FunctionV>::empty(),
    {
        let r = Module {
            name,
            statics: Table::new(),
            functions: Table::new(),
            store: InstanceStore::new(),
        };
        proof {
            assert(lifted(r.statics@) =~= Map::<Seq<char>, crate::runtime::ValueV>::empty());
            assert(r.globals() =~= (GlobalsV {
                statics: Map::<Seq<char>, crate::runtime::ValueV>::empty(),
                store: Seq::<crate::runtime::InstanceV>::empty(),
            }));
            assert(r.functions_view() =~= Map::<Seq<char>, FunctionV>::empty());
        }
        r
    }

    /// Get a static variable from the module.
    pub fn get_static(&self, static_name: &str) -> (r: Option<Value>)
        requires
            self.wf(),
        ensures
            match r {
                Option::Some(v) => self.globals().statics.dom().contains(static_name@) && v@
                    == self.globals().statics[static_name@],
                Option::None => !self.globals().statics.dom().contains(static_name@),
            },
    {
        match self.statics.get(static_name) {
            Option::None => Option::None,
            Option::Some(v) => Option::Some(v.clone()),
        }
    }

    /// Set a static variable in the module.
    pub fn set_static(&mut self, static_name: String, new_value: Value)
        requires
            old(self).wf(),
        ensures
            final(self).wf(),
            final(self).globals() == (GlobalsV {
                statics: old(self).globals().statics.insert(static_name@, new_value@),
                ..old(self).globals()
            }),
            final(self).functions_view() == old(self).functions_view(),
            final(self).spec_name() == old(self).spec_name(),
    {
        let ghost k = static_name@;
        let ghost v = new_value@;
        self.statics.insert(static_name, new_value);
        proof {
            assert(lifted(self.statics@) =~= old(self).globals().statics.insert(k, v));
            assert(self.globals() =~= (GlobalsV {
                statics: old(self).globals().statics.insert(k, v),
                ..old(self).globals()
            }));
            assert(self.functions_view() =~= old(self).functions_view());
        }
    }

    /// Borrow the function registered under `name`.
    pub fn get_function(&self, name: &str) -> (r: Option<&Function>)
        requires
            self.wf(),
        ensures
            match r {
                Option::Some(f) => self.functions_view().dom().contains(name@) && f@
                    == self.functions_view()[name@] && f.wf(),
                Option::None => !self.functions_view().dom().contains(name@),
            },
    {
        self.functions.get(name)
    }

    /// Borrow the instance under `id` in the store.
    pub fn store_read(&self, id: usize) -> (r: &Instance)
        requires
            self.wf(),
            id < self.globals().store.len(),
        ensures
            r@ == self.globals().store[id as int],
            r.wf(),
    {
        self.store.read(id)
    }

    /// How many instances the store holds.
    pub fn store_len(&self) -> (n: usize)
        ensures
            n == self.globals().store.len(),
    {
        self.store.len()
    }

    /// Put a fresh instance in the store and hand back its id.
    pub fn store_alloc(&mut self, inst: Instance) -> (id: usize)
        requires
            old(self).wf(),
            inst.wf(),
        ensures
            final(self).wf(),
            final(self).globals() == (GlobalsV {
                store: old(self).globals().store.push(inst@),
                ..old(self).globals()
            }),
            id == old(self).globals().store.len(),
            final(self).functions_view() == old(self).functions_view(),
            final(self).spec_name() == old(self).spec_name(),
    {
        let id = self.store.allocate(inst);
        proof {
            assert(self.globals() =~= (GlobalsV {
                store: old(self).globals().store.push(inst@),
                ..old(self).globals()
            }));
            assert(self.functions_view() =~= old(self).functions_view());
        }
        id
    }

    /// Overwrite the instance under `id`.
    pub fn store_replace(&mut self, id: usize, inst: Instance)
        requires
            old(self).wf(),
            inst.wf(),
            id < old(self).globals().store.len(),
        ensures
            final(self).wf(),
            final(self).globals() == (GlobalsV {
                store: old(self).globals().store.update(id as int, inst@),
                ..old(self).globals()
            }),
            final(self).functions_view() == old(self).functions_view(),
            final(self).spec_name() == old(self).spec_name(),
    {
        self.store.replace(id, inst);
        proof {
            assert(self.globals() =~= (GlobalsV {
                store: old(self).globals().store.update(id as int, inst@),
                ..old(self).globals()
            }));
            assert(self.functions_view() =~= old(self).functions_view());
        }
    }

    /// Convert a literal into a value, allocating the instance a string
    /// literal becomes.
    pub fn convert_literal(&mut self, lit: &crate::instructions::LiteralValue) -> (v: Value)
        requires
            old(self).wf(),
            !(lit is Class),
        ensures
            final(self).wf(),
            v@ == crate::runtime::of_literal(lit@, old(self).globals().store.len() as int),
            final(self).globals() == (GlobalsV {
                store: match *lit {
                    crate::instructions::LiteralValue::String(s) => old(
                        self,
                    ).globals().store.push(crate::runtime::string_instance(s@)),
                    _ => old(self).globals().store,
                },
                ..old(self).globals()
            }),
            final(self).functions_view() == old(self).functions_view(),
            final(self).spec_name() == old(self).spec_name(),
    {
        let v = crate::runtime::literal_to_value(lit, &mut self.store);
        proof {
            assert(self.globals() =~= (GlobalsV {
                store: match *lit {
                    crate::instructions::LiteralValue::String(s) => old(
                        self,
                    ).globals().store.push(crate::runtime::string_instance(s@)),
                    _ => old(self).globals().store,
                },
                ..old(self).globals()
            }));
            assert(self.functions_view() =~= old(self).functions_view());
        }
        v
    }

    /// Run a function from outside of the module: the call stack starts at
    /// the root frame with the function's name on top.
    pub fn run(&mut self, fn_name: &str, params: Vec<Value>) -> (r: InvokeResult)
        requires
            old(self).wf(),
        ensures
            final(self).wf(),
            final(self).functions_view() == old(self).functions_view(),
            final(self).spec_name() == old(self).spec_name(),
            crate::interp::result_wf(r),
            !old(self).functions_view().dom().contains(fn_name@) ==> (
            r matches InvokeResult::RuntimeError(res) && res.error@
                == crate::errors::ErrorV::InvokeOnNonExistingFunction(fn_name@)
                && res.stack.names() == seq![fn_name@, "root"@]) && final(self).globals() == old(
                self,
            ).globals(),
            old(self).functions_view().dom().contains(fn_name@) ==> match old(
                self,
            ).functions_view()[fn_name@] {
                FunctionV::Native(_) => true,
                FunctionV::Interpreted(fv) => ({
                    &&& params@.len() != fv.n_params ==> (r matches InvokeResult::RuntimeError(res)
                        && res.error@ == crate::errors::ErrorV::WrongNumberOfParameters(
                        fv.n_params as int,
                        params@.len() as int,
                    ) && res.stack.names() == seq![fn_name@, "root"@]) && final(self).globals()
                        == old(self).globals()
                    &&& (params@.len() == fv.n_params && fv.n_params <= fv.n_regs) ==> forall|n: nat|
                    n <= 0xffff_ffff_ffff_ffff && (#[trigger] crate::machine::machine_run(
                        fv,
                        crate::machine::initial_frame(fv, crate::runtime::seq_view(params@)),
                        old(self).globals(),
                        n,
                    )) is Done ==> crate::interp::result_matches_at(
                        r,
                        crate::machine::machine_run(
                            fv,
                            crate::machine::initial_frame(fv, crate::runtime::seq_view(params@)),
                            old(self).globals(),
                            n,
                        )->Done_0,
                        seq![fn_name@, "root"@],
                    ) && final(self).globals() == crate::machine::machine_run(
                        fv,
                        crate::machine::initial_frame(fv, crate::runtime::seq_view(params@)),
                        old(self).globals(),
                        n,
                    )->Done_1
                }),
            },
    {
        let call_stack = CallStack::root();
        let cs = Rc::new(CallStack::extend(fn_name.to_owned(), Rc::new(call_stack)));
        proof {
            assert(cs.names() =~= seq![fn_name@, "root"@]);
        }
        self.invoke(fn_name, cs, params)
    }

    /// Run the named function: the internal entry point invocations go
    /// through.
    pub(crate) fn invoke(&mut self, fn_name: &str, cs: Rc<CallStack>, params: Vec<Value>) -> (r:
        InvokeResult)
        requires
            old(self).wf(),
        ensures
            final(self).wf(),
            final(self).functions_view() == old(self).functions_view(),
            final(self).spec_name() == old(self).spec_name(),
            crate::interp::result_wf(r),
            !old(self).functions_view().dom().contains(fn_name@) ==> (
            r matches InvokeResult::RuntimeError(res) && res.error@
                == crate::errors::ErrorV::InvokeOnNonExistingFunction(fn_name@) && res.stack == cs)
                && final(self).globals() == old(self).globals(),
            old(self).functions_view().dom().contains(fn_name@) ==> match old(
                self,
            ).functions_view()[fn_name@] {
                FunctionV::Native(nf) => crate::std_env::native_result(
                    nf,
                    r,
                    params@,
                    cs,
                    old(self).globals(),
                    final(self).globals(),
                ),
                FunctionV::Interpreted(fv) => ({
                    &&& params@.len() != fv.n_params ==> (r matches InvokeResult::RuntimeError(res)
                        && res.error@ == crate::errors::ErrorV::WrongNumberOfParameters(
                        fv.n_params as int,
                        params@.len() as int,
                    ) && res.stack == cs) && final(self).globals() == old(self).globals()
                    &&& (params@.len() == fv.n_params && fv.n_params <= fv.n_regs) ==> forall|n: nat|
                    n <= 0xffff_ffff_ffff_ffff && (#[trigger] crate::machine::machine_run(
                        fv,
                        crate::machine::initial_frame(fv, crate::runtime::seq_view(params@)),
                        old(self).globals(),
                        n,
                    )) is Done ==> crate::interp::result_matches(
                        r,
                        crate::machine::machine_run(
                            fv,
                            crate::machine::initial_frame(fv, crate::runtime::seq_view(params@)),
                            old(self).globals(),
                            n,
                        )->Done_0,
                        cs,
                    ) && final(self).globals() == crate::machine::machine_run(
                        fv,
                        crate::machine::initial_frame(fv, crate::runtime::seq_view(params@)),
                        old(self).globals(),
                        n,
                    )->Done_1
                }),
            },
    {
        let fn_ = match self.get_function(fn_name) {
            Option::None => {
                return InvokeResult::runtime(
                    crate::errors::RuntimeError::InvokeOnNonExistingFunction(fn_name.to_owned()),
                    cs,
                );
            },
            Option::Some(a) => a.clone(),
        };
        match fn_ {
            Function::Interpreted(f) => f.run_interpreted(params, cs, self),
            Function::Native(nf) => crate::std_env::run_native(nf, params, cs, self),
        }
    }

    /// Add a function to the module.
    pub fn add_function(&mut self, name: String, fn_: Function)
        requires
            old(self).wf(),
            fn_.wf(),
        ensures
            final(self).wf(),
            final(self).functions_view() == old(self).functions_view().insert(name@, fn_@),
            final(self).globals() == old(self).globals(),
            final(self).spec_name() == old(self).spec_name(),
    {
        let ghost k = name@;
        let ghost fv = fn_@;
        let ghost fwf = fn_.wf();
        self.functions.insert(name, fn_);
        proof {
            assert(self.functions_view() =~= old(self).functions_view().insert(k, fv));
            assert(self.globals() =~= old(self).globals());
        }
    }

    /// Add a *global* static variable, initialised to `Void`.
    pub fn add_static(&mut self, name: String)
        requires
            old(self).wf(),
        ensures
            final(self).wf(),
            final(self).globals() == (GlobalsV {
                statics: old(self).globals().statics.insert(name@, crate::runtime::ValueV::Void),
                ..old(self).globals()
            }),
            final(self).functions_view() == old(self).functions_view(),
            final(self).spec_name() == old(self).spec_name(),
    {
        self.set_static(name, Value::Void);
    }
}

/// The static lines of the module dump, one per static variable.
pub open spec fn statics_ir(s: Seq<(String, Value)>) -> Seq<char>
    decreases s.len(),
{
    if s.len() == 0 {
        Seq::empty()
    } else {
        statics_ir(s.drop_last()) + "static "@ + text::quoted(s.last().0@) + ";\n"@
    }
}

/// The function dumps of the module, in registration order.
pub open spec fn functions_ir(s: Seq<(String, Function)>) -> Seq<char>
    decreases s.len(),
{
    if s.len() == 0 {
        Seq::empty()
    } else {
        functions_ir(s.drop_last()) + crate::function::function_ir(s.last().0@, s.last().1@)
            + "\n\n"@
    }
}

impl Module {
    /// Convert the whole module to a readable format: its name, its statics,
    /// and each function's dump.
    pub fn build_ir(&mut self) -> (out: String)
        ensures
            *final(self) == *old(self),
            out@ == "ModuleId = "@ + text::quoted(old(self).spec_name()) + ";\n\n"@ + statics_ir(
                old(self).statics_entries(),
            ) + "\n"@ + functions_ir(old(self).functions_entries()),
    {
        let mut out = String::new();
        out.append("ModuleId = ");
        let q = text::quote(self.name.as_str());
        out.append(q.as_str());
        out.append(";\n\n");
        let ghost head = out@;
        proof {
            assert(head =~= "ModuleId = "@ + text::quoted(self.spec_name()) + ";\n\n"@);
        }
        let sn = self.statics.len();
        let mut i: usize = 0;
        #[verifier::loop_isolation(false)]
        while i < sn
            invariant
                i <= sn,
                sn == self.statics.entry_seq().len(),
                out@ == head + statics_ir(self.statics.entry_seq().take(i as int)),
            decreases sn - i,
        {
            proof {
                assert(self.statics.entry_seq().take(i + 1).drop_last()
                    =~= self.statics.entry_seq().take(i as int));
            }
            out.append("static ");
            let e = self.statics.index(i);
            let q = text::quote(e.0.as_str());
            out.append(q.as_str());
            out.append(";\n");
            i = i + 1;
            proof {
                assert(out@ =~= head + statics_ir(self.statics.entry_seq().take(i as int)));
            }
        }
        out.append("\n");
        proof {
            assert(self.statics.entry_seq().take(sn as int) =~= self.statics.entry_seq());
        }
        let ghost mid = out@;
        proof {
            assert(mid =~= head + statics_ir(self.statics.entry_seq()) + "\n"@);
        }
        let fname_count = self.functions.len();
        let mut i: usize = 0;
        #[verifier::loop_isolation(false)]
        while i < fname_count
            invariant
                i <= fname_count,
                fname_count == self.functions.entry_seq().len(),
                out@ == mid + functions_ir(self.functions.entry_seq().take(i as int)),
            decreases fname_count - i,
        {
            proof {
                assert(self.functions.entry_seq().take(i + 1).drop_last()
                    =~= self.functions.entry_seq().take(i as int));
            }
            let e = self.functions.index(i);
            let fir = e.1.build_ir(e.0.as_str());
            out.append(fir.as_str());
            out.append("\n\n");
            i = i + 1;
            proof {
                assert(out@ =~= mid + functions_ir(self.functions.entry_seq().take(i as int)));
            }
        }
        proof {
            assert(self.functions.entry_seq().take(fname_count as int)
                =~= self.functions.entry_seq());
            assert(out@ =~= "ModuleId = "@ + text::quoted(old(self).spec_name()) + ";\n\n"@
                + statics_ir(old(self).statics_entries()) + "\n"@ + functions_ir(
                old(self).functions_entries(),
            ));
        }
        out
    }
}

} // verus!
