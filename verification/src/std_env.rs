//! The standard environment: the native functions registered under the same
//! flat namespace as interpreted ones, standing in for the host class
//! library.

use vstd::prelude::*;

use std::rc::Rc;

use crate::callstack::CallStack;
use crate::errors::{ErrorV, RuntimeError};
use crate::function::{Function, FunctionV, NativeFunction};
use crate::interp::result_wf;
use crate::module::Module;
use crate::runtime::{string_from_instance, InvokeResult, Value};
use crate::text;

verus! {

/// What each native returns and does to the module's globals.
pub open spec fn native_result(
    nf: NativeFunction,
    r: InvokeResult,
    params: Seq<Value>,
    cs: Rc<CallStack>,
    g0: crate::machine::GlobalsV,
    g1: crate::machine::GlobalsV,
) -> bool {
    match nf {
        NativeFunction::ObjectInit => (r matches InvokeResult::Okay(v) && v@
            == crate::runtime::ValueV::Void) && g1 == g0,
        NativeFunction::PrintStreamPrintln => (r matches InvokeResult::Okay(v) && v@
            == crate::runtime::ValueV::Void) && g1 == g0,
        NativeFunction::StringBuilderInit => crate::string_builder::init_post(r, params, cs, g0, g1),
        NativeFunction::StringBuilderAppend => crate::string_builder::append_post(r, params, cs)
            && g1 == g0,
        NativeFunction::StringBuilderToString => (r matches InvokeResult::RuntimeError(res)
            && res.error@ == ErrorV::Unimplemented("Java.lang.stringbuilder.to_string"@)
            && res.stack == cs) && g1 == g0,
    }
}

/// The globals a fresh module holds once the standard environment is
/// registered: the `System.out` static alone, and an empty instance store.
pub open spec fn std_globals() -> crate::machine::GlobalsV {
    crate::machine::GlobalsV {
        statics: Map::<Seq<char>, crate::runtime::ValueV>::empty().insert(
            "CLASS_java__lang__System__out"@,
            crate::runtime::ValueV::Void,
        ),
        store: Seq::empty(),
    }
}

/// The function table of the standard environment alone.
pub open spec fn std_functions() -> Map<Seq<char>, FunctionV> {
    Map::<Seq<char>, FunctionV>::empty().insert(
        "CLASS_java__lang__Object____init__"@,
        FunctionV::Native(NativeFunction::ObjectInit),
    ).insert(
        "CLASS_java__io__PrintStream__println"@,
        FunctionV::Native(NativeFunction::PrintStreamPrintln),
    ).insert(
        "CLASS_java__lang__StringBuilder____init__"@,
        FunctionV::Native(NativeFunction::StringBuilderInit),
    ).insert(
        "CLASS_java__lang__StringBuilder__append"@,
        FunctionV::Native(NativeFunction::StringBuilderAppend),
    ).insert(
        "CLASS_java__lang__StringBuilder__toString"@,
        FunctionV::Native(NativeFunction::StringBuilderToString),
    )
}

/// Run one native function. Natives never throw catchable exceptions; object
/// construction returns `Void`, `println` prints its second argument and
/// returns `Void`, and the string-builder stubs return `Unimplemented`
/// runtime errors, as the environment documents.
pub fn run_native(
    nf: NativeFunction,
    params: Vec<Value>,
    cs: Rc<CallStack>,
    env: &mut Module,
) -> (r: InvokeResult)
    requires
        old(env).wf(),
    ensures
        final(env).wf(),
        final(env).functions_view() == old(env).functions_view(),
        final(env).spec_name() == old(env).spec_name(),
        result_wf(r),
        !(r is Exception),
        native_result(nf, r, params@, cs, old(env).globals(), final(env).globals()),
{
    match nf {
        NativeFunction::ObjectInit => java_lang_object_init(params, cs, env),
        NativeFunction::PrintStreamPrintln => java_io_print_stream_println(params, cs, env),
        NativeFunction::StringBuilderInit => crate::string_builder::java_lang_string_builder_init_(
            params,
            cs,
            env,
        ),
        NativeFunction::StringBuilderAppend => {
            crate::string_builder::java_lang_string_builder_append(params, cs, env)
        },
        NativeFunction::StringBuilderToString => {
            crate::string_builder::java_lang_string_builder_to_string(params, cs, env)
        },
    }
}

/// The default constructor: does nothing and returns `Void`.
fn java_lang_object_init(_params: Vec<Value>, _cs: Rc<CallStack>, _env: &Module) -> (r:
    InvokeResult)
    ensures
        r matches InvokeResult::Okay(v) && v@ == crate::runtime::ValueV::Void,
{
    InvokeResult::Okay(Value::Void)
}

/// Print the second argument on the host output: numbers in decimal, string
/// instances as their characters, other instances by type name, and other
/// values by tag. Always returns `Void`.
fn java_io_print_stream_println(params: Vec<Value>, _cs: Rc<CallStack>, env: &Module) -> (r:
    InvokeResult)
    requires
        env.wf(),
    ensures
        r matches InvokeResult::Okay(v) && v@ == crate::runtime::ValueV::Void,
{
    if params.len() == 2 {
        match &params[1] {
            Value::U32(v) => {
                let line = text::format_i32(*v);
                text::emit_line(line.as_str());
            },
            Value::Instance(id) => {
                if *id < env.store_len() {
                    let inst = env.store_read(*id);
                    if text::str_eq(inst.get_class_type().as_str(), "java_lang_string") {
                        match string_from_instance(inst) {
                            Option::Some(s) => text::emit_line(s.as_str()),
                            Option::None => text::emit_line(inst.get_class_type().as_str()),
                        }
                    } else {
                        text::emit_line(inst.get_class_type().as_str());
                    }
                } else {
                    text::emit_line("Instance");
                }
            },
            other => {
                let line = other.kind_name_str();
                text::emit_line(line.as_str());
            },
        }
    }
    InvokeResult::Okay(Value::Void)
}

/// Register the standard environment in the module: the `System.out` static,
/// the default object constructor, `println`, and the string-builder stubs.
pub fn add_all(m: &mut Module)
    requires
        old(m).wf(),
    ensures
        final(m).wf(),
        final(m).spec_name() == old(m).spec_name(),
        final(m).globals() == (crate::machine::GlobalsV {
            statics: old(m).globals().statics.insert(
                "CLASS_java__lang__System__out"@,
                crate::runtime::ValueV::Void,
            ),
            ..old(m).globals()
        }),
        final(m).functions_view() == old(m).functions_view().insert(
            "CLASS_java__lang__Object____init__"@,
            FunctionV::Native(NativeFunction::ObjectInit),
        ).insert(
            "CLASS_java__io__PrintStream__println"@,
            FunctionV::Native(NativeFunction::PrintStreamPrintln),
        ).insert(
            "CLASS_java__lang__StringBuilder____init__"@,
            FunctionV::Native(NativeFunction::StringBuilderInit),
        ).insert(
            "CLASS_java__lang__StringBuilder__append"@,
            FunctionV::Native(NativeFunction::StringBuilderAppend),
        ).insert(
            "CLASS_java__lang__StringBuilder__toString"@,
            FunctionV::Native(NativeFunction::StringBuilderToString),
        ),
{
    m.add_static("CLASS_java__lang__System__out".to_owned());
    m.add_function(
        "CLASS_java__lang__Object____init__".to_owned(),
        Function::Native(NativeFunction::ObjectInit),
    );
    m.add_function(
        "CLASS_java__io__PrintStream__println".to_owned(),
        Function::Native(NativeFunction::PrintStreamPrintln),
    );
    crate::string_builder::add_functions(m);
}

} // verus!
