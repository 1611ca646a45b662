//! The string-builder natives: `init` prepares an empty character array in
//! the receiver's `value` field; `append` and `toString` are placeholders
//! that produce `Unimplemented` runtime errors.

use vstd::prelude::*;

use std::rc::Rc;

use crate::callstack::CallStack;
use crate::errors::{ErrorV, RuntimeError};
use crate::function::{Function, FunctionV, NativeFunction};
use crate::machine::GlobalsV;
use crate::module::Module;
use crate::runtime::{InstanceV, InvokeResult, Value, ValueV};

verus! {

/// Register the string-builder natives under their flat names.
pub fn add_functions(m: &mut Module)
    requires
        old(m).wf(),
    ensures
        final(m).wf(),
        final(m).spec_name() == old(m).spec_name(),
        final(m).globals() == old(m).globals(),
        final(m).functions_view() == old(m).functions_view().insert(
            "CLASS_java__lang__StringBuilder____init__"@,
            FunctionV::Native(NativeFunction::StringBuilderInit),
        ).insert(
            "CLASS_java__lang__StringBuilder__append"@,
            FunctionV::Native(NativeFunction::StringBuilderAppend),
        ).insert(
            "CLASS_java__lang__StringBuilder__toString"@,
            FunctionV::Native(NativeFunction::StringBuilderToString),
        ),
{
    m.add_function(
        "CLASS_java__lang__StringBuilder____init__".to_owned(),
        Function::Native(NativeFunction::StringBuilderInit),
    );
    m.add_function(
        "CLASS_java__lang__StringBuilder__append".to_owned(),
        Function::Native(NativeFunction::StringBuilderAppend),
    );
    m.add_function(
        "CLASS_java__lang__StringBuilder__toString".to_owned(),
        Function::Native(NativeFunction::StringBuilderToString),
    );
}

/// What the string-builder `init` native guarantees: exactly one instance
/// argument has its type set to `java_lang_StringBuilder` and its `value`
/// field set to an empty array, and anything else is refused.
pub open spec fn init_post(
    r: InvokeResult,
    params: Seq<Value>,
    cs: Rc<CallStack>,
    g0: GlobalsV,
    g1: GlobalsV,
) -> bool {
    if params.len() != 1 {
        (r matches InvokeResult::RuntimeError(res) && res.error@ == ErrorV::Unimplemented(
            "multiple init arguments"@,
        ) && res.stack == cs) && g1 == g0
    } else {
        match params[0] {
            Value::Instance(id) => {
                if id < g0.store.len() {
                    (r matches InvokeResult::Okay(v) && v@ == ValueV::Void) && g1 == (GlobalsV {
                        store: g0.store.update(
                            id as int,
                            InstanceV {
                                class_type: "java_lang_StringBuilder"@,
                                fields: g0.store[id as int].fields.insert(
                                    "value"@,
                                    ValueV::Array(Seq::empty()),
                                ),
                            },
                        ),
                        ..g0
                    })
                } else {
                    (r matches InvokeResult::RuntimeError(res) && res.error@ == ErrorV::CastError(
                        "dangling instance handle"@,
                    ) && res.stack == cs) && g1 == g0
                }
            },
            _ => {
                (r matches InvokeResult::RuntimeError(res) && res.error@ == ErrorV::CastError(
                    params[0]@.kind_name() + " as instance"@,
                ) && res.stack == cs) && g1 == g0
            },
        }
    }
}

/// Initialise a string builder: set the receiver's type and give it an empty
/// `value` character array.
pub(crate) fn java_lang_string_builder_init_(
    params: Vec<Value>,
    cs: Rc<CallStack>,
    env: &mut Module,
) -> (r: InvokeResult)
    requires
        old(env).wf(),
    ensures
        final(env).wf(),
        final(env).functions_view() == old(env).functions_view(),
        final(env).spec_name() == old(env).spec_name(),
        !(r is Exception),
        init_post(r, params@, cs, old(env).globals(), final(env).globals()),
{
    if params.len() != 1 {
        return InvokeResult::runtime(
            RuntimeError::Unimplemented("multiple init arguments".to_owned()),
            cs,
        );
    }
    let id = match params[0].instance() {
        Result::Err(e) => {
            return InvokeResult::runtime(e, cs);
        },
        Result::Ok(id) => id,
    };
    if id >= env.store_len() {
        return InvokeResult::runtime(
            RuntimeError::CastError("dangling instance handle".to_owned()),
            cs,
        );
    }
    let mut inst = env.store_read(id).clone();
    inst.set_class_type("java_lang_StringBuilder".to_owned());
    inst.set_field("value".to_owned(), Value::Array(Vec::new()));
    let ghost g0 = old(env).globals();
    env.store_replace(id, inst);
    proof {
        assert(env.globals() =~= (GlobalsV {
            store: g0.store.update(
                id as int,
                InstanceV {
                    class_type: "java_lang_StringBuilder"@,
                    fields: g0.store[id as int].fields.insert(
                        "value"@,
                        ValueV::Array(Seq::empty()),
                    ),
                },
            ),
            ..g0
        }));
    }
    InvokeResult::Okay(Value::Void)
}

/// What the string-builder `append` placeholder returns: a missing receiver
/// or a non-instance receiver is refused, and everything else reports the
/// operation unimplemented.
pub open spec fn append_post(r: InvokeResult, params: Seq<Value>, cs: Rc<CallStack>) -> bool {
    if params.len() < 1 {
        r matches InvokeResult::RuntimeError(res) && res.error@ == ErrorV::Unimplemented(
            "no params to append function"@,
        ) && res.stack == cs
    } else if !(params[0] is Instance) {
        r matches InvokeResult::RuntimeError(res) && res.error@ == ErrorV::CastError(
            params[0].cast_to_instance_msg(),
        ) && res.stack == cs
    } else {
        r matches InvokeResult::RuntimeError(res) && res.error@ == ErrorV::Unimplemented(
            "Java.lang.stringbuilder.append"@,
        ) && res.stack == cs
    }
}

/// The `append` placeholder: refuses a non-instance receiver, otherwise
/// reports itself unimplemented.
pub(crate) fn java_lang_string_builder_append(
    params: Vec<Value>,
    cs: Rc<CallStack>,
    env: &Module,
) -> (r: InvokeResult)
    ensures
        append_post(r, params@, cs),
{
    if params.len() < 1 {
        return InvokeResult::runtime(
            RuntimeError::Unimplemented("no params to append function".to_owned()),
            cs,
        );
    }
    match params[0].instance() {
        Result::Err(e) => InvokeResult::runtime(e, cs),
        Result::Ok(_) => InvokeResult::runtime(
            RuntimeError::Unimplemented("Java.lang.stringbuilder.append".to_owned()),
            cs,
        ),
    }
}

/// The `toString` placeholder: reports itself unimplemented.
pub(crate) fn java_lang_string_builder_to_string(
    _params: Vec<Value>,
    cs: Rc<CallStack>,
    _env: &Module,
) -> (r: InvokeResult)
    ensures
        r matches InvokeResult::RuntimeError(res) && res.error@ == ErrorV::Unimplemented(
            "Java.lang.stringbuilder.to_string"@,
        ) && res.stack == cs,
{
    InvokeResult::runtime(
        RuntimeError::Unimplemented("Java.lang.stringbuilder.to_string".to_owned()),
        cs,
    )
}

} // verus!
