//! The pre-parsed input the core consumes: already-resolved strings, type
//! and member records, and per-method code blocks. An external decoder of
//! the binary container produces these.

use vstd::prelude::*;

verus! {

/// A whole parsed input file: the class definitions and the string, method
/// and field pools the bytecode refers to by index.
pub struct DexFile {
    pub classes: Vec<ClassDefinition>,
    pub strings: Vec<String>,
    pub methods: Vec<MemberRef>,
    pub fields: Vec<MemberRef>,
}

/// A method or field record: the defining class's type and the member name.
pub struct MemberRef {
    pub definer: String,
    pub name: String,
}

/// One class: its type descriptor, its static field names, and its methods,
/// direct first and virtual after.
pub struct ClassDefinition {
    pub class_type: String,
    pub has_class_data: bool,
    pub static_fields: Vec<String>,
    pub methods: Vec<EncodedMethod>,
}

/// One method of a class.
pub struct EncodedMethod {
    pub name: String,
    pub is_static: bool,
    pub param_count: usize,
    pub return_type: String,
    pub code: Option<Code>,
}

/// A method's code: register count, 16-bit code units, and try ranges.
pub struct Code {
    pub registers_size: usize,
    pub insns: Vec<u16>,
    pub tries: Vec<TryItem>,
}

/// One try range, in words, with its typed handlers.
pub struct TryItem {
    pub start_addr: u32,
    pub insn_count: u16,
    pub handlers: Vec<Handler>,
}

/// One catch handler: the exception type it catches and the handler's word
/// address.
pub struct Handler {
    pub type_: String,
    pub addr: u32,
}

} // verus!
