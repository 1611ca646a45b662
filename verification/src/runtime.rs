//! Runtime values and instances: the tagged value type, the instance store
//! that gives instances shared-handle semantics, and the result shape of an
//! invocation.
//!
//! Each executable type has a mathematical view: `Value` abstracts to
//! [`ValueV`] and `Instance` to [`InstanceV`], and every contract speaks of
//! those views.

use vstd::prelude::*;

use std::rc::Rc;

use crate::callstack::CallStack;
use crate::errors::{ErrorV, RuntimeError, RuntimeErrorStack};
use crate::instructions::LiteralValue;
use crate::table::{map_of, Table};
use crate::text;

verus! {

/// The result of invoking a function: the only return shape an invocation
/// ever produces. `Exception` is catchable by the caller's handler table;
/// `RuntimeError` is not.
#[derive(Debug)]
pub enum InvokeResult {
    /// Normal completion, with the return value inside.
    Okay(Value),
    /// Exception with the throwable object inside.
    Exception(Instance, Rc<CallStack>),
    /// Runtime error, for non-catchable failures.
    RuntimeError(RuntimeErrorStack),
}

impl InvokeResult {
    pub fn runtime(error: RuntimeError, stack: Rc<CallStack>) -> (r: Self)
        ensures
            r == InvokeResult::RuntimeError(RuntimeErrorStack { stack, error }),
    {
        Self::RuntimeError(RuntimeErrorStack::new(error, stack))
    }
}

/// The mathematical value a [`Value`] stands for.
#[verifier::ext_equal]
pub enum ValueV {
    Void,
    Char(char),
    U32(i32),
    U64(i64),
    Instance(int),
    Array(Seq<ValueV>),
}

/// A tagged runtime value. Instances are held by handle: the `usize` indexes
/// the module's instance store, so copying a value shares the instance.
#[derive(Debug, PartialEq)]
pub enum Value {
    Void,
    Char(char),
    U32(i32),
    U64(i64),
    Instance(usize),
    Array(Vec<Value>),
}

/// The view of one character value.
pub open spec fn char_value(c: char) -> ValueV {
    ValueV::Char(c)
}

/// The views of a sequence of values, in order.
pub open spec fn seq_view(s: Seq<Value>) -> Seq<ValueV>
    decreases s,
{
    if s.len() == 0 {
        Seq::empty()
    } else {
        seq_view(s.drop_last()).push(value_view(s.last()))
    }
}

/// The view of one value.
pub open spec fn value_view(v: Value) -> ValueV
    decreases v,
{
    match v {
        Value::Void => ValueV::Void,
        Value::Char(c) => ValueV::Char(c),
        Value::U32(a) => ValueV::U32(a),
        Value::U64(a) => ValueV::U64(a),
        Value::Instance(i) => ValueV::Instance(i as int),
        Value::Array(vs) => ValueV::Array(seq_view(vs@)),
    }
}

impl View for Value {
    type V = ValueV;

    open spec fn view(&self) -> ValueV {
        value_view(*self)
    }
}

/// `seq_view` is the pointwise view.
pub broadcast proof fn lemma_seq_view(s: Seq<Value>)
    ensures
        (#[trigger] seq_view(s)).len() == s.len(),
        forall|i: int| 0 <= i < s.len() ==> #[trigger] seq_view(s)[i] == value_view(s[i]),
    decreases s.len(),
{
    if s.len() > 0 {
        lemma_seq_view(s.drop_last());
    }
}

/// Updating one element updates its view pointwise.
pub proof fn lemma_seq_view_update(s: Seq<Value>, i: int, v: Value)
    requires
        0 <= i < s.len(),
    ensures
        seq_view(s.update(i, v)) == seq_view(s).update(i, value_view(v)),
{
    lemma_seq_view(s);
    lemma_seq_view(s.update(i, v));
    assert(seq_view(s.update(i, v)) =~= seq_view(s).update(i, value_view(v)));
}

impl Clone for Value {
    fn clone(&self) -> (res: Self)
        ensures
            res@ == self@,
        decreases *self,
    {
        broadcast use lemma_seq_view;

        match self {
            Value::Void => Value::Void,
            Value::Char(c) => Value::Char(*c),
            Value::U32(a) => Value::U32(*a),
            Value::U64(a) => Value::U64(*a),
            Value::Instance(i) => Value::Instance(*i),
            Value::Array(vs) => {
                let mut out: Vec<Value> = Vec::new();
                let mut i: usize = 0;
                while i < vs.len()
                    invariant
                        *self == Value::Array(*vs),
                        i <= vs.len(),
                        out@.len() == i,
                        forall|j: int| 0 <= j < i ==> out@[j]@ == vs@[j]@,
                    decreases vs.len() - i,
                {
                    proof {
                        assert(decreases_to!(*self => (*self)->Array_0));
                        assert((*self)->Array_0 == *vs);
                        assert(decreases_to!(*vs => vs[i as int]));
                    }
                    out.push(vs[i].clone());
                    i = i + 1;
                }
                proof {
                    lemma_seq_view(out@);
                    lemma_seq_view(vs@);
                    assert(seq_view(out@) =~~= seq_view(vs@));
                }
                Value::Array(out)
            },
        }
    }
}

impl Value {
    /// Allocate a fresh, empty instance and hand back a value holding it.
    pub fn new_instance(store: &mut InstanceStore) -> (v: Value)
        requires
            old(store).wf(),
        ensures
            final(store).wf(),
            final(store)@ == old(store)@.push(InstanceV::empty()),
            v == Value::Instance(old(store)@.len() as usize),
    {
        let inst = Instance::empty();
        proof {
            assert(inst@ =~~= InstanceV::empty());
        }
        let id = store.allocate(inst);
        Value::Instance(id)
    }

    /// Put `instance` in the store and hand back a value holding it.
    pub fn from_instance(instance: Instance, store: &mut InstanceStore) -> (v: Value)
        requires
            old(store).wf(),
            instance.wf(),
        ensures
            final(store).wf(),
            final(store)@ == old(store)@.push(instance@),
            v == Value::Instance(old(store)@.len() as usize),
    {
        let id = store.allocate(instance);
        Value::Instance(id)
    }

    pub fn is_void(&self) -> (r: bool)
        ensures
            r == (self is Void),
    {
        match self {
            Value::Void => true,
            _ => false,
        }
    }

    pub fn is_char(&self) -> (r: bool)
        ensures
            r == (self is Char),
    {
        match self {
            Value::Char(_) => true,
            _ => false,
        }
    }

    pub fn is_u32(&self) -> (r: bool)
        ensures
            r == (self is U32),
    {
        match self {
            Value::U32(_) => true,
            _ => false,
        }
    }

    pub fn is_u64(&self) -> (r: bool)
        ensures
            r == (self is U64),
    {
        match self {
            Value::U64(_) => true,
            _ => false,
        }
    }

    pub fn is_instance(&self) -> (r: bool)
        ensures
            r == (self is Instance),
    {
        match self {
            Value::Instance(_) => true,
            _ => false,
        }
    }

    pub fn is_array(&self) -> (r: bool)
        ensures
            r == (self is Array),
    {
        match self {
            Value::Array(_) => true,
            _ => false,
        }
    }

    /// The description a failed cast to an instance carries.
    pub open spec fn cast_to_instance_msg(self) -> Seq<char> {
        self@.kind_name() + " as instance"@
    }

    /// The instance handle inside, or the cast error the interpreter reports.
    pub fn instance(&self) -> (r: Result<usize, RuntimeError>)
        ensures
            match r {
                Result::Ok(id) => *self == Value::Instance(id),
                Result::Err(e) => !(self is Instance) && e@ == ErrorV::CastError(
                    self.cast_to_instance_msg(),
                ),
            },
    {
        match self {
            Value::Instance(i) => Result::Ok(*i),
            _ => {
                let mut msg = self.kind_name_str();
                msg.append(" as instance");
                proof {
                    assert(msg@ =~= self.cast_to_instance_msg());
                }
                Result::Err(RuntimeError::CastError(msg))
            },
        }
    }

    pub fn kind_name_str(&self) -> (out: String)
        ensures
            out@ == self@.kind_name(),
    {
        match self {
            Value::Void => "Void".to_owned(),
            Value::Char(_) => "Char".to_owned(),
            Value::U32(_) => "U32".to_owned(),
            Value::U64(_) => "U64".to_owned(),
            Value::Instance(_) => "Instance".to_owned(),
            Value::Array(_) => "Array".to_owned(),
        }
    }

    /// Convert to a 32-bit value: `Void` is 0, a character its code point, a
    /// 64-bit value its low bits, and instances and arrays 1.
    pub fn to_single(&self) -> (r: i32)
        ensures
            r == self@.single(),
    {
        match self {
            Value::Void => 0,
            Value::Char(a) => *a as i32,
            Value::U32(a) => *a,
            Value::U64(a) => #[verifier::truncate] (*a as i32),
            Value::Instance(_) => 1,
            Value::Array(_) => 1,
        }
    }
}

impl ValueV {
    /// The short tag name used in cast-error reports.
    pub open spec fn kind_name(self) -> Seq<char> {
        match self {
            ValueV::Void => "Void"@,
            ValueV::Char(_) => "Char"@,
            ValueV::U32(_) => "U32"@,
            ValueV::U64(_) => "U64"@,
            ValueV::Instance(_) => "Instance"@,
            ValueV::Array(_) => "Array"@,
        }
    }

    /// The total conversion of a value to a 32-bit "single".
    pub open spec fn single(self) -> i32 {
        match self {
            ValueV::Void => 0,
            ValueV::Char(a) => a as i32,
            ValueV::U32(a) => a,
            ValueV::U64(a) => a as i32,
            ValueV::Instance(_) => 1,
            ValueV::Array(_) => 1,
        }
    }
}

/// The view of a converted literal, given the id the next allocated instance
/// would get: a string literal becomes a handle to a fresh string instance.
pub open spec fn of_literal(lit: crate::instructions::LiteralV, next_id: int) -> ValueV {
    match lit {
        crate::instructions::LiteralV::Lit(i) => ValueV::U32(i),
        crate::instructions::LiteralV::Wide(w) => ValueV::U64(w),
        crate::instructions::LiteralV::Str(_) => ValueV::Instance(next_id),
        crate::instructions::LiteralV::Class(_) => ValueV::Void,
    }
}

/// The mathematical contents of an [`Instance`]: its type name and fields.
#[verifier::ext_equal]
pub struct InstanceV {
    pub class_type: Seq<char>,
    pub fields: Map<Seq<char>, ValueV>,
}

impl InstanceV {
    /// What a fresh instance holds: type "unknown", no fields.
    pub open spec fn empty() -> InstanceV {
        InstanceV { class_type: "unknown"@, fields: Map::empty() }
    }
}

/// The field mapping an exec-level field table stands for.
pub open spec fn lifted(m: Map<Seq<char>, Value>) -> Map<Seq<char>, ValueV> {
    Map::new(|k: Seq<char>| m.dom().contains(k), |k: Seq<char>| value_view(m[k]))
}

/// An object: a type name and named fields. Shared-handle semantics come from
/// the store; the struct itself is plain data.
#[derive(Debug)]
pub struct Instance {
    fields: Table<Value>,
    type_: String,
}

impl View for Instance {
    type V = InstanceV;

    closed spec fn view(&self) -> InstanceV {
        InstanceV { class_type: self.type_@, fields: lifted(self.fields@) }
    }
}

/// Lifting commutes with insertion.
pub proof fn lemma_lifted_insert(m: Map<Seq<char>, Value>, k: Seq<char>, v: Value)
    ensures
        lifted(m.insert(k, v)) == lifted(m).insert(k, v@),
{
    assert(lifted(m.insert(k, v)) =~~= lifted(m).insert(k, v@));
}

proof fn lemma_map_of_view_eq(s1: Seq<(String, Value)>, s2: Seq<(String, Value)>)
    requires
        s1.len() == s2.len(),
        forall|i: int| 0 <= i < s1.len() ==> s1[i].0@ == s2[i].0@ && s1[i].1@ == s2[i].1@,
    ensures
        lifted(map_of(s1)) == lifted(map_of(s2)),
    decreases s1.len(),
{
    if s1.len() == 0 {
        assert(map_of(s1) == Map::<Seq<char>, Value>::empty());
        assert(map_of(s2) == Map::<Seq<char>, Value>::empty());
    } else {
        assert(forall|i: int|
            0 <= i < s1.drop_first().len() ==> s1.drop_first()[i] == s1[i + 1] && s2.drop_first()[i]
                == s2[i + 1]);
        lemma_map_of_view_eq(s1.drop_first(), s2.drop_first());
        lemma_lifted_insert(map_of(s1.drop_first()), s1[0].0@, s1[0].1);
        lemma_lifted_insert(map_of(s2.drop_first()), s2[0].0@, s2[0].1);
        assert(lifted(map_of(s1)) =~~= lifted(map_of(s2)));
    }
}

impl Clone for Instance {
    fn clone(&self) -> (res: Self)
        ensures
            res@ == self@,
            res.wf() == self.wf(),
    {
        let fields = self.fields.duplicate();
        proof {
            fields.lemma_view_entries();
            self.fields.lemma_view_entries();
            lemma_map_of_view_eq(fields.entry_seq(), self.fields.entry_seq());
        }
        Instance { fields, type_: self.type_.clone() }
    }
}

impl Instance {
    /// Every instance starts well-formed and all mutations keep it so.
    pub closed spec fn wf(self) -> bool {
        self.fields.wf()
    }

    /// A fresh instance: type "unknown", no fields.
    pub fn empty() -> (r: Self)
        ensures
            r.wf(),
            r@ == InstanceV::empty(),
    {
        let r = Instance { fields: Table::new(), type_: "unknown".to_owned() };
        proof {
            assert(r@ =~~= InstanceV::empty());
        }
        r
    }

    pub fn set_class_type(&mut self, type_: String)
        requires
            old(self).wf(),
        ensures
            final(self).wf(),
            final(self)@ == (InstanceV { class_type: type_@, ..old(self)@ }),
    {
        self.type_ = type_;
        proof {
            assert(self@ =~~= InstanceV { class_type: self.type_@, ..old(self)@ });
        }
    }

    pub fn get_class_type(&self) -> (r: &String)
        ensures
            r@ == self@.class_type,
    {
        &self.type_
    }

    pub fn set_field(&mut self, field: String, value: Value)
        requires
            old(self).wf(),
        ensures
            final(self).wf(),
            final(self)@ == (InstanceV {
                fields: old(self)@.fields.insert(field@, value@),
                ..old(self)@
            }),
    {
        let ghost f = field@;
        let ghost v = value@;
        self.fields.insert(field, value);
        proof {
            assert(lifted(self.fields@) =~~= old(self)@.fields.insert(f, v));
            assert(self@ =~~= InstanceV { fields: old(self)@.fields.insert(f, v), ..old(self)@ });
        }
    }

    pub fn get_field(&self, field: &str) -> (r: Option<&Value>)
        requires
            self.wf(),
        ensures
            match r {
                Option::Some(v) => self@.fields.dom().contains(field@) && v@
                    == self@.fields[field@],
                Option::None => !self@.fields.dom().contains(field@),
            },
    {
        self.fields.get(field)
    }
}

impl Table<Value> {
    /// An entry-by-entry copy; keys are kept exactly and values up to view.
    pub fn duplicate(&self) -> (res: Self)
        ensures
            res.wf() == self.wf(),
            res.entry_seq().len() == self.entry_seq().len(),
            forall|i: int|
                0 <= i < self.entry_seq().len() ==> res.entry_seq()[i].0 == self.entry_seq()[i].0
                    && res.entry_seq()[i].1@ == self.entry_seq()[i].1@,
    {
        let mut entries: Vec<(String, Value)> = Vec::new();
        let mut i: usize = 0;
        let n = self.len();
        while i < n
            invariant
                n == self.entry_seq().len(),
                i <= n,
                entries@.len() == i,
                forall|j: int|
                    0 <= j < i ==> entries@[j].0 == self.entry_seq()[j].0 && entries@[j].1@
                        == self.entry_seq()[j].1@,
            decreases n - i,
        {
            let e = self.index(i);
            entries.push((e.0.clone(), e.1.clone()));
            i = i + 1;
        }
        proof {
            crate::table::lemma_unique_keys_pointwise(entries@, self.entry_seq());
            self.lemma_wf_entries();
        }
        self.rebuild(entries)
    }
}

/// The instance store: instances live here and values hold indices into it,
/// which makes the sharing discipline explicit.
#[derive(Debug)]
pub struct InstanceStore {
    cells: Vec<Instance>,
}

impl View for InstanceStore {
    type V = Seq<InstanceV>;

    closed spec fn view(&self) -> Seq<InstanceV> {
        Seq::new(self.cells@.len(), |i: int| self.cells@[i]@)
    }
}

impl InstanceStore {
    /// All held instances are well-formed.
    pub closed spec fn wf(self) -> bool {
        forall|i: int| 0 <= i < self.cells@.len() ==> (#[trigger] self.cells@[i]).wf()
    }

    pub fn new() -> (r: Self)
        ensures
            r.wf(),
            r@ == Seq::<InstanceV>::empty(),
    {
        let r = InstanceStore { cells: Vec::new() };
        proof {
            assert(r@ =~= Seq::<InstanceV>::empty());
        }
        r
    }

    /// Put a fresh instance in the store and hand back its id.
    pub fn allocate(&mut self, inst: Instance) -> (id: usize)
        requires
            old(self).wf(),
            inst.wf(),
        ensures
            final(self).wf(),
            final(self)@ == old(self)@.push(inst@),
            id == old(self)@.len(),
    {
        let id = self.cells.len();
        self.cells.push(inst);
        proof {
            assert(self@ =~= old(self)@.push(inst@));
        }
        id
    }

    pub fn len(&self) -> (n: usize)
        ensures
            n == self@.len(),
    {
        self.cells.len()
    }

    /// Borrow the instance under `id`.
    pub fn read(&self, id: usize) -> (r: &Instance)
        requires
            self.wf(),
            id < self@.len(),
        ensures
            r@ == self@[id as int],
            r.wf(),
    {
        &self.cells[id]
    }

    /// Overwrite the instance under `id`.
    pub fn replace(&mut self, id: usize, inst: Instance)
        requires
            old(self).wf(),
            inst.wf(),
            id < old(self)@.len(),
        ensures
            final(self).wf(),
            final(self)@ == old(self)@.update(id as int, inst@),
    {
        self.cells.set(id, inst);
        proof {
            assert(self@ =~= old(self)@.update(id as int, inst@));
        }
    }
}

/// The instance a string literal becomes: type `java_lang_string`, one field
/// `data` holding the array of the string's characters.
pub open spec fn string_instance(s: Seq<char>) -> InstanceV {
    InstanceV {
        class_type: "java_lang_string"@,
        fields: Map::<Seq<char>, ValueV>::empty().insert(
            "data"@,
            ValueV::Array(Seq::new(s.len(), |j: int| char_value(s[j]))),
        ),
    }
}

/// Convert a literal into a value. A string literal materialises as a fresh
/// instance of type `java_lang_string` whose `data` field holds the string's
/// characters; the handle to it is returned. Class literals are not
/// converted here: the interpreter reports them unimplemented.
pub fn literal_to_value(lit: &LiteralValue, store: &mut InstanceStore) -> (v: Value)
    requires
        old(store).wf(),
        !(lit is Class),
    ensures
        final(store).wf(),
        v@ == of_literal(lit@, old(store)@.len() as int),
        match *lit {
            LiteralValue::String(s) => final(store)@ == old(store)@.push(string_instance(s@)),
            _ => final(store)@ == old(store)@,
        },
{
    match lit {
        LiteralValue::Lit(i) => Value::U32(*i),
        LiteralValue::Wide(w) => Value::U64(*w),
        LiteralValue::String(s) => {
            let mut inst = Instance::empty();
            inst.set_class_type("java_lang_string".to_owned());
            let mut data: Vec<Value> = Vec::new();
            let chars = s.as_str();
            let n = chars.unicode_len();
            let mut i: usize = 0;
            while i < n
                invariant
                    chars@ == s@,
                    n == chars@.len(),
                    i <= n,
                    data@.len() == i,
                    forall|j: int| #![trigger data@[j]] 0 <= j < i ==> data@[j] == Value::Char(
                        chars@[j],
                    ),
                decreases n - i,
            {
                let c = chars.get_char(i);
                data.push(Value::Char(c));
                i = i + 1;
            }
            proof {
                lemma_seq_view(data@);
                assert(data@.len() == s@.len());
                assert(seq_view(data@).len() == s@.len());
                assert forall|j: int| 0 <= j < data@.len() implies seq_view(data@)[j]
                    == char_value(s@[j]) by {
                    assert(data@[j] == Value::Char(chars@[j]));
                    assert(seq_view(data@)[j] == value_view(data@[j]));
                }
                assert(seq_view(data@) =~= Seq::new(s@.len(), |j: int| char_value(s@[j])));
            }
            inst.set_field("data".to_owned(), Value::Array(data));
            proof {
                assert(inst@ =~~= string_instance(s@));
            }
            let id = store.allocate(inst);
            Value::Instance(id)
        },
        LiteralValue::Class(_) => Value::Void,
    }
}

/// A string literal stored by the interpreter reads back as itself: the
/// instance it becomes holds a character array under `data`, and
/// concatenating those characters yields exactly the literal's characters.
pub proof fn lemma_string_literal_roundtrip(s: Seq<char>)
    ensures
        string_instance(s).fields.dom().contains("data"@),
        string_instance(s).fields["data"@] is Array,
        all_chars(string_instance(s).fields["data"@]->Array_0),
        chars_of(string_instance(s).fields["data"@]->Array_0) == s,
{
    let arr = Seq::new(s.len(), |j: int| char_value(s[j]));
    assert(string_instance(s).fields["data"@] == ValueV::Array(arr));
    assert(chars_of(arr) =~= s);
}

/// Whether every value in the sequence is a `Char`.
pub open spec fn all_chars(vs: Seq<ValueV>) -> bool {
    forall|j: int| 0 <= j < vs.len() ==> vs[j] is Char
}

/// The characters of a sequence of `Char` values, in order.
pub open spec fn chars_of(vs: Seq<ValueV>) -> Seq<char> {
    Seq::new(vs.len(), |j: int| vs[j]->Char_0)
}

/// Read the characters back out of a string instance: the concatenation of
/// the `Char` values in its `data` field. `None` when the instance does not
/// hold a character array under `data`.
pub fn string_from_instance(inst: &Instance) -> (r: Option<String>)
    requires
        inst.wf(),
    ensures
        ({
            let fields = inst@.fields;
            match r {
                Option::Some(s) => fields.dom().contains("data"@) && fields["data"@] is Array
                    && all_chars(fields["data"@]->Array_0) && s@ == chars_of(
                    fields["data"@]->Array_0,
                ),
                Option::None => !(fields.dom().contains("data"@) && fields["data"@] is Array
                    && all_chars(fields["data"@]->Array_0)),
            }
        }),
{
    let data = match inst.get_field("data") {
        Option::Some(v) => v,
        Option::None => {
            return Option::None;
        },
    };
    let arr = match data {
        Value::Array(a) => a,
        _ => {
            return Option::None;
        },
    };
    proof {
        lemma_seq_view(arr@);
    }
    let mut chars: Vec<char> = Vec::new();
    let mut i: usize = 0;
    while i < arr.len()
        invariant
            i <= arr@.len(),
            chars@.len() == i,
            forall|j: int| #![trigger seq_view(arr@)[j]] 0 <= j < i ==> seq_view(arr@)[j] is Char,
            forall|j: int| #![trigger chars@[j]] 0 <= j < i ==> chars@[j] == seq_view(
                arr@,
            )[j]->Char_0,
            seq_view(arr@).len() == arr@.len(),
            forall|j: int| #![trigger seq_view(arr@)[j]] 0 <= j < arr@.len() ==> seq_view(arr@)[j]
                == value_view(arr@[j]),
            inst@.fields.dom().contains("data"@),
            inst@.fields["data"@] == ValueV::Array(seq_view(arr@)),
        decreases arr@.len() - i,
    {
        match &arr[i] {
            Value::Char(c) => {
                proof {
                    assert(seq_view(arr@)[i as int] == value_view(arr@[i as int]));
                }
                chars.push(*c);
            },
            _ => {
                proof {
                    assert(seq_view(arr@)[i as int] == value_view(arr@[i as int]));
                    assert(!(seq_view(arr@)[i as int] is Char));
                    assert(!all_chars(seq_view(arr@)));
                }
                return Option::None;
            },
        }
        i = i + 1;
    }
    proof {
        assert(chars@ =~= chars_of(seq_view(arr@)));
    }
    Option::Some(text::string_from_chars(&chars))
}

} // verus!
