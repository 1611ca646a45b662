//! Turning parsed class records into module functions: the per-class walk,
//! and the flat naming scheme the interpreter uses.

use vstd::prelude::*;

use crate::builder::FunctionBuilder;
use crate::code::generate_code;
use crate::dexfile::{ClassDefinition, DexFile, EncodedMethod};
use crate::function::{FnV, FunctionV};
use crate::machine::GlobalsV;
use crate::module::Module;
use crate::runtime::ValueV;
use crate::text;

verus! {

/// What stops the decoding or analysis of one method. End-of-stream is the
/// decoder's normal loop terminator; everything else is a structural fault
/// that aborts the compilation of that method.
#[derive(Clone, Copy, Debug, PartialEq, Eq)]
pub enum ParserError {
    /// The code stream ended.
    EOF,
    /// The stream ended in the middle of an instruction.
    Truncated,
    /// A data payload had the wrong magic word.
    BadMagic,
    /// A payload offset was negative.
    NegativeOffset,
    /// An unrecognised opcode appeared in the stream.
    BadOpcode,
    /// An array-data payload had an unsupported element width.
    BadArrayWidth,
    /// An array-data payload length did not match its element width.
    UnevenArrayData,
    /// A word offset left the instruction list.
    OffsetOutOfRange,
    /// Two try ranges overlap.
    OverlappingTries,
    /// A method declares more parameters than registers.
    BadRegisterCount,
    /// A class or member name is empty.
    EmptyName,
}

/// The textual output of a code generator pass.
#[derive(Debug)]
pub struct ParserOutput {
    pub definitions: String,
    pub source: String,
}

/// `s` with every non-overlapping occurrence of `from` (leftmost first)
/// replaced by `to`.
pub open spec fn replaced(s: Seq<char>, from: Seq<char>, to: Seq<char>) -> Seq<char>
    recommends
        from.len() > 0,
    decreases s.len(),
{
    if s.len() == 0 {
        Seq::empty()
    } else if from.len() > 0 && s.len() >= from.len() && s.take(from.len() as int) == from {
        to + replaced(s.skip(from.len() as int), from, to)
    } else {
        seq![s[0]] + replaced(s.drop_first(), from, to)
    }
}

/// Replace every occurrence of `from` in `s` by `to`, leftmost first.
fn replace_chars(s: &Vec<char>, from: &Vec<char>, to: &Vec<char>) -> (out: Vec<char>)
    requires
        from@.len() > 0,
    ensures
        out@ == replaced(s@, from@, to@),
{
    let flen = from.len();
    let mut out: Vec<char> = Vec::new();
    let mut i: usize = 0;
    proof {
        assert(s@.skip(0) =~= s@);
        assert(out@ + replaced(s@, from@, to@) =~= replaced(s@, from@, to@));
    }
    #[verifier::loop_isolation(false)]
    while i < s.len()
        invariant
            i <= s@.len(),
            replaced(s@, from@, to@) == out@ + replaced(s@.skip(i as int), from@, to@),
        decreases s@.len() - i,
    {
        let mut matches_here = flen <= s.len() - i;
        if matches_here {
            let mut k: usize = 0;
            #[verifier::loop_isolation(false)]
            while k < flen && matches_here
                invariant
                    k <= flen,
                    i + flen <= s@.len(),
                    matches_here ==> forall|j: int| 0 <= j < k ==> s@[i + j] == from@[j],
                    !matches_here ==> s@.skip(i as int).take(flen as int) != from@,
                decreases flen - k, (if matches_here {
                    1int
                } else {
                    0int
                }),
            {
                if s[i + k] != from[k] {
                    proof {
                        assert(s@.skip(i as int).take(flen as int)[k as int] == s@[i + k]);
                        assert(s@.skip(i as int).take(flen as int) != from@);
                    }
                    matches_here = false;
                } else {
                    k = k + 1;
                }
            }
            proof {
                if matches_here {
                    assert(s@.skip(i as int).take(flen as int) =~= from@);
                }
            }
        }
        if matches_here {
            let ghost base = out@;
            let mut k: usize = 0;
            #[verifier::loop_isolation(false)]
            while k < to.len()
                invariant
                    k <= to@.len(),
                    out@ == base + to@.take(k as int),
                decreases to@.len() - k,
            {
                proof {
                    assert(base + to@.take(k as int) + seq![to@[k as int]] =~= base + to@.take(
                        k + 1,
                    ));
                }
                out.push(to[k]);
                k = k + 1;
            }
            proof {
                assert(out@ =~= base + to@);
            }
            proof {
                assert(s@.skip(i as int).skip(flen as int) =~= s@.skip(i + flen));
                assert(replaced(s@.skip(i as int), from@, to@) == to@ + replaced(
                    s@.skip(i + flen),
                    from@,
                    to@,
                ));
            }
            i = i + flen;
        } else {
            proof {
                if i + flen <= s@.len() {
                    assert(s@.skip(i as int).take(flen as int) != from@);
                } else {
                    assert(s@.skip(i as int).len() < flen);
                }
                assert(s@.skip(i as int)[0] == s@[i as int]);
                assert(s@.skip(i as int).drop_first() =~= s@.skip(i + 1));
                assert(replaced(s@.skip(i as int), from@, to@) == seq![s@[i as int]] + replaced(
                    s@.skip(i + 1),
                    from@,
                    to@,
                ));
            }
            out.push(s[i]);
            i = i + 1;
        }
    }
    proof {
        assert(s@.skip(s@.len() as int) =~= Seq::<char>::empty());
    }
    out
}

/// The flat class name: `CLASS_` plus the class type without its leading
/// `L`, with `__` doubled, `/` turned into `__`, and `;` removed.
pub open spec fn classname_key(classname: Seq<char>) -> Seq<char> {
    "CLASS_"@ + replaced(
        replaced(replaced(classname.skip(1), "__"@, "____"@), "/"@, "__"@),
        ";"@,
        ""@,
    )
}

/// The flat member name: the name with `__` doubled and `<` and `>` turned
/// into `__`.
pub open spec fn name_key(name: Seq<char>) -> Seq<char> {
    replaced(replaced(replaced(name, "__"@, "____"@), "<"@, "__"@), ">"@, "__"@)
}

/// What a method without code becomes: an interpreted function with no
/// registers, no parameters and an empty body.
pub open spec fn empty_fn_view() -> FunctionV {
    FunctionV::Interpreted(
        FnV {
            n_regs: 0,
            n_params: 0,
            return_: false,
            body: Seq::empty(),
            handlers: Seq::empty(),
        },
    )
}

/// The statics map after registering the first `n` static fields of class
/// `cls` under their flat keys, each initialised to `Void`.
pub open spec fn statics_registered(
    m0: Map<Seq<char>, ValueV>,
    cls: Seq<char>,
    fields: Seq<String>,
    n: int,
) -> Map<Seq<char>, ValueV>
    decreases n,
{
    if n <= 0 {
        m0
    } else {
        statics_registered(m0, cls, fields, n - 1).insert(
            classname_key(cls) + "__"@ + name_key(fields[n - 1]@),
            ValueV::Void,
        )
    }
}

/// The functions map after walking the first `n` methods of class `cls`:
/// `built[i]` says whether method `i` compiled, and `views[i]` what it became
/// when it did.
pub open spec fn functions_registered(
    m0: Map<Seq<char>, FunctionV>,
    cls: Seq<char>,
    methods: Seq<EncodedMethod>,
    built: Seq<bool>,
    views: Seq<FunctionV>,
    n: int,
) -> Map<Seq<char>, FunctionV>
    decreases n,
{
    if n <= 0 {
        m0
    } else if built[n - 1] {
        functions_registered(m0, cls, methods, built, views, n - 1).insert(
            classname_key(cls) + "__"@ + name_key(methods[n - 1].name@),
            views[n - 1],
        )
    } else {
        functions_registered(m0, cls, methods, built, views, n - 1)
    }
}

/// The methods walk reads only the first `n` entries of `built` and `views`.
proof fn lemma_functions_registered_congruence(
    m0: Map<Seq<char>, FunctionV>,
    cls: Seq<char>,
    methods: Seq<EncodedMethod>,
    b1: Seq<bool>,
    v1: Seq<FunctionV>,
    b2: Seq<bool>,
    v2: Seq<FunctionV>,
    n: int,
)
    requires
        forall|i: int| 0 <= i < n ==> #[trigger] b1[i] == b2[i] && v1[i] == v2[i],
    ensures
        functions_registered(m0, cls, methods, b1, v1, n) == functions_registered(
            m0,
            cls,
            methods,
            b2,
            v2,
            n,
        ),
    decreases n,
{
    if n > 0 {
        lemma_functions_registered_congruence(m0, cls, methods, b1, v1, b2, v2, n - 1);
    }
}

/// Every method without code is built into the empty function.
pub open spec fn built_ok(
    methods: Seq<EncodedMethod>,
    built: Seq<bool>,
    views: Seq<FunctionV>,
) -> bool {
    forall|i: int|
        #![trigger built[i]]
        0 <= i < built.len() && methods[i].code is None ==> built[i] && views[i] == empty_fn_view()
}

/// One admissible walk of a class's methods: every method without code is
/// built into the empty function, and the built methods are added in order.
pub open spec fn methods_choice(
    c: ClassDefinition,
    f0: Map<Seq<char>, FunctionV>,
    f1: Map<Seq<char>, FunctionV>,
    built: Seq<bool>,
    views: Seq<FunctionV>,
) -> bool {
    &&& built.len() == c.methods@.len()
    &&& views.len() == c.methods@.len()
    &&& built_ok(c.methods@, built, views)
    &&& f1 == functions_registered(
        f0,
        c.class_type@,
        c.methods@,
        built,
        views,
        c.methods@.len() as int,
    )
}

/// One class's whole effect on a module: nothing without class data;
/// otherwise the static fields registered in order, the instance store left
/// alone, and, for some choice of built methods in which every method
/// without code is built into the empty function, those methods added in
/// order.
pub open spec fn class_ingested(
    c: ClassDefinition,
    g0: GlobalsV,
    f0: Map<Seq<char>, FunctionV>,
    g1: GlobalsV,
    f1: Map<Seq<char>, FunctionV>,
) -> bool {
    if !c.has_class_data {
        g1 == g0 && f1 == f0
    } else {
        &&& g1 == (GlobalsV {
            statics: statics_registered(
                g0.statics,
                c.class_type@,
                c.static_fields@,
                c.static_fields@.len() as int,
            ),
            ..g0
        })
        &&& exists|built: Seq<bool>, views: Seq<FunctionV>|
            #[trigger] methods_choice(c, f0, f1, built, views)
    }
}

/// What ingesting one class leaves of a module, whether or not the class was
/// accepted: a class with an empty name is refused and changes nothing, any
/// other is ingested.
pub open spec fn class_step(
    c: ClassDefinition,
    g0: GlobalsV,
    f0: Map<Seq<char>, FunctionV>,
    g1: GlobalsV,
    f1: Map<Seq<char>, FunctionV>,
) -> bool {
    if c.class_type@.len() == 0 {
        g1 == g0 && f1 == f0
    } else {
        class_ingested(c, g0, f0, g1, f1)
    }
}

/// Format a class type into the flat naming scheme.
pub fn format_classname(classname: &str) -> (out: String)
    requires
        classname@.len() >= 1,
    ensures
        out@ == classname_key(classname@),
{
    proof {
        reveal_strlit("__");
        reveal_strlit("____");
        reveal_strlit("/");
        reveal_strlit(";");
        reveal_strlit("");
    }
    let chars = text::str_chars(classname);
    let mut tail: Vec<char> = Vec::new();
    let mut i: usize = 1;
    while i < chars.len()
        invariant
            1 <= i <= chars@.len(),
            tail@ =~= chars@.subrange(1, i as int),
        decreases chars@.len() - i,
    {
        tail.push(chars[i]);
        i = i + 1;
    }
    proof {
        assert(tail@ =~= chars@.skip(1));
    }
    let s1 = replace_chars(&tail, &text::str_chars("__"), &text::str_chars("____"));
    let s2 = replace_chars(&s1, &text::str_chars("/"), &text::str_chars("__"));
    let s3 = replace_chars(&s2, &text::str_chars(";"), &text::str_chars(""));
    let mut out = String::new();
    out.append("CLASS_");
    let rest = text::string_from_chars(&s3);
    out.append(rest.as_str());
    proof {
        assert(out@ =~= classname_key(classname@));
    }
    out
}

/// Format a member name into the flat naming scheme.
pub fn format_name(name: &str) -> (out: String)
    ensures
        out@ == name_key(name@),
{
    proof {
        reveal_strlit("__");
        reveal_strlit("____");
        reveal_strlit("<");
        reveal_strlit(">");
    }
    let chars = text::str_chars(name);
    let s1 = replace_chars(&chars, &text::str_chars("__"), &text::str_chars("____"));
    let s2 = replace_chars(&s1, &text::str_chars("<"), &text::str_chars("__"));
    let s3 = replace_chars(&s2, &text::str_chars(">"), &text::str_chars("__"));
    let out = text::string_from_chars(&s3);
    proof {
        assert(out@ =~= name_key(name@));
    }
    out
}

/// Ingest one class: register its static fields under their flat keys and
/// build each of its methods into the module. A method whose decoding or
/// analysis fails is recorded as a failure and skipped, so one bad method
/// does not bring down the module. Only an empty class name is refused.
pub fn parse_class(c: &ClassDefinition, dex: &DexFile, module: &mut Module) -> (r: Result<
    (),
    ParserError,
>)
    requires
        old(module).wf(),
    ensures
        final(module).wf(),
        final(module).spec_name() == old(module).spec_name(),
        r is Err <==> c.class_type@.len() == 0,
        r matches Result::Err(e) ==> e == ParserError::EmptyName && final(module).globals() == old(
            module,
        ).globals() && final(module).functions_view() == old(module).functions_view(),
        r is Ok ==> class_ingested(
            *c,
            old(module).globals(),
            old(module).functions_view(),
            final(module).globals(),
            final(module).functions_view(),
        ),
{
    if c.class_type.unicode_len() < 1 {
        return Result::Err(ParserError::EmptyName);
    }
    let c_name = format_classname(c.class_type.as_str());
    if c.has_class_data {
        proof {
            assert(module.globals() =~= (GlobalsV {
                statics: statics_registered(
                    old(module).globals().statics,
                    c.class_type@,
                    c.static_fields@,
                    0,
                ),
                ..old(module).globals()
            }));
        }
        let mut fi: usize = 0;
        #[verifier::loop_isolation(false)]
        while fi < c.static_fields.len()
            invariant
                fi <= c.static_fields@.len(),
                module.wf(),
                module.spec_name() == old(module).spec_name(),
                module.functions_view() == old(module).functions_view(),
                module.globals() == (GlobalsV {
                    statics: statics_registered(
                        old(module).globals().statics,
                        c.class_type@,
                        c.static_fields@,
                        fi as int,
                    ),
                    ..old(module).globals()
                }),
            decreases c.static_fields@.len() - fi,
        {
            let f_name = format_name(c.static_fields[fi].as_str());
            let mut key = c_name.clone();
            key.append("__");
            key.append(f_name.as_str());
            proof {
                assert(key@ == classname_key(c.class_type@) + "__"@ + name_key(
                    c.static_fields@[fi as int]@,
                ));
            }
            module.add_static(key);
            proof {
                assert(module.globals() =~= (GlobalsV {
                    statics: statics_registered(
                        old(module).globals().statics,
                        c.class_type@,
                        c.static_fields@,
                        fi + 1,
                    ),
                    ..old(module).globals()
                }));
            }
            fi = fi + 1;
        }
        let ghost base_fns = module.functions_view();
        let ghost mut built_g: Seq<bool> = Seq::empty();
        let ghost mut views_g: Seq<FunctionV> = Seq::empty();
        let mut mi: usize = 0;
        #[verifier::loop_isolation(false)]
        while mi < c.methods.len()
            invariant
                mi <= c.methods@.len(),
                module.wf(),
                module.spec_name() == old(module).spec_name(),
                module.globals() == (GlobalsV {
                    statics: statics_registered(
                        old(module).globals().statics,
                        c.class_type@,
                        c.static_fields@,
                        c.static_fields@.len() as int,
                    ),
                    ..old(module).globals()
                }),
                built_g.len() == mi,
                views_g.len() == mi,
                built_ok(c.methods@, built_g, views_g),
                module.functions_view() == functions_registered(
                    base_fns,
                    c.class_type@,
                    c.methods@,
                    built_g,
                    views_g,
                    mi as int,
                ),
            decreases c.methods@.len() - mi,
        {
            let m = &c.methods[mi];
            let mut fnb = FunctionBuilder::new();
            let built = match &m.code {
                Option::Some(code) => {
                    match generate_code(code, m, c_name.as_str(), dex, &mut fnb) {
                        Result::Ok(_) => true,
                        Result::Err(_) => false,
                    }
                },
                Option::None => true,
            };
            let ghost pre_b = built_g;
            let ghost pre_v = views_g;
            if built {
                let m_name = format_name(m.name.as_str());
                let mut full = c_name.clone();
                full.append("__");
                full.append(m_name.as_str());
                let ghost bview = FunctionV::Interpreted(
                    FnV {
                        n_regs: fnb.regs(),
                        n_params: fnb.params(),
                        return_: fnb.has_return(),
                        body: fnb.body(),
                        handlers: fnb.handler_maps(),
                    },
                );
                proof {
                    built_g = built_g.push(true);
                    views_g = views_g.push(bview);
                    assert(full@ == classname_key(c.class_type@) + "__"@ + name_key(
                        c.methods@[mi as int].name@,
                    ));
                    if c.methods@[mi as int].code is None {
                        assert(bview == empty_fn_view());
                    }
                }
                module.add_function(full, fnb.build());
                proof {
                    lemma_functions_registered_congruence(
                        base_fns,
                        c.class_type@,
                        c.methods@,
                        pre_b,
                        pre_v,
                        built_g,
                        views_g,
                        mi as int,
                    );
                    assert(module.functions_view() == functions_registered(
                        base_fns,
                        c.class_type@,
                        c.methods@,
                        built_g,
                        views_g,
                        mi + 1,
                    ));
                    assert(built_ok(c.methods@, built_g, views_g)) by {
                        assert forall|i: int|
                            #![trigger built_g[i]]
                            0 <= i < built_g.len() && c.methods@[i].code is None implies built_g[i]
                            && views_g[i] == empty_fn_view() by {
                            if i < pre_b.len() {
                                assert(built_g[i] == pre_b[i] && views_g[i] == pre_v[i]);
                            } else {
                                assert(built_g[i] == built_g[mi as int] && views_g[i] == views_g[mi as int]);
                            }
                        }
                    }
                }
            } else {
                proof {
                    built_g = built_g.push(false);
                    views_g = views_g.push(empty_fn_view());
                    lemma_functions_registered_congruence(
                        base_fns,
                        c.class_type@,
                        c.methods@,
                        pre_b,
                        pre_v,
                        built_g,
                        views_g,
                        mi as int,
                    );
                    assert(module.functions_view() == functions_registered(
                        base_fns,
                        c.class_type@,
                        c.methods@,
                        built_g,
                        views_g,
                        mi + 1,
                    ));
                    assert(built_ok(c.methods@, built_g, views_g)) by {
                        assert forall|i: int|
                            #![trigger built_g[i]]
                            0 <= i < built_g.len() && c.methods@[i].code is None implies built_g[i]
                            && views_g[i] == empty_fn_view() by {
                            if i < pre_b.len() {
                                assert(built_g[i] == pre_b[i] && views_g[i] == pre_v[i]);
                            } else {
                                assert(built_g[i] == built_g[mi as int] && views_g[i] == views_g[mi as int]);
                            }
                        }
                    }
                }
            }
            mi = mi + 1;
        }
        proof {
            assert(methods_choice(
                *c,
                old(module).functions_view(),
                module.functions_view(),
                built_g,
                views_g,
            ));
            assert(class_ingested(
                *c,
                old(module).globals(),
                old(module).functions_view(),
                module.globals(),
                module.functions_view(),
            ));
        }
    }
    Result::Ok(())
}

} // verus!
