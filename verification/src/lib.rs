//! A translator and interpreter for Android-style register bytecode.
//!
//! The crate turns a pre-parsed class pool into an in-memory `Module` of
//! functions over a tagged-value runtime, and executes those functions on a
//! register-based interpreter with structured exception handling.

use vstd::prelude::*;

pub mod callstack;
pub mod builder;
pub mod code;
pub mod control_flow;
pub mod decode;
pub mod dexfile;
pub mod errors;
pub mod formats;
pub mod function;
pub mod instructions;
pub mod interp;
pub mod machine;
pub mod module;
pub mod parser;
pub mod queue;
pub mod runtime;
pub mod std_env;
pub mod string_builder;
pub mod table;
pub mod text;

use dexfile::{ClassDefinition, DexFile};
use function::FunctionV;
use machine::GlobalsV;
use module::Module;

verus! {

/// Every link of the chain `gs`, `fs` is one class's step.
pub open spec fn chain_links(
    classes: Seq<ClassDefinition>,
    gs: Seq<GlobalsV>,
    fs: Seq<Map<Seq<char>, FunctionV>>,
) -> bool {
    forall|i: int|
        #![trigger gs[i]]
        0 <= i < gs.len() - 1 && i < classes.len() ==> parser::class_step(
            classes[i],
            gs[i],
            fs[i],
            gs[i + 1],
            fs[i + 1],
        )
}

/// The chain of module states an input's classes pass through: it starts at
/// the standard environment, each class makes one step, and it ends at the
/// given globals and function table.
pub open spec fn classes_ingested(
    classes: Seq<ClassDefinition>,
    gs: Seq<GlobalsV>,
    fs: Seq<Map<Seq<char>, FunctionV>>,
    g_end: GlobalsV,
    f_end: Map<Seq<char>, FunctionV>,
) -> bool {
    &&& gs.len() == classes.len() + 1
    &&& fs.len() == classes.len() + 1
    &&& gs[0] == std_env::std_globals()
    &&& fs[0] == std_env::std_functions()
    &&& chain_links(classes, gs, fs)
    &&& g_end == gs.last()
    &&& f_end == fs.last()
}

/// Take a parsed input file and build a module ready to be run: the standard
/// environment first, then every class of the file in order.
pub fn process(input: &DexFile) -> (m: Module)
    ensures
        m.wf(),
        m.spec_name() == "undexed"@,
        exists|gs: Seq<GlobalsV>, fs: Seq<Map<Seq<char>, FunctionV>>| #[trigger] classes_ingested(
            input.classes@,
            gs,
            fs,
            m.globals(),
            m.functions_view(),
        ),
{
    let mut module = Module::new("undexed".to_owned());
    std_env::add_all(&mut module);
    proof {
        assert(module.globals() =~~= std_env::std_globals());
        assert(module.functions_view() =~~= std_env::std_functions());
    }
    let ghost mut gs: Seq<GlobalsV> = seq![module.globals()];
    let ghost mut fs: Seq<Map<Seq<char>, FunctionV>> = seq![module.functions_view()];
    let mut i: usize = 0;
    #[verifier::loop_isolation(false)]
    while i < input.classes.len()
        invariant
            i <= input.classes@.len(),
            module.wf(),
            module.spec_name() == "undexed"@,
            gs.len() == i + 1,
            fs.len() == i + 1,
            gs[0] == std_env::std_globals(),
            fs[0] == std_env::std_functions(),
            chain_links(input.classes@, gs, fs),
            module.globals() == gs.last(),
            module.functions_view() == fs.last(),
        decreases input.classes@.len() - i,
    {
        let ghost g_pre = module.globals();
        let ghost f_pre = module.functions_view();
        let ghost pre_gs = gs;
        let ghost pre_fs = fs;
        let r = parser::parse_class(&input.classes[i], input, &mut module);
        proof {
            gs = gs.push(module.globals());
            fs = fs.push(module.functions_view());
            assert(parser::class_step(
                input.classes@[i as int],
                g_pre,
                f_pre,
                module.globals(),
                module.functions_view(),
            ));
            assert(chain_links(input.classes@, gs, fs)) by {
                assert forall|k: int|
                    0 <= k < gs.len() - 1 && k < input.classes@.len() implies parser::class_step(
                    input.classes@[k],
                    #[trigger] gs[k],
                    fs[k],
                    gs[k + 1],
                    fs[k + 1],
                ) by {
                    if k < pre_gs.len() - 1 {
                        assert(gs[k] == pre_gs[k] && gs[k + 1] == pre_gs[k + 1] && fs[k] == pre_fs[k]
                            && fs[k + 1] == pre_fs[k + 1]);
                    } else {
                        assert(gs[k] == pre_gs.last() && fs[k] == pre_fs.last());
                        assert(gs[k + 1] == module.globals() && fs[k + 1]
                            == module.functions_view());
                    }
                }
            }
        }
        i = i + 1;
    }
    proof {
        assert(classes_ingested(
            input.classes@,
            gs,
            fs,
            module.globals(),
            module.functions_view(),
        ));
    }
    module
}

} // verus!
