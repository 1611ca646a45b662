use std::rc::Rc;

use aar::builder::FunctionBuilder;
use aar::callstack::CallStack;
use aar::errors::RuntimeError;
use aar::function::HandlerTable;
use aar::instructions::{
    BinOpKind, BinOpLitKind, GetPutKind, InvokeKind, LiteralValue, ReturnType,
};
use aar::module::Module;
use aar::runtime::{string_from_instance, InvokeResult, Value};
use aar::table::Table;

fn new_module() -> Module {
    Module::new("t".to_owned())
}

#[test]
fn addition_of_two_parameters() {
    let mut m = new_module();
    let mut fnb = FunctionBuilder::new();
    fnb.set_n_regs(3);
    fnb.set_n_params(2);
    fnb.set_return(true);
    fnb.bin_op_2_addr(BinOpKind::AddInt, 1, 2);
    fnb.return_v(ReturnType::Single(1));
    m.add_function("CLASS_M__add".to_owned(), fnb.build());
    let r = m.run("CLASS_M__add", vec![Value::U32(2), Value::U32(3)]);
    match r {
        InvokeResult::Okay(Value::U32(v)) => assert_eq!(v, 5),
        _ => panic!("unexpected result"),
    }
}

#[test]
fn wrapping_addition() {
    let mut m = new_module();
    let mut fnb = FunctionBuilder::new();
    fnb.set_n_regs(3);
    fnb.set_n_params(2);
    fnb.set_return(true);
    fnb.bin_op_2_addr(BinOpKind::AddInt, 1, 2);
    fnb.return_v(ReturnType::Single(1));
    m.add_function("CLASS_M__add".to_owned(), fnb.build());
    let r = m.run("CLASS_M__add", vec![Value::U32(i32::MAX), Value::U32(1)]);
    match r {
        InvokeResult::Okay(Value::U32(v)) => assert_eq!(v, i32::MIN),
        _ => panic!("unexpected result"),
    }
}

fn div_method(with_handler: bool) -> aar::function::Function {
    let mut fnb = FunctionBuilder::new();
    fnb.set_n_regs(2);
    fnb.set_n_params(1);
    fnb.set_return(true);
    if with_handler {
        fnb.set_next_handler(Some(0));
    }
    fnb.bin_op_lit(BinOpLitKind::DivInt, 0, 1, 0);
    fnb.return_v(ReturnType::Single(0));
    fnb.label(9);
    fnb.const_set(0, LiteralValue::Lit(-1));
    fnb.return_v(ReturnType::Single(0));
    if with_handler {
        let mut h: HandlerTable = Table::new();
        h.insert("Ljava/lang/ArithmeticException;".to_owned(), 9);
        fnb.set_handlers(vec![h]);
    }
    fnb.build()
}

#[test]
fn division_by_zero_is_caught_by_the_handler() {
    let mut m = new_module();
    m.add_function("CLASS_M__div".to_owned(), div_method(true));
    let r = m.run("CLASS_M__div", vec![Value::U32(10)]);
    match r {
        InvokeResult::Okay(Value::U32(v)) => assert_eq!(v, -1),
        _ => panic!("unexpected result"),
    }
}

#[test]
fn division_by_zero_without_a_handler_escapes() {
    let mut m = new_module();
    m.add_function("CLASS_M__div".to_owned(), div_method(false));
    let r = m.run("CLASS_M__div", vec![Value::U32(10)]);
    match r {
        InvokeResult::Exception(e, _stack) => {
            assert_eq!(e.get_class_type().as_str(), "Ljava/lang/ArithmeticException;");
        }
        _ => panic!("unexpected result"),
    }
}

#[test]
fn statics_round_trip_between_runs() {
    let mut m = new_module();
    let mut set_x = FunctionBuilder::new();
    set_x.set_n_regs(1);
    set_x.set_n_params(1);
    set_x.static_put(GetPutKind::Single, 0, "CLASS_M__X".to_owned());
    set_x.return_v(ReturnType::Void);
    m.add_function("SetX".to_owned(), set_x.build());
    let mut get_x = FunctionBuilder::new();
    get_x.set_n_regs(1);
    get_x.set_n_params(0);
    get_x.set_return(true);
    get_x.static_get(GetPutKind::Single, 0, "CLASS_M__X".to_owned());
    get_x.return_v(ReturnType::Single(0));
    m.add_function("GetX".to_owned(), get_x.build());
    m.add_static("CLASS_M__X".to_owned());
    match m.run("SetX", vec![Value::U32(7)]) {
        InvokeResult::Okay(Value::Void) => {}
        _ => panic!("set failed"),
    }
    match m.run("GetX", vec![]) {
        InvokeResult::Okay(Value::U32(v)) => assert_eq!(v, 7),
        _ => panic!("get failed"),
    }
}

#[test]
fn string_literal_prints_and_returns_void() {
    let mut m = new_module();
    aar::std_env::add_all(&mut m);
    let mut f = FunctionBuilder::new();
    f.set_n_regs(2);
    f.set_n_params(0);
    f.const_set(1, LiteralValue::String("hi".to_owned()));
    f.invoke(
        InvokeKind::Static,
        "CLASS_java__io__PrintStream__println".to_owned(),
        2,
        [0, 1, 0, 0, 0],
    );
    f.return_v(ReturnType::Void);
    m.add_function("CLASS_M__p".to_owned(), f.build());
    match m.run("CLASS_M__p", vec![]) {
        InvokeResult::Okay(Value::Void) => {}
        _ => panic!("println method failed"),
    }
}

#[test]
fn invoking_an_unregistered_name_reports_it_with_the_caller() {
    let mut m = new_module();
    let mut f = FunctionBuilder::new();
    f.set_n_regs(1);
    f.set_n_params(0);
    f.invoke(InvokeKind::Static, "nope".to_owned(), 0, [0, 0, 0, 0, 0]);
    f.return_v(ReturnType::Void);
    m.add_function("CLASS_M__caller".to_owned(), f.build());
    match m.run("CLASS_M__caller", vec![]) {
        InvokeResult::RuntimeError(res) => {
            assert_eq!(
                res.error,
                RuntimeError::InvokeOnNonExistingFunction("nope".to_owned())
            );
            let trace = res.finalize();
            assert!(trace.contains("in \"nope\""));
            assert!(trace.contains("in \"CLASS_M__caller\""));
            assert!(trace.contains("in \"root\""));
        }
        _ => panic!("unexpected result"),
    }
}

#[test]
fn constant_load_then_return_yields_the_constant() {
    let mut m = new_module();
    let mut f = FunctionBuilder::new();
    f.set_n_regs(1);
    f.set_n_params(0);
    f.set_return(true);
    f.const_set(0, LiteralValue::Lit(42));
    f.return_v(ReturnType::Single(0));
    m.add_function("k".to_owned(), f.build());
    match m.run("k", vec![]) {
        InvokeResult::Okay(Value::U32(v)) => assert_eq!(v, 42),
        _ => panic!("unexpected result"),
    }
}

#[test]
fn string_literal_reads_back_as_its_characters() {
    let mut m = new_module();
    let mut f = FunctionBuilder::new();
    f.set_n_regs(1);
    f.set_n_params(0);
    f.set_return(true);
    f.const_set(0, LiteralValue::String("hi".to_owned()));
    f.return_v(ReturnType::Object(0));
    m.add_function("s".to_owned(), f.build());
    match m.run("s", vec![]) {
        InvokeResult::Okay(Value::Instance(id)) => {
            assert!(id < m.store_len());
            let inst = m.store_read(id);
            assert_eq!(inst.get_class_type().as_str(), "java_lang_string");
            assert_eq!(string_from_instance(inst), Some("hi".to_owned()));
        }
        _ => panic!("unexpected result"),
    }
}

#[test]
fn wrong_parameter_count_is_reported() {
    let mut m = new_module();
    let mut f = FunctionBuilder::new();
    f.set_n_regs(3);
    f.set_n_params(2);
    f.return_v(ReturnType::Void);
    m.add_function("f".to_owned(), f.build());
    match m.run("f", vec![Value::U32(1)]) {
        InvokeResult::RuntimeError(res) => {
            assert_eq!(res.error, RuntimeError::WrongNumberOfParameters(2, 1));
        }
        _ => panic!("unexpected result"),
    }
}

#[test]
fn register_out_of_bounds_is_fatal() {
    let mut m = new_module();
    let mut f = FunctionBuilder::new();
    f.set_n_regs(1);
    f.set_n_params(0);
    f.set_return(true);
    f.return_v(ReturnType::Single(5));
    m.add_function("f".to_owned(), f.build());
    match m.run("f", vec![]) {
        InvokeResult::RuntimeError(res) => {
            assert_eq!(res.error, RuntimeError::RegisterOutOfBounds);
        }
        _ => panic!("unexpected result"),
    }
}

#[test]
fn goto_without_a_label_is_a_bad_jump() {
    let mut m = new_module();
    let mut f = FunctionBuilder::new();
    f.set_n_regs(1);
    f.set_n_params(0);
    f.goto(3);
    f.return_v(ReturnType::Void);
    m.add_function("f".to_owned(), f.build());
    match m.run("f", vec![]) {
        InvokeResult::RuntimeError(res) => {
            assert_eq!(res.error, RuntimeError::BadJumpTarget);
        }
        _ => panic!("unexpected result"),
    }
}

#[test]
fn fill_array_data_fills_and_indexes() {
    let mut m = new_module();
    let mut f = FunctionBuilder::new();
    f.set_n_regs(3);
    f.set_n_params(0);
    f.set_return(true);
    f.fill_array_data(0, 1, vec![7, 8, 9]).unwrap();
    f.const_set(1, LiteralValue::Lit(2));
    f.array_get(GetPutKind::Single, 2, 0, 1);
    f.return_v(ReturnType::Single(2));
    m.add_function("f".to_owned(), f.build());
    match m.run("f", vec![]) {
        InvokeResult::Okay(Value::U32(v)) => assert_eq!(v, 9),
        _ => panic!("unexpected result"),
    }
}

#[test]
fn instance_fields_are_shared_by_handle() {
    let mut m = new_module();
    let mut f = FunctionBuilder::new();
    // r0 = new instance; r1 = 5; r0.x = r1; r2 = r0.x; return r2
    f.set_n_regs(3);
    f.set_n_params(0);
    f.set_return(true);
    f.new_instance(0, 0);
    f.const_set(1, LiteralValue::Lit(5));
    f.instance_put(GetPutKind::Single, 1, 0, "x".to_owned());
    f.instance_get(GetPutKind::Single, 2, 0, "x".to_owned());
    f.return_v(ReturnType::Single(2));
    m.add_function("f".to_owned(), f.build());
    match m.run("f", vec![]) {
        InvokeResult::Okay(Value::U32(v)) => assert_eq!(v, 5),
        _ => panic!("unexpected result"),
    }
}

#[test]
fn values_convert_to_singles() {
    assert_eq!(Value::Void.to_single(), 0);
    assert_eq!(Value::Char('A').to_single(), 65);
    assert_eq!(Value::U32(-3).to_single(), -3);
    assert_eq!(Value::U64(0x1_0000_0002).to_single(), 2);
    assert_eq!(Value::Instance(7).to_single(), 1);
    assert_eq!(Value::Array(vec![]).to_single(), 1);
}

#[test]
fn call_stack_renders_innermost_first() {
    let root = Rc::new(CallStack::root());
    let one = Rc::new(CallStack::extend("f".to_owned(), root));
    let s = one.finalize();
    assert_eq!(s, "\tin \"f\"\n\tin \"root\"");
}
