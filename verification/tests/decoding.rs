use aar::builder::FunctionBuilder;
use aar::code::generate_code;
use aar::decode::{parse_instruction, InstrArgs};
use aar::dexfile::{Code, DexFile, EncodedMethod};
use aar::module::Module;
use aar::parser::ParserError;
use aar::queue::InstructionQueue;
use aar::runtime::{InvokeResult, Value};

fn code_of(units: Vec<u16>) -> Code {
    Code { registers_size: 3, insns: units, tries: vec![] }
}

fn empty_dex() -> DexFile {
    DexFile { classes: vec![], strings: vec![], methods: vec![], fields: vec![] }
}

#[test]
fn const4_and_return_decode() {
    // const/4 v0, #5 then return v0.
    let code = code_of(vec![0x5012, 0x000f]);
    let mut q = InstructionQueue::new(&code);
    let first = parse_instruction(&mut q).unwrap();
    assert_eq!(first.op, 0x12);
    match first.args {
        InstrArgs::A11n(n) => {
            assert_eq!(n.0, 0);
            assert_eq!(n.1, 5);
        }
        _ => panic!("wrong shape"),
    }
    let second = parse_instruction(&mut q).unwrap();
    assert_eq!(second.op, 0x0f);
    match second.args {
        InstrArgs::A11x(x) => assert_eq!(x.0, 0),
        _ => panic!("wrong shape"),
    }
    match parse_instruction(&mut q) {
        Err(ParserError::EOF) => {}
        _ => panic!("expected the end of the stream"),
    }
}

#[test]
fn const16_header_round_trips() {
    // const/16 v1, 0x1234: units 0x0113 and 0x1234, bytes 13 01 34 12.
    let code = code_of(vec![0x0113, 0x1234]);
    let mut q = InstructionQueue::new(&code);
    let ins = parse_instruction(&mut q).unwrap();
    assert_eq!(ins.op, 0x13);
    match ins.args {
        InstrArgs::A21s(a) => {
            assert_eq!(a.0, 1);
            assert_eq!(a.1, 0x1234);
            // Naive re-serialisation recovers the original bytes.
            let lit = a.1 as u16;
            let bytes = [ins.op, a.0, (lit & 0xff) as u8, (lit >> 8) as u8];
            assert_eq!(bytes, [0x13, 0x01, 0x34, 0x12]);
        }
        _ => panic!("wrong shape"),
    }
}

#[test]
fn truncated_instruction_is_a_decoder_fault() {
    // An add-int/2addr opcode byte with its operand byte, then a const/16
    // header whose literal is cut off.
    let code = code_of(vec![0x21b0, 0x0113]);
    let mut q = InstructionQueue::new(&code);
    parse_instruction(&mut q).unwrap();
    match parse_instruction(&mut q) {
        Err(ParserError::Truncated) => {}
        r => panic!("expected a truncation fault, got {:?}", r),
    }
}

#[test]
fn generated_code_runs_end_to_end() {
    // add-int/2addr v1, v2 then return v1, built from raw code units.
    let code = code_of(vec![0x21b0, 0x010f]);
    let m = EncodedMethod {
        name: "add".to_owned(),
        is_static: true,
        param_count: 2,
        return_type: "I".to_owned(),
        code: None,
    };
    let dex = empty_dex();
    let mut fnb = FunctionBuilder::new();
    generate_code(&code, &m, "CLASS_M", &dex, &mut fnb).unwrap();
    let mut module = Module::new("t".to_owned());
    module.add_function("CLASS_M__add".to_owned(), fnb.build());
    match module.run("CLASS_M__add", vec![Value::U32(20), Value::U32(3)]) {
        InvokeResult::Okay(Value::U32(v)) => assert_eq!(v, 23),
        r => panic!("unexpected result {:?}", r),
    }
}

#[test]
fn too_many_parameters_for_the_registers_is_refused() {
    let code = Code { registers_size: 1, insns: vec![0x000e], tries: vec![] };
    let m = EncodedMethod {
        name: "f".to_owned(),
        is_static: true,
        param_count: 2,
        return_type: "V".to_owned(),
        code: None,
    };
    let dex = empty_dex();
    let mut fnb = FunctionBuilder::new();
    match generate_code(&code, &m, "CLASS_M", &dex, &mut fnb) {
        Err(ParserError::BadRegisterCount) => {}
        r => panic!("expected a register-count fault, got {:?}", r),
    }
}

#[test]
fn module_dump_names_the_module_and_its_functions() {
    let mut module = Module::new("t".to_owned());
    let mut fnb = FunctionBuilder::new();
    fnb.set_n_regs(1);
    fnb.return_v(aar::instructions::ReturnType::Void);
    module.add_function("f".to_owned(), fnb.build());
    module.add_static("s".to_owned());
    let dump = module.build_ir();
    assert!(dump.contains("ModuleId = \"t\";"));
    assert!(dump.contains("static \"s\";"));
    assert!(dump.contains("func \"f\""));
    assert!(dump.contains("\treturn"));
}
