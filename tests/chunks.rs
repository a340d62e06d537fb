use shellvm::chunk::Chunk;
use shellvm::opcode::{opcode_name, OP_ADD, OP_CALL, OP_CONSTANT, OP_GETLOCALVAR, OP_JUMPNEREQC};
use shellvm::vm::VM;
use shellvm::value::{StringTriple, Value};

fn bigint(n: i64) -> Value {
    match Value::String(StringTriple::new(format!("{}", n))).to_bigint() {
        Some(b) => Value::BigInt(b),
        None => panic!("not an integer"),
    }
}

fn bigint_text(v: &Value) -> String {
    match v {
        Value::BigInt(_) => v.to_string().unwrap_or_default(),
        _ => panic!("expected a bigint"),
    }
}

#[test]
fn constants_round_trip() {
    let mut c = Chunk::new_standard("(main)".to_string());
    assert_eq!(c.add_constant(Value::Int(5)), 0);
    let big = match Value::String(StringTriple::new("123456789012345678901".to_string())).to_bigint() {
        Some(b) => b,
        None => panic!("expected a bigint"),
    };
    assert_eq!(c.add_constant(Value::BigInt(big)), 1);
    assert_eq!(c.add_constant(Value::String(StringTriple::new("a\tb".to_string()))), 2);
    assert_eq!(c.add_constant(Value::Bool(true)), 3);
    assert!(matches!(c.get_constant(0), Value::Int(5)));
    assert_eq!(bigint_text(&c.get_constant(1)), "123456789012345678901");
    match c.get_constant(2) {
        Value::String(st) => {
            assert_eq!(st.string, "a\tb");
            assert_eq!(st.escaped_string, "a\\tb");
        },
        _ => panic!("expected a string"),
    }
    assert!(matches!(c.get_last_constant(), Value::Bool(true)));
    assert!(c.has_constant_int(0));
    assert!(!c.has_constant_int(1));
    assert_eq!(c.get_constant_int(0), 5);
    assert_eq!(c.get_constant_int(2), 0);
    assert!(matches!(c.get_constant_value(0), Value::Null));
    assert!(matches!(c.get_constant_value(-1), Value::Null));
}

#[test]
fn line_column_attribution() {
    let mut c = Chunk::new_standard("(main)".to_string());
    c.set_next_point(5, 1);
    c.add_opcode(10);
    c.set_next_point(5, 3);
    c.add_opcode(11);
    assert_eq!(c.get_point(0), Some((5, 1)));
    assert_eq!(c.get_point(1), Some((5, 3)));
    c.set_next_point(7, 2);
    c.add_opcode(12);
    c.add_byte(0);
    c.add_byte(1);
    c.set_next_point(8, 1);
    c.add_opcode(13);
    assert_eq!(c.get_point(2), Some((7, 2)));
    assert_eq!(c.get_point(3), Some((7, 2)));
    assert_eq!(c.get_point(4), Some((7, 2)));
    assert_eq!(c.get_point(5), Some((8, 1)));
    assert_eq!(c.get_point(6), None);
    c.set_previous_point(0, 9, 9);
    assert_eq!(c.get_point(0), Some((9, 9)));
}

#[test]
fn unset_points_are_none() {
    let mut c = Chunk::new_standard("f".to_string());
    c.add_opcode(1);
    c.add_opcode(2);
    c.set_next_point(3, 4);
    assert_eq!(c.get_point(0), None);
    assert_eq!(c.get_point(1), None);
    assert_eq!(c.get_point(2), Some((3, 4)));
}

#[test]
fn opcode_peek_and_poke() {
    let mut c = Chunk::new_generator("g".to_string(), 2, 1);
    assert!(c.is_generator);
    assert_eq!(c.arg_count, 2);
    assert_eq!(c.req_arg_count, 1);
    assert_eq!(c.get_second_last_opcode(), OP_CALL);
    assert_eq!(c.get_second_last_byte(), 0);
    for b in [1u8, 2, 3, 4] {
        c.add_opcode(b);
    }
    assert_eq!(c.get_last_opcode(), 4);
    assert_eq!(c.get_second_last_opcode(), 3);
    assert_eq!(c.get_third_last_opcode(), 2);
    assert_eq!(c.get_fourth_last_opcode(), 1);
    c.set_fourth_last_opcode(9);
    c.set_third_last_opcode(8);
    c.set_second_last_opcode(7);
    c.set_last_opcode(6);
    assert_eq!(c.data, vec![9, 8, 7, 6]);
    c.set_last_byte(1);
    c.set_second_last_byte(2);
    c.set_third_last_byte(3);
    assert_eq!(c.data, vec![9, 3, 2, 1]);
    assert_eq!(c.get_last_byte(), 1);
    assert_eq!(c.get_third_last_byte(), 3);
    c.pop_byte();
    assert_eq!(c.data, vec![9, 3, 2]);
}

#[test]
fn diagnostics_carry_the_point() {
    let mut c = Chunk::new_standard("(main)".to_string());
    c.set_next_point(3, 7);
    c.add_opcode(1);
    assert_eq!(c.error_text(0, "oops"), "3:7: oops");
    assert_eq!(c.error_text(5, "oops"), "oops");
    let mut f = Chunk::new_standard("lib.ch".to_string());
    f.set_next_point(12, 1);
    f.add_opcode(1);
    assert_eq!(f.error_text(0, "bad"), "lib.ch:12:1: bad");
}

#[test]
fn constants_feed_the_machine() {
    let mut c = Chunk::new_standard("(main)".to_string());
    c.add_constant(Value::Int(2147483647));
    c.add_constant(Value::Int(1));
    let mut vm = VM::new();
    vm.push_top(c.get_constant(0));
    vm.push_top(c.get_constant(1));
    assert_eq!(vm.opcode_add(), 1);
    assert_eq!(vm.stack.len(), 1);
    assert_eq!(bigint_text(&vm.stack[0]), "2147483648");
}

#[test]
fn disassembly_splits_instructions() {
    let mut c = Chunk::new_standard("(main)".to_string());
    for b in [OP_CONSTANT, 0, 1, OP_GETLOCALVAR, 3, OP_ADD, OP_JUMPNEREQC, 0, 9, 0, 2, 250, OP_CONSTANT, 0] {
        c.add_byte(b);
    }
    let ins = c.disassemble();
    let shape: Vec<(usize, u8, Vec<u8>)> = ins.iter().map(|i| (i.offset, i.opcode, i.operands.clone())).collect();
    assert_eq!(
        shape,
        vec![
            (0, OP_CONSTANT, vec![0, 1]),
            (3, OP_GETLOCALVAR, vec![3]),
            (5, OP_ADD, vec![]),
            (6, OP_JUMPNEREQC, vec![0, 9, 0, 2]),
            (11, 250, vec![]),
            (12, OP_CONSTANT, vec![0]),
        ]
    );
    assert_eq!(opcode_name(OP_ADD), "OP_ADD");
    assert_eq!(opcode_name(250), "(Unknown)");
}

#[test]
fn well_formedness_check_finds_bad_bigint_text() {
    let mut c = Chunk::new_standard("(main)".to_string());
    c.add_constant(bigint(123456789012));
    assert!(c.is_wf());
    c.constants.push(shellvm::chunk::ValueSD::BigInt("12x".to_string()));
    assert!(!c.is_wf());
}

#[test]
fn instruction_lines() {
    let mut c = Chunk::new_standard("(main)".to_string());
    c.add_constant(Value::String(StringTriple::new("hi".to_string())));
    for b in [OP_CONSTANT, 0, 0, OP_GETLOCALVAR, 3, OP_ADD, OP_JUMPNEREQC, 0, 9, 1, 2, OP_CONSTANT, 0, 7] {
        c.add_byte(b);
    }
    let lines: Vec<String> = c.disassemble().iter().map(|i| c.instruction_text(i)).collect();
    assert_eq!(
        lines,
        vec![
            "OP_CONSTANT \"hi\"".to_string(),
            "OP_GETLOCALVAR 3".to_string(),
            "OP_ADD".to_string(),
            "OP_JUMPNEREQC 9 258".to_string(),
            "OP_CONSTANT 7".to_string(),
        ]
    );
}
