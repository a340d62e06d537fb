use shellvm::chunk::Chunk;
use shellvm::exec::{ShiftOutcome, Stop};
use shellvm::opcode::{
    OP_ENDLIST, OP_STARTHASH, OP_STARTLIST, OP_STARTSET, OP_ADD, OP_CONSTANT, OP_DUP, OP_GETLOCALVAR, OP_JUMP, OP_JUMPNE, OP_LT, OP_RETURN, OP_SETLOCALVAR, OP_YIELD,
};
use shellvm::value::{GeneratorObject, StringTriple, Value};
use shellvm::vm::ErrorKind;
use shellvm::vm::VM;


fn bigint_text(v: &Value) -> String {
    match v {
        Value::BigInt(_) => v.to_string().unwrap_or_default(),
        _ => panic!("expected a bigint"),
    }
}

fn constant(c: &mut Chunk, v: Value) {
    let k = c.add_constant(v);
    c.add_opcode(OP_CONSTANT);
    c.add_byte((k >> 8) as u8);
    c.add_byte((k & 0xFF) as u8);
}

#[test]
fn bytecode_int_overflow_promotes() {
    let mut c = Chunk::new_standard("(main)".to_string());
    constant(&mut c, Value::Int(2147483647));
    constant(&mut c, Value::Int(1));
    c.add_opcode(OP_ADD);
    let mut vm = VM::new();
    assert!(vm.run_chunk(&c, 100) == Stop::End);
    assert_eq!(vm.stack.len(), 1);
    assert_eq!(bigint_text(&vm.stack[0]), "2147483648");
}

#[test]
fn generator_round_trip() {
    let mut c = Chunk::new_generator("g".to_string(), 0, 0);
    for n in 1..=3 {
        constant(&mut c, Value::Int(n));
        c.add_opcode(OP_YIELD);
    }
    c.add_opcode(OP_RETURN);
    let mut g = GeneratorObject::new(Vec::new(), 0, 0, Vec::new(), Vec::new());
    let mut vm = VM::new();
    for _ in 0..3 {
        assert!(vm.shift_generator(&mut g, &c, 100) == ShiftOutcome::Yielded);
    }
    assert!(vm.shift_generator(&mut g, &c, 100) == ShiftOutcome::Exhausted);
    assert!(vm.shift_generator(&mut g, &c, 100) == ShiftOutcome::Exhausted);
    assert!(matches!(vm.stack[0], Value::Int(1)));
    assert!(matches!(vm.stack[1], Value::Int(2)));
    assert!(matches!(vm.stack[2], Value::Int(3)));
    assert!(matches!(vm.stack[3], Value::Null));
    assert!(matches!(vm.stack[4], Value::Null));
    assert_eq!(vm.stack.len(), 5);
}

#[test]
fn generator_arguments_are_passed_once() {
    // The generator stores its argument in a local, then yields it on
    // every resume, adding one each time.
    let mut c = Chunk::new_generator("count".to_string(), 1, 1);
    c.add_opcode(OP_SETLOCALVAR);
    c.add_byte(0);
    let top = c.data.len();
    c.add_opcode(OP_GETLOCALVAR);
    c.add_byte(0);
    c.add_opcode(OP_DUP);
    constant(&mut c, Value::Int(1));
    c.add_opcode(OP_ADD);
    c.add_opcode(OP_SETLOCALVAR);
    c.add_byte(0);
    c.add_opcode(OP_YIELD);
    c.add_opcode(OP_JUMP);
    c.add_byte(0);
    c.add_byte(top as u8);
    let mut g = GeneratorObject::new(Vec::new(), 0, 0, Vec::new(), vec![Value::Int(10)]);
    let mut vm = VM::new();
    for _ in 0..3 {
        assert!(vm.shift_generator(&mut g, &c, 100) == ShiftOutcome::Yielded);
    }
    assert_eq!(g.gen_args.len(), 0);
    assert!(matches!(vm.stack[0], Value::Int(10)));
    assert!(matches!(vm.stack[1], Value::Int(11)));
    assert!(matches!(vm.stack[2], Value::Int(12)));
    assert_eq!(vm.stack.len(), 3);
}

#[test]
fn loops_run_until_the_condition_fails() {
    // i = 0; while i < 5 { i = i + 1 }; push i
    let mut c = Chunk::new_standard("(main)".to_string());
    constant(&mut c, Value::Int(0));
    c.add_opcode(OP_SETLOCALVAR);
    c.add_byte(0);
    let test = c.data.len();
    c.add_opcode(OP_GETLOCALVAR);
    c.add_byte(0);
    constant(&mut c, Value::Int(5));
    c.add_opcode(OP_LT);
    c.add_opcode(OP_JUMPNE);
    let patch = c.data.len();
    c.add_byte(0);
    c.add_byte(0);
    c.add_opcode(OP_GETLOCALVAR);
    c.add_byte(0);
    constant(&mut c, Value::Int(1));
    c.add_opcode(OP_ADD);
    c.add_opcode(OP_SETLOCALVAR);
    c.add_byte(0);
    c.add_opcode(OP_JUMP);
    c.add_byte(0);
    c.add_byte(test as u8);
    let end = c.data.len();
    c.data[patch + 1] = end as u8;
    c.add_opcode(OP_GETLOCALVAR);
    c.add_byte(0);
    let mut vm = VM::new();
    assert!(vm.run_chunk(&c, 1000) == Stop::End);
    assert!(matches!(vm.stack[vm.stack.len() - 1], Value::Int(5)));
    let mut vm = VM::new();
    assert!(vm.run_chunk(&c, 5) == Stop::OutOfFuel);
}

#[test]
fn failing_operations_stop_execution() {
    let mut c = Chunk::new_standard("(main)".to_string());
    c.add_opcode(OP_ADD);
    let mut vm = VM::new();
    assert!(vm.run_chunk(&c, 10) == Stop::Fail);
    assert!(vm.error.is_some());
}

#[test]
fn set_literal_rejects_mixed_types() {
    let mut c = Chunk::new_standard("(main)".to_string());
    c.add_opcode(OP_STARTSET);
    constant(&mut c, Value::Int(1));
    constant(&mut c, Value::String(StringTriple::new("x".to_string())));
    constant(&mut c, Value::Int(2));
    c.add_opcode(OP_ENDLIST);
    let mut vm = VM::new();
    assert!(vm.run_chunk(&c, 100) == Stop::Fail);
    assert!(vm.error.unwrap().kind == ErrorKind::Type);
}

#[test]
fn list_and_set_literals() {
    let mut c = Chunk::new_standard("(main)".to_string());
    constant(&mut c, Value::Int(9));
    c.add_opcode(OP_STARTLIST);
    constant(&mut c, Value::Int(1));
    c.add_opcode(OP_STARTSET);
    constant(&mut c, Value::Int(2));
    constant(&mut c, Value::Int(2));
    constant(&mut c, Value::Int(3));
    c.add_opcode(OP_ENDLIST);
    c.add_opcode(OP_ENDLIST);
    let mut vm = VM::new();
    assert!(vm.run_chunk(&c, 100) == Stop::End);
    assert_eq!(vm.stack.len(), 2);
    assert!(matches!(vm.stack[0], Value::Int(9)));
    match &vm.stack[1] {
        Value::List(l) => {
            assert_eq!(l.len(), 2);
            assert!(matches!(l[0], Value::Int(1)));
            match &l[1] {
                Value::ValueSet(es) => {
                    let keys: Vec<&str> = es.iter().map(|e| e.0.as_str()).collect();
                    assert_eq!(keys, vec!["2", "3"]);
                },
                _ => panic!("expected a set"),
            }
        },
        _ => panic!("expected a list"),
    }
}

#[test]
fn hash_literal_keeps_insertion_order() {
    let mut c = Chunk::new_standard("(main)".to_string());
    c.add_opcode(OP_STARTHASH);
    for (k, v) in [("b", 1), ("a", 2), ("b", 3)] {
        constant(&mut c, Value::String(StringTriple::new(k.to_string())));
        constant(&mut c, Value::Int(v));
    }
    c.add_opcode(OP_ENDLIST);
    let mut vm = VM::new();
    assert!(vm.run_chunk(&c, 100) == Stop::End);
    match &vm.stack[0] {
        Value::Hash(es) => {
            assert_eq!(es.len(), 2);
            assert_eq!(es[0].0, "b");
            assert!(matches!(es[0].1, Value::Int(3)));
            assert_eq!(es[1].0, "a");
            assert!(matches!(es[1].1, Value::Int(2)));
        },
        _ => panic!("expected a hash"),
    }
    let mut odd = Chunk::new_standard("(main)".to_string());
    odd.add_opcode(OP_STARTHASH);
    constant(&mut odd, Value::Int(1));
    odd.add_opcode(OP_ENDLIST);
    let mut vm = VM::new();
    assert!(vm.run_chunk(&odd, 100) == Stop::Fail);
}

#[test]
fn generators_run_on_their_own_stack() {
    let mut c = Chunk::new_generator("g".to_string(), 0, 0);
    constant(&mut c, Value::Int(5));
    constant(&mut c, Value::Int(6));
    c.add_opcode(OP_YIELD);
    constant(&mut c, Value::Int(7));
    c.add_opcode(OP_RETURN);
    let mut g = GeneratorObject::new(Vec::new(), 0, 0, Vec::new(), Vec::new());
    let mut vm = VM::new();
    vm.push_top(Value::Int(99));
    assert!(vm.shift_generator(&mut g, &c, 100) == ShiftOutcome::Yielded);
    assert_eq!(vm.stack.len(), 2);
    assert!(matches!(vm.stack[1], Value::Int(6)));
    assert!(vm.shift_generator(&mut g, &c, 100) == ShiftOutcome::Exhausted);
    assert_eq!(vm.stack.len(), 3);
    assert!(matches!(vm.stack[0], Value::Int(99)));
    assert!(matches!(vm.stack[2], Value::Null));
}
