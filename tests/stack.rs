use shellvm::value::{StringTriple, Value};
use shellvm::vm::{ErrorKind, VM};

fn ints(vm: &VM) -> Vec<i32> {
    vm.stack
        .iter()
        .map(|v| match v {
            Value::Int(n) => *n,
            _ => panic!("expected ints"),
        })
        .collect()
}

fn vm_with(ns: &[i32]) -> VM {
    let mut vm = VM::new();
    for n in ns {
        vm.push_top(Value::Int(*n));
    }
    vm
}

#[test]
fn drop_dup_over_swap_rot() {
    let mut vm = vm_with(&[1, 2, 3]);
    assert_eq!(vm.opcode_rot(), 1);
    assert_eq!(ints(&vm), vec![2, 3, 1]);
    assert_eq!(vm.opcode_swap(), 1);
    assert_eq!(ints(&vm), vec![2, 1, 3]);
    assert_eq!(vm.opcode_over(), 1);
    assert_eq!(ints(&vm), vec![2, 1, 3, 1]);
    assert_eq!(vm.opcode_dup(), 1);
    assert_eq!(ints(&vm), vec![2, 1, 3, 1, 1]);
    assert_eq!(vm.opcode_drop(), 1);
    assert_eq!(ints(&vm), vec![2, 1, 3, 1]);
    assert_eq!(vm.opcode_depth(), 1);
    assert_eq!(ints(&vm), vec![2, 1, 3, 1, 4]);
    assert_eq!(vm.opcode_clear(), 1);
    assert_eq!(vm.stack.len(), 0);
}

#[test]
fn shuffles_report_arity_errors() {
    let mut vm = vm_with(&[1, 2]);
    assert_eq!(vm.opcode_rot(), 0);
    assert_eq!(ints(&vm), vec![1, 2]);
    assert!(vm.error.as_ref().unwrap().kind == ErrorKind::Arity);
    let mut vm = VM::new();
    assert_eq!(vm.opcode_drop(), 0);
    assert_eq!(vm.opcode_dup(), 0);
    assert_eq!(vm.opcode_isnull(), 0);
    let mut vm = vm_with(&[1]);
    assert_eq!(vm.opcode_swap(), 0);
    assert_eq!(vm.opcode_over(), 0);
}

#[test]
fn type_predicates() {
    let mut vm = VM::new();
    vm.push_top(Value::Null);
    assert_eq!(vm.opcode_dupisnull(), 1);
    assert_eq!(vm.stack.len(), 2);
    assert!(matches!(vm.stack[1], Value::Bool(true)));
    vm.opcode_drop();
    vm.opcode_isnull();
    assert!(matches!(vm.stack[0], Value::Bool(true)));
    vm.opcode_islist();
    assert!(matches!(vm.stack[0], Value::Bool(false)));
    vm.opcode_is_bool();
    assert!(matches!(vm.stack[0], Value::Bool(true)));
    vm.opcode_clear();
    vm.push_top(Value::Int(1));
    vm.opcode_is_int();
    assert!(matches!(vm.stack[0], Value::Bool(true)));
    vm.opcode_clear();
    vm.push_top(Value::String(StringTriple::new("f".to_string())));
    vm.opcode_iscallable();
    assert!(matches!(vm.stack[0], Value::Bool(true)));
    vm.opcode_clear();
    vm.push_top(Value::Hash(Vec::new()));
    vm.opcode_is_hash();
    assert!(matches!(vm.stack[0], Value::Bool(true)));
    vm.opcode_clear();
    vm.push_top(Value::ValueSet(Vec::new()));
    vm.opcode_is_set();
    assert!(matches!(vm.stack[0], Value::Bool(true)));
    vm.opcode_clear();
    vm.push_top(Value::Int(1));
    vm.opcode_is_str();
    assert!(matches!(vm.stack[0], Value::Bool(false)));
    vm.opcode_clear();
    vm.push_top(Value::Int(1));
    vm.opcode_is_bigint();
    assert!(matches!(vm.stack[0], Value::Bool(false)));
}

#[test]
fn conversions() {
    let mut vm = VM::new();
    vm.push_top(Value::String(StringTriple::new("42".to_string())));
    vm.opcode_int();
    assert!(matches!(vm.stack[0], Value::Int(42)));
    vm.opcode_str();
    match &vm.stack[0] {
        Value::String(st) => assert_eq!(st.string, "42"),
        _ => panic!("expected a string"),
    }
    vm.opcode_bigint();
    match vm.stack[0].to_string() {
        Some(s) => assert_eq!(s, "42"),
        None => panic!("expected text"),
    }
    assert!(matches!(vm.stack[0], Value::BigInt(_)));
    vm.opcode_clear();
    vm.push_top(Value::String(StringTriple::new("12345678901234".to_string())));
    vm.opcode_int();
    assert!(matches!(vm.stack[0], Value::BigInt(_)));
    vm.opcode_clear();
    vm.push_top(Value::String(StringTriple::new("x".to_string())));
    vm.opcode_int();
    assert!(matches!(vm.stack[0], Value::Null));
    vm.opcode_clear();
    vm.push_top(Value::String(StringTriple::new("0.0".to_string())));
    vm.opcode_bool();
    assert!(matches!(vm.stack[0], Value::Bool(false)));
    vm.opcode_clear();
    vm.push_top(Value::List(Vec::new()));
    vm.opcode_str();
    assert!(matches!(vm.stack[0], Value::Null));
}

#[test]
fn len_of_list_and_string() {
    let mut vm = VM::new();
    vm.push_top(Value::List(vec![Value::Int(1), Value::Null]));
    assert_eq!(vm.core_len(), 1);
    assert!(matches!(vm.stack[0], Value::Int(2)));
    vm.opcode_clear();
    vm.push_top(Value::String(StringTriple::new("héllo".to_string())));
    vm.core_len();
    assert!(matches!(vm.stack[0], Value::Int(6)));
    vm.opcode_clear();
    vm.push_top(Value::Int(3));
    assert_eq!(vm.core_len(), 0);
    assert!(vm.error.unwrap().kind == ErrorKind::Type);
}

#[test]
fn chr_makes_a_character() {
    let mut vm = VM::new();
    vm.push_top(Value::Int(65));
    assert_eq!(vm.core_chr(), 1);
    match &vm.stack[0] {
        Value::String(st) => assert_eq!(st.string, "A"),
        _ => panic!("expected a string"),
    }
    vm.opcode_clear();
    vm.push_top(Value::Int(0xD800));
    assert_eq!(vm.core_chr(), 0);
    vm.push_top(Value::Int(-1));
    assert_eq!(vm.core_chr(), 0);
    assert!(vm.error.unwrap().kind == ErrorKind::Type);
}

#[test]
fn clone_opcode_keeps_the_value() {
    let mut vm = VM::new();
    vm.push_top(Value::List(vec![Value::Int(5)]));
    assert_eq!(vm.opcode_clone(), 1);
    match &vm.stack[0] {
        Value::List(l) => assert!(matches!(l[0], Value::Int(5))),
        _ => panic!("expected a list"),
    }
}

#[test]
fn hex_reads_ints_and_bigints() {
    let mut vm = VM::new();
    vm.push_top(Value::String(StringTriple::new("0xff".to_string())));
    assert_eq!(vm.core_hex(), 1);
    assert!(matches!(vm.stack[0], Value::Int(255)));
    vm.opcode_clear();
    vm.push_top(Value::String(StringTriple::new("-10".to_string())));
    vm.core_hex();
    assert!(matches!(vm.stack[0], Value::Int(-16)));
    vm.opcode_clear();
    vm.push_top(Value::String(StringTriple::new("0x100000000".to_string())));
    assert_eq!(vm.core_hex(), 1);
    assert!(matches!(vm.stack[0], Value::BigInt(_)));
    assert_eq!(vm.stack[0].to_string(), Some("4294967296".to_string()));
    vm.opcode_clear();
    vm.push_top(Value::String(StringTriple::new("xyz".to_string())));
    assert_eq!(vm.core_hex(), 0);
    assert!(vm.error.unwrap().kind == ErrorKind::Parse);
}

#[test]
fn ord_gives_the_code() {
    let mut vm = VM::new();
    vm.push_top(Value::String(StringTriple::new("é".to_string())));
    assert_eq!(vm.core_ord(), 1);
    assert!(matches!(vm.stack[0], Value::Int(233)));
    vm.opcode_clear();
    vm.push_top(Value::Int(7));
    assert_eq!(vm.core_ord(), 1);
    assert!(matches!(vm.stack[0], Value::Int(55)));
    vm.opcode_clear();
    vm.push_top(Value::String(StringTriple::new("ab".to_string())));
    assert_eq!(vm.core_ord(), 0);
    assert!(vm.error.unwrap().kind == ErrorKind::Type);
}
