use shellvm::value::{Ipv4Net, StringTriple, Value};
use shellvm::vm::{ErrorKind, VM};


fn bigint_text(v: &Value) -> String {
    match v {
        Value::BigInt(_) => v.to_string().unwrap_or_default(),
        _ => panic!("expected a bigint"),
    }
}

fn ip_of(s: &str) -> (i32, VM) {
    let mut vm = VM::new();
    vm.push_top(Value::String(StringTriple::new(s.to_string())));
    let r = vm.core_ip();
    (r, vm)
}

fn top_text(vm: &VM) -> String {
    match &vm.stack[vm.stack.len() - 1] {
        Value::String(st) => st.string.clone(),
        Value::BigInt(_) => bigint_text(&vm.stack[vm.stack.len() - 1]),
        Value::Int(n) => format!("{}", n),
        _ => panic!("unexpected value"),
    }
}

#[test]
fn ip_parsing_and_length() {
    let (r, mut vm) = ip_of("10.0.0.0/8");
    assert_eq!(r, 1);
    assert_eq!(vm.core_ip_len(), 1);
    assert!(matches!(vm.stack[0], Value::Int(8)));
    let (r, mut vm) = ip_of("10.0.0.0-10.0.0.3");
    assert_eq!(r, 1);
    assert_eq!(vm.core_ip_size(), 1);
    assert!(matches!(vm.stack[0], Value::BigInt(_)));
    assert_eq!(top_text(&vm), "4");
}

#[test]
fn range_length() {
    let (_, mut vm) = ip_of("10.0.0.0-10.0.0.3");
    assert_eq!(vm.core_ip_len(), 1);
    assert!(matches!(vm.stack[0], Value::Int(30)));
    let (_, mut vm) = ip_of("10.0.0.0-10.0.0.4");
    assert_eq!(vm.core_ip_len(), 0);
    assert!(vm.error.unwrap().kind == ErrorKind::Parse);
    let (_, mut vm) = ip_of("0.0.0.0-255.255.255.255");
    vm.core_ip_len();
    assert!(matches!(vm.stack[0], Value::Int(0)));
}

#[test]
fn ip_text_forms() {
    for s in ["192.168.1.1", "10.0.0.0/8", "10.0.0.1-10.0.0.9", "::1", "2001:db8::/32", "::1-::5"] {
        let (r, mut vm) = ip_of(s);
        assert_eq!(r, 1, "{}", s);
        assert_eq!(vm.core_ip_to_string(), 1);
        assert_eq!(top_text(&vm), s);
    }
    match Value::Ipv4(Ipv4Net { addr: 0x0A000001, prefix: 32 }).to_string() {
        Some(t) => assert_eq!(t, "10.0.0.1"),
        None => panic!("expected text"),
    }
}

#[test]
fn ip_rejects_bad_input() {
    for s in ["10.0.0.1/8", "10.0.0.5-10.0.0.1", "1.2.3.4-1.2.3.5-1.2.3.6", "300.1.1.1", "::1/129", "nonsense"] {
        let (r, vm) = ip_of(s);
        assert_eq!(r, 0, "{}", s);
        assert!(vm.error.unwrap().kind == ErrorKind::Parse);
    }
    let mut vm = VM::new();
    vm.push_top(Value::List(Vec::new()));
    assert_eq!(vm.core_ip(), 0);
    assert!(vm.error.unwrap().kind == ErrorKind::Type);
}

#[test]
fn ip_addresses_and_sizes() {
    let (_, mut vm) = ip_of("10.1.0.0/16");
    vm.opcode_dup();
    vm.opcode_dup();
    vm.opcode_dup();
    vm.opcode_dup();
    vm.opcode_dup();
    vm.core_ip_last_addr();
    assert_eq!(top_text(&vm), "10.1.255.255");
    vm.opcode_drop();
    vm.core_ip_last_addr_int();
    assert_eq!(top_text(&vm), "167903231");
    vm.opcode_drop();
    vm.core_ip_addr_int();
    assert_eq!(top_text(&vm), "167837696");
    vm.opcode_drop();
    vm.core_ip_addr();
    assert_eq!(top_text(&vm), "10.1.0.0");
    vm.opcode_drop();
    vm.core_ip_size();
    assert_eq!(top_text(&vm), "65536");
    vm.opcode_drop();
    vm.core_ip_version();
    assert!(matches!(vm.stack[0], Value::Int(4)));
    let (_, mut vm) = ip_of("::/0");
    vm.core_ip_size();
    assert_eq!(top_text(&vm), "340282366920938463463374607431768211456");
    let (_, mut vm) = ip_of("2001:db8::/126");
    vm.opcode_dup();
    vm.core_ip_last_addr();
    assert_eq!(top_text(&vm), "2001:db8::3");
    vm.opcode_drop();
    vm.core_ip_version();
    assert!(matches!(vm.stack[0], Value::Int(6)));
}

#[test]
fn ip_from_int() {
    let mut vm = VM::new();
    vm.push_top(Value::Int(4));
    vm.push_top(Value::Int(167772161));
    assert_eq!(vm.core_ip_from_int(), 1);
    vm.core_ip_to_string();
    assert_eq!(top_text(&vm), "10.0.0.1");
    let mut vm = VM::new();
    vm.push_top(Value::Int(6));
    vm.push_top(Value::Int(1));
    assert_eq!(vm.core_ip_from_int(), 1);
    vm.core_ip_to_string();
    assert_eq!(top_text(&vm), "::1");
    let mut vm = VM::new();
    vm.push_top(Value::Int(5));
    vm.push_top(Value::Int(1));
    assert_eq!(vm.core_ip_from_int(), 0);
    let mut vm = VM::new();
    vm.push_top(Value::Int(4));
    vm.push_top(Value::Int(-1));
    assert_eq!(vm.core_ip_from_int(), 0);
    assert!(vm.error.unwrap().kind == ErrorKind::Parse);
}

#[test]
fn ip_operations_need_an_ip_object() {
    let mut vm = VM::new();
    vm.push_top(Value::Int(1));
    assert_eq!(vm.core_ip_version(), 0);
    assert!(vm.error.unwrap().kind == ErrorKind::Type);
    let mut vm = VM::new();
    assert_eq!(vm.core_ip_len(), 0);
    assert!(vm.error.unwrap().kind == ErrorKind::Arity);
}

#[test]
fn range_ends_are_trimmed() {
    let (r, mut vm) = ip_of("10.0.0.1 - 10.0.0.4");
    assert_eq!(r, 1);
    vm.core_ip_to_string();
    assert_eq!(top_text(&vm), "10.0.0.1-10.0.0.4");
}

#[test]
fn ip_from_large_int() {
    let mut vm = VM::new();
    vm.push_top(Value::Int(6));
    vm.push_top(Value::String(StringTriple::new("42540766411282592856903984951653826561".to_string())));
    assert_eq!(vm.core_ip_from_int(), 1);
    vm.core_ip_to_string();
    assert_eq!(top_text(&vm), "2001:db8::1");
    let mut vm = VM::new();
    vm.push_top(Value::Int(4));
    vm.push_top(Value::String(StringTriple::new("4294967296".to_string())));
    assert_eq!(vm.core_ip_from_int(), 0);
}
