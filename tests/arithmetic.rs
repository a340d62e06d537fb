use shellvm::arith::BinOp;
use shellvm::value::{StringTriple, Value};
use shellvm::vm::{ErrorKind, VM};

fn bigint(n: i64) -> Value {
    match Value::String(StringTriple::new(format!("{}", n))).to_bigint() {
        Some(b) => Value::BigInt(b),
        None => panic!("not an integer"),
    }
}

fn bigint_text(v: &Value) -> String {
    match v {
        Value::BigInt(_) => v.to_string().unwrap_or_default(),
        _ => panic!("expected a bigint"),
    }
}

fn text_of(v: &Value) -> String {
    match v.to_string() {
        Some(s) => s,
        None => panic!("value has no text"),
    }
}

fn run(below: Value, top: Value, op: BinOp) -> (i32, VM) {
    let mut vm = VM::new();
    vm.push_top(below);
    vm.push_top(top);
    let r = match op {
        BinOp::Add => vm.opcode_add(),
        BinOp::Sub => vm.opcode_subtract(),
        BinOp::Mul => vm.opcode_multiply(),
        BinOp::Div => vm.opcode_divide(),
        BinOp::Eq => vm.opcode_eq(),
        BinOp::Gt => vm.opcode_gt(),
        BinOp::Lt => vm.opcode_lt(),
    };
    (r, vm)
}

fn string(s: &str) -> Value {
    Value::String(StringTriple::new(s.to_string()))
}

#[test]
fn int_overflow_promotes_to_bigint() {
    let (r, vm) = run(Value::Int(2147483647), Value::Int(1), BinOp::Add);
    assert_eq!(r, 1);
    assert_eq!(vm.stack.len(), 1);
    assert_eq!(bigint_text(&vm.stack[0]), "2147483648");
}

#[test]
fn subtraction_and_multiplication_overflow() {
    let (_, vm) = run(Value::Int(-2147483648), Value::Int(1), BinOp::Sub);
    assert_eq!(bigint_text(&vm.stack[0]), "-2147483649");
    let (_, vm) = run(Value::Int(65536), Value::Int(65536), BinOp::Mul);
    assert_eq!(bigint_text(&vm.stack[0]), "4294967296");
}

#[test]
fn subtraction_takes_top_from_below() {
    let (_, vm) = run(Value::Int(10), Value::Int(3), BinOp::Sub);
    assert!(matches!(vm.stack[0], Value::Int(7)));
}

#[test]
fn division_rounds_toward_zero() {
    let (_, vm) = run(Value::Int(-7), Value::Int(2), BinOp::Div);
    assert!(matches!(vm.stack[0], Value::Int(-3)));
    let (_, vm) = run(Value::Int(7), Value::Int(2), BinOp::Div);
    assert!(matches!(vm.stack[0], Value::Int(3)));
}

#[test]
fn division_of_min_by_minus_one_promotes() {
    let (_, vm) = run(Value::Int(-2147483648), Value::Int(-1), BinOp::Div);
    assert_eq!(bigint_text(&vm.stack[0]), "2147483648");
}

#[test]
fn division_by_zero_is_an_arithmetic_error() {
    let (r, vm) = run(Value::Int(5), Value::Int(0), BinOp::Div);
    assert_eq!(r, 0);
    assert_eq!(vm.stack.len(), 0);
    assert!(vm.error.unwrap().kind == ErrorKind::Arithmetic);
    let (r, _) = run(bigint(5), bigint(0), BinOp::Div);
    assert_eq!(r, 0);
}

#[test]
fn bigint_results_that_fit_become_ints() {
    let big = match run(Value::Int(2147483647), Value::Int(1), BinOp::Add).1.stack.pop() {
        Some(v) => v,
        None => panic!("no result"),
    };
    let (_, vm) = run(big, Value::Int(1), BinOp::Sub);
    assert!(matches!(vm.stack[0], Value::Int(2147483647)));
}

#[test]
fn strings_are_coerced_to_numbers() {
    let (_, vm) = run(string("5"), Value::Int(3), BinOp::Add);
    assert!(matches!(vm.stack[0], Value::Int(8)));
    let (_, vm) = run(string("99999999999"), Value::Int(1), BinOp::Add);
    assert_eq!(text_of(&vm.stack[0]), "100000000000");
    assert!(matches!(vm.stack[0], Value::BigInt(_)));
    let (_, vm) = run(Value::Null, Value::Int(4), BinOp::Mul);
    assert!(matches!(vm.stack[0], Value::Int(0)));
}

#[test]
fn arithmetic_on_non_numbers_is_a_type_error() {
    let (r, vm) = run(string("abc"), Value::Int(1), BinOp::Add);
    assert_eq!(r, 0);
    assert!(vm.error.unwrap().kind == ErrorKind::Type);
    let (r, vm) = run(Value::List(Vec::new()), Value::Int(1), BinOp::Eq);
    assert_eq!(r, 0);
    assert!(vm.error.unwrap().kind == ErrorKind::Type);
}

#[test]
fn arithmetic_needs_two_operands() {
    let mut vm = VM::new();
    vm.push_top(Value::Int(1));
    assert_eq!(vm.opcode_add(), 0);
    assert_eq!(vm.stack.len(), 1);
    assert!(vm.error.unwrap().kind == ErrorKind::Arity);
}

#[test]
fn comparisons_push_zero_or_one() {
    assert!(matches!(run(Value::Int(3), Value::Int(3), BinOp::Eq).1.stack[0], Value::Int(1)));
    assert!(matches!(run(Value::Int(3), Value::Int(2), BinOp::Gt).1.stack[0], Value::Int(1)));
    assert!(matches!(run(Value::Int(3), Value::Int(2), BinOp::Lt).1.stack[0], Value::Int(0)));
    let big = bigint(7);
    assert!(matches!(run(big, Value::Int(7), BinOp::Eq).1.stack[0], Value::Int(1)));
    let big = bigint(7);
    assert!(matches!(run(Value::Int(8), big, BinOp::Gt).1.stack[0], Value::Int(1)));
}

#[test]
fn comparison_falls_back_to_text() {
    assert!(matches!(run(string("abc"), string("abc"), BinOp::Eq).1.stack[0], Value::Int(1)));
    assert!(matches!(run(string("abc"), string("abd"), BinOp::Lt).1.stack[0], Value::Int(1)));
    assert!(matches!(run(string("b"), string("abc"), BinOp::Gt).1.stack[0], Value::Int(1)));
    assert!(matches!(run(string("ab"), string("abc"), BinOp::Gt).1.stack[0], Value::Int(0)));
}
