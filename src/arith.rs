use vstd::prelude::*;
use crate::bignum::{BigNum, fits_i32, trunc_div, big_from_i32, big_to_i32, big_add, big_sub, big_mul, big_div, big_cmp};
use crate::value::{Value, VView};
use crate::vm::{VM, ErrorKind};

verus! {

/// The binary arithmetic and comparison operators.
#[derive(Clone, Copy, PartialEq, Eq, Structural)]
pub enum BinOp {
    Add,
    Sub,
    Mul,
    Div,
    Eq,
    Gt,
    Lt,
}

/// What a binary operator does: push a value, or fail with an error.
pub enum Outcome {
    Push(VView),
    Fail(ErrorKind),
}

/// An integer as a value: an int where it fits in one, else a bigint.
pub open spec fn int_value(v: int) -> VView {
    if fits_i32(v) {
        VView::Int(v as i32)
    } else {
        VView::BigInt(v)
    }
}

pub open spec fn numeric(v: VView) -> Option<int> {
    match v {
        VView::Int(n) => Some(n as int),
        VView::BigInt(n) => Some(n),
        _ => None,
    }
}

/// The integers the promotion ladder takes for two operands: their own
/// values when both are numbers, else their conversions to i32, else their
/// conversions to integers of any size.
pub open spec fn operand_pair(top: VView, below: VView) -> Option<(int, int)> {
    if numeric(top).is_some() && numeric(below).is_some() {
        Some((numeric(below).unwrap(), numeric(top).unwrap()))
    } else if top.int_of().is_some() && below.int_of().is_some() {
        Some((below.int_of().unwrap() as int, top.int_of().unwrap() as int))
    } else if top.bigint_of().is_some() && below.bigint_of().is_some() {
        Some((below.bigint_of().unwrap(), top.bigint_of().unwrap()))
    } else {
        None
    }
}

/// Lexicographic order of texts, character by character.
pub open spec fn text_lt(a: Seq<char>, b: Seq<char>) -> bool
    decreases a.len(),
{
    if b.len() == 0 {
        false
    } else if a.len() == 0 {
        true
    } else if a[0] != b[0] {
        a[0] < b[0]
    } else {
        text_lt(a.drop_first(), b.drop_first())
    }
}

pub open spec fn flag(b: bool) -> VView {
    if b {
        VView::Int(1)
    } else {
        VView::Int(0)
    }
}

/// The outcome of `below op top`, where `top` was on top of the stack.
pub open spec fn arith_outcome(op: BinOp, top: VView, below: VView) -> Outcome {
    match operand_pair(top, below) {
        Some((a, b)) => match op {
            BinOp::Add => Outcome::Push(int_value(a + b)),
            BinOp::Sub => Outcome::Push(int_value(a - b)),
            BinOp::Mul => Outcome::Push(int_value(a * b)),
            BinOp::Div => if b == 0 {
                Outcome::Fail(ErrorKind::Arithmetic)
            } else {
                Outcome::Push(int_value(trunc_div(a, b)))
            },
            BinOp::Eq => Outcome::Push(flag(a == b)),
            BinOp::Gt => Outcome::Push(flag(a > b)),
            BinOp::Lt => Outcome::Push(flag(a < b)),
        },
        None => match (op, below.text_of(), top.text_of()) {
            (BinOp::Eq, Some(x), Some(y)) => Outcome::Push(flag(x == y)),
            (BinOp::Gt, Some(x), Some(y)) => Outcome::Push(flag(text_lt(y, x))),
            (BinOp::Lt, Some(x), Some(y)) => Outcome::Push(flag(text_lt(x, y))),
            _ => Outcome::Fail(ErrorKind::Type),
        },
    }
}

/// The exact result of an arithmetic operator on two integers.
pub open spec fn exact(op: BinOp, a: int, b: int) -> int {
    match op {
        BinOp::Add => a + b,
        BinOp::Sub => a - b,
        BinOp::Mul => a * b,
        _ => trunc_div(a, b),
    }
}

/// Arithmetic on two ints whose exact result does not fit in an i32 gives
/// a bigint holding the exact result.
pub proof fn lemma_int_overflow_promotes(op: BinOp, below: i32, top: i32)
    requires
        op is Add || op is Sub || op is Mul || (op is Div && top != 0),
        !fits_i32(exact(op, below as int, top as int)),
    ensures
        arith_outcome(op, VView::Int(top), VView::Int(below))
            == Outcome::Push(VView::BigInt(exact(op, below as int, top as int))),
{
}

/// Operands as the promotion ladder takes them.
enum Operands {
    Ints(i32, i32),
    Bigs(BigNum, BigNum),
    Neither,
}

spec fn operands_value(o: Operands) -> Option<(int, int)> {
    match o {
        Operands::Ints(a, b) => Some((a as int, b as int)),
        Operands::Bigs(a, b) => Some((a.value(), b.value())),
        Operands::Neither => None,
    }
}

fn take_operands(top: &Value, below: &Value) -> (r: Operands)
    ensures
        operands_value(r) == operand_pair(top.view(), below.view()),
{
    match (below, top) {
        (Value::Int(a), Value::Int(b)) => Operands::Ints(*a, *b),
        (Value::Int(a), Value::BigInt(b)) => Operands::Bigs(big_from_i32(*a), b.copy()),
        (Value::BigInt(a), Value::Int(b)) => Operands::Bigs(a.copy(), big_from_i32(*b)),
        (Value::BigInt(a), Value::BigInt(b)) => Operands::Bigs(a.copy(), b.copy()),
        _ => {
            match (below.to_int(), top.to_int()) {
                (Some(a), Some(b)) => Operands::Ints(a, b),
                _ => match (below.to_bigint(), top.to_bigint()) {
                    (Some(a), Some(b)) => Operands::Bigs(a, b),
                    _ => Operands::Neither,
                },
            }
        },
    }
}

/// An integer of any size as a value: an int where it fits.
pub fn normalize(b: BigNum) -> (r: Value)
    ensures
        r.view() == int_value(b.value()),
{
    match big_to_i32(&b) {
        Some(n) => Value::Int(n),
        None => Value::BigInt(b),
    }
}

/// The sum of two i32s, promoted to a bigint where it does not fit.
fn add_ints(a: i32, b: i32) -> (r: Value)
    ensures
        r.view() == int_value(a + b),
{
    let s: i64 = a as i64 + b as i64;
    if i32::MIN as i64 <= s && s <= i32::MAX as i64 {
        Value::Int(s as i32)
    } else {
        Value::BigInt(big_add(&big_from_i32(a), &big_from_i32(b)))
    }
}

/// The difference of two i32s, promoted to a bigint where it does not fit.
fn subtract_ints(a: i32, b: i32) -> (r: Value)
    ensures
        r.view() == int_value(a - b),
{
    let s: i64 = a as i64 - b as i64;
    if i32::MIN as i64 <= s && s <= i32::MAX as i64 {
        Value::Int(s as i32)
    } else {
        Value::BigInt(big_sub(&big_from_i32(a), &big_from_i32(b)))
    }
}

/// The product of two i32s, promoted to a bigint where it does not fit.
fn multiply_ints(a: i32, b: i32) -> (r: Value)
    ensures
        r.view() == int_value(a * b),
{
    assert(-2147483648 * 2147483648 <= (a as int) * (b as int) <= 2147483648 * 2147483648) by (nonlinear_arith)
        requires
            -2147483648 <= a <= 2147483647,
            -2147483648 <= b <= 2147483647,
    ;
    let s: i64 = a as i64 * b as i64;
    if i32::MIN as i64 <= s && s <= i32::MAX as i64 {
        Value::Int(s as i32)
    } else {
        Value::BigInt(big_mul(&big_from_i32(a), &big_from_i32(b)))
    }
}

/// The quotient of two i32s, rounded toward zero, promoted to a bigint
/// where it does not fit.
fn divide_ints(a: i32, b: i32) -> (r: Value)
    requires
        b != 0,
    ensures
        r.view() == int_value(trunc_div(a as int, b as int)),
{
    normalize(big_div(&big_from_i32(a), &big_from_i32(b)))
}

/// Lexicographic comparison of two texts.
fn text_less(a: &Vec<char>, b: &Vec<char>) -> (r: bool)
    ensures
        r == text_lt(a@, b@),
{
    let mut i: usize = 0;
    assert(a@.subrange(0, a@.len() as int) =~= a@);
    assert(b@.subrange(0, b@.len() as int) =~= b@);
    while i < a.len() && i < b.len() && a[i] == b[i]
        invariant
            i <= a.len(),
            i <= b.len(),
            text_lt(a@, b@) == text_lt(a@.subrange(i as int, a@.len() as int), b@.subrange(i as int, b@.len() as int)),
        decreases a.len() - i,
    {
        proof {
            let x = a@.subrange(i as int, a@.len() as int);
            let y = b@.subrange(i as int, b@.len() as int);
            assert(x.drop_first() =~= a@.subrange(i + 1, a@.len() as int));
            assert(y.drop_first() =~= b@.subrange(i + 1, b@.len() as int));
        }
        i = i + 1;
    }
    if i == b.len() {
        false
    } else if i == a.len() {
        true
    } else {
        a[i] < b[i]
    }
}

pub fn text_equal(a: &Vec<char>, b: &Vec<char>) -> (r: bool)
    ensures
        r == (a@ == b@),
{
    if a.len() != b.len() {
        return false;
    }
    let mut i: usize = 0;
    while i < a.len()
        invariant
            i <= a.len(),
            a.len() == b.len(),
            a@.subrange(0, i as int) == b@.subrange(0, i as int),
        decreases a.len() - i,
    {
        if a[i] != b[i] {
            return false;
        }
        assert(a@.subrange(0, i + 1) =~= a@.subrange(0, i as int).push(a[i as int]));
        assert(b@.subrange(0, i + 1) =~= b@.subrange(0, i as int).push(b[i as int]));
        i = i + 1;
    }
    assert(a@ =~= a@.subrange(0, a@.len() as int));
    assert(b@ =~= b@.subrange(0, b@.len() as int));
    true
}

fn flag_value(b: bool) -> (r: Value)
    ensures
        r.view() == flag(b),
{
    if b {
        Value::Int(1)
    } else {
        Value::Int(0)
    }
}

/// Computes `below op top`: the value to push, or the kind of error.
pub fn binary_op(op: BinOp, top: &Value, below: &Value) -> (r: Result<Value, ErrorKind>)
    ensures
        match arith_outcome(op, top.view(), below.view()) {
            Outcome::Push(v) => r is Ok && r->Ok_0.view() == v,
            Outcome::Fail(k) => r == Err::<Value, ErrorKind>(k),
        },
{
    match take_operands(top, below) {
        Operands::Ints(a, b) => match op {
            BinOp::Add => Ok(add_ints(a, b)),
            BinOp::Sub => Ok(subtract_ints(a, b)),
            BinOp::Mul => Ok(multiply_ints(a, b)),
            BinOp::Div => if b == 0 {
                Err(ErrorKind::Arithmetic)
            } else {
                Ok(divide_ints(a, b))
            },
            BinOp::Eq => Ok(flag_value(a == b)),
            BinOp::Gt => Ok(flag_value(a > b)),
            BinOp::Lt => Ok(flag_value(a < b)),
        },
        Operands::Bigs(a, b) => match op {
            BinOp::Add => Ok(normalize(big_add(&a, &b))),
            BinOp::Sub => Ok(normalize(big_sub(&a, &b))),
            BinOp::Mul => Ok(normalize(big_mul(&a, &b))),
            BinOp::Div => {
                let c = big_cmp(&b, &big_from_i32(0));
                if c == 0 {
                    Err(ErrorKind::Arithmetic)
                } else {
                    Ok(normalize(big_div(&a, &b)))
                }
            },
            BinOp::Eq => Ok(flag_value(big_cmp(&a, &b) == 0)),
            BinOp::Gt => Ok(flag_value(big_cmp(&a, &b) > 0)),
            BinOp::Lt => Ok(flag_value(big_cmp(&a, &b) < 0)),
        },
        Operands::Neither => {
            match op {
                BinOp::Eq | BinOp::Gt | BinOp::Lt => {
                    match (below.to_string(), top.to_string()) {
                        (Some(x), Some(y)) => {
                            let xs = crate::text::chars_of(x.as_str());
                            let ys = crate::text::chars_of(y.as_str());
                            match op {
                                BinOp::Eq => Ok(flag_value(text_equal(&xs, &ys))),
                                BinOp::Gt => Ok(flag_value(text_less(&ys, &xs))),
                                _ => Ok(flag_value(text_less(&xs, &ys))),
                            }
                        },
                        _ => Err(ErrorKind::Type),
                    }
                },
                _ => Err(ErrorKind::Type),
            }
        },
    }
}


/// The effect of a binary operator on the machine: with fewer than two
/// operands an arity error; else both operands are removed and the result
/// pushed, or the error recorded.
pub open spec fn binary_effect(pre: VM, post: VM, op: BinOp, r: i32) -> bool {
    if pre.stack@.len() < 2 {
        r == 0 && post.stack == pre.stack && post.failed_with(ErrorKind::Arity)
    } else {
        let s = pre.sview();
        let base = s.drop_last().drop_last();
        match arith_outcome(op, s.last(), s[s.len() - 2]) {
            Outcome::Push(v) => r == 1 && post.sview() == base.push(v),
            Outcome::Fail(k) => r == 0 && post.sview() == base && post.failed_with(k),
        }
    }
}

impl VM {
    /// Applies a binary operator to the top two values.
    fn binary(&mut self, op: BinOp, arity_msg: &str, type_msg: &str) -> (r: i32)
        ensures
            binary_effect(*old(self), *final(self), op, r),
    {
        if self.stack.len() < 2 {
            self.fail(ErrorKind::Arity, arity_msg);
            return 0;
        }
        let top = self.pop_top();
        let below = self.pop_top();
        match binary_op(op, &top, &below) {
            Ok(v) => {
                self.push_top(v);
                1
            },
            Err(k) => {
                if k == ErrorKind::Arithmetic {
                    self.fail(k, "division by zero");
                } else {
                    self.fail(k, type_msg);
                }
                0
            },
        }
    }

    /// Adds the top two values.
    pub fn opcode_add(&mut self) -> (r: i32)
        ensures
            binary_effect(*old(self), *final(self), BinOp::Add, r),
    {
        self.binary(BinOp::Add, "+ requires two arguments", "+ requires two numbers")
    }

    /// Subtracts the top value from the one below it.
    pub fn opcode_subtract(&mut self) -> (r: i32)
        ensures
            binary_effect(*old(self), *final(self), BinOp::Sub, r),
    {
        self.binary(BinOp::Sub, "- requires two arguments", "- requires two numbers")
    }

    /// Multiplies the top two values.
    pub fn opcode_multiply(&mut self) -> (r: i32)
        ensures
            binary_effect(*old(self), *final(self), BinOp::Mul, r),
    {
        self.binary(BinOp::Mul, "* requires two arguments", "* requires two numbers")
    }

    /// Divides the value below the top by the top value, rounding toward zero.
    pub fn opcode_divide(&mut self) -> (r: i32)
        ensures
            binary_effect(*old(self), *final(self), BinOp::Div, r),
    {
        self.binary(BinOp::Div, "/ requires two arguments", "/ requires two numbers")
    }

    /// Pushes 1 if the top two values are equal, else 0.
    pub fn opcode_eq(&mut self) -> (r: i32)
        ensures
            binary_effect(*old(self), *final(self), BinOp::Eq, r),
    {
        self.binary(BinOp::Eq, "= requires two arguments", "= requires two comparable values")
    }

    /// Pushes 1 if the value below the top is greater than the top value, else 0.
    pub fn opcode_gt(&mut self) -> (r: i32)
        ensures
            binary_effect(*old(self), *final(self), BinOp::Gt, r),
    {
        self.binary(BinOp::Gt, "> requires two arguments", "> requires two comparable values")
    }

    /// Pushes 1 if the value below the top is less than the top value, else 0.
    pub fn opcode_lt(&mut self) -> (r: i32)
        ensures
            binary_effect(*old(self), *final(self), BinOp::Lt, r),
    {
        self.binary(BinOp::Lt, "< requires two arguments", "< requires two comparable values")
    }
}

} // verus!
