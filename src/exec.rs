use vstd::prelude::*;
use crate::chunk::Chunk;
use crate::opcode::{
    operand_width, operand_width_of, OP_STARTLIST, OP_STARTSET, OP_STARTHASH, OP_ENDLIST, OP_ADD,
    OP_ADDCONSTANT, OP_BIGINT, OP_BOOL, OP_CLEAR, OP_CLONE, OP_CONSTANT, OP_DEPTH, OP_DIVIDE,
    OP_DIVIDECONSTANT, OP_DROP, OP_DUP, OP_DUPISNULL, OP_ENDFN, OP_EQ, OP_EQCONSTANT,
    OP_GETLOCALVAR, OP_GT, OP_INT, OP_ISBIGINT, OP_ISBOOL, OP_ISCALLABLE, OP_ISINT, OP_ISLIST,
    OP_ISNULL, OP_ISSTR, OP_JUMP, OP_JUMPNE, OP_JUMPNER, OP_JUMPR, OP_LT, OP_MULTIPLY,
    OP_MULTIPLYCONSTANT, OP_OVER, OP_RETURN, OP_ROT, OP_SETLOCALVAR, OP_STR, OP_SUBTRACT,
    OP_SUBTRACTCONSTANT, OP_SWAP, OP_YIELD,
};
use crate::value::{Value, VView, GeneratorObject, values_view, set_members_ok, set_of, hash_members_ok, hash_of};
use crate::vm::{VM, ErrorKind, callable, str_conversion, int_conversion, bigint_conversion};
use crate::arith::{BinOp, Outcome, arith_outcome};
use crate::chunk::{ValueSD, constant_view};

verus! {

/// Why execution stopped.
#[derive(PartialEq, Eq, Structural)]
pub enum Stop {
    /// A yield: the yielded value is on top of the stack.
    Yield,
    /// The code ended or returned.
    End,
    /// An operation failed; the machine records the error.
    Fail,
    /// The step budget ran out.
    OutOfFuel,
}

/// What shifting a generator did.
#[derive(PartialEq, Eq, Structural)]
pub enum ShiftOutcome {
    /// The generator yielded the value now on top of the stack.
    Yielded,
    /// The generator has ended; null was pushed.
    Exhausted,
    /// An operation failed.
    Failed,
    /// The step budget ran out before the generator yielded or ended.
    OutOfFuel,
}

/// Replaces the top of a stack with `x`; none for an empty stack.
pub open spec fn replace_top(s: Seq<VView>, x: VView) -> Option<Seq<VView>> {
    if s.len() == 0 {
        None
    } else {
        Some(s.drop_last().push(x))
    }
}

/// The stack after a binary operator, if it succeeds.
pub open spec fn binary_stack(op: BinOp, s: Seq<VView>) -> Option<Seq<VView>> {
    if s.len() < 2 {
        None
    } else {
        match arith_outcome(op, s.last(), s[s.len() - 2]) {
            Outcome::Push(v) => Some(s.drop_last().drop_last().push(v)),
            Outcome::Fail(_) => None,
        }
    }
}

/// The stack after an operation without operand bytes, if it succeeds.
pub open spec fn simple_effect(op: u8, s: Seq<VView>) -> Option<Seq<VView>> {
    let n = s.len();
    if op == OP_ADD {
        binary_stack(BinOp::Add, s)
    } else if op == OP_SUBTRACT {
        binary_stack(BinOp::Sub, s)
    } else if op == OP_MULTIPLY {
        binary_stack(BinOp::Mul, s)
    } else if op == OP_DIVIDE {
        binary_stack(BinOp::Div, s)
    } else if op == OP_EQ {
        binary_stack(BinOp::Eq, s)
    } else if op == OP_GT {
        binary_stack(BinOp::Gt, s)
    } else if op == OP_LT {
        binary_stack(BinOp::Lt, s)
    } else if op == OP_DUP {
        if n == 0 {
            None
        } else {
            Some(s.push(s.last()))
        }
    } else if op == OP_SWAP {
        if n < 2 {
            None
        } else {
            Some(s.drop_last().drop_last().push(s.last()).push(s[n - 2]))
        }
    } else if op == OP_DROP {
        if n == 0 {
            None
        } else {
            Some(s.drop_last())
        }
    } else if op == OP_ROT {
        if n < 3 {
            None
        } else {
            Some(s.drop_last().drop_last().drop_last().push(s[n - 2]).push(s.last()).push(s[n - 3]))
        }
    } else if op == OP_OVER {
        if n < 2 {
            None
        } else {
            Some(s.push(s[n - 2]))
        }
    } else if op == OP_CLEAR {
        Some(Seq::empty())
    } else if op == OP_DEPTH {
        if n > i32::MAX {
            None
        } else {
            Some(s.push(VView::Int(n as i32)))
        }
    } else if op == OP_ISNULL {
        replace_top(s, VView::Bool(s.last() is Null))
    } else if op == OP_DUPISNULL {
        if n == 0 {
            None
        } else {
            Some(s.push(VView::Bool(s.last() is Null)))
        }
    } else if op == OP_ISLIST {
        replace_top(s, VView::Bool(s.last() is List))
    } else if op == OP_ISCALLABLE {
        replace_top(s, VView::Bool(callable(s.last())))
    } else if op == OP_STR {
        replace_top(s, str_conversion(s.last()))
    } else if op == OP_INT {
        replace_top(s, int_conversion(s.last()))
    } else if op == OP_BIGINT {
        replace_top(s, bigint_conversion(s.last()))
    } else if op == OP_BOOL {
        replace_top(s, VView::Bool(s.last().truthy()))
    } else if op == OP_ISBOOL {
        replace_top(s, VView::Bool(s.last() is Bool))
    } else if op == OP_ISINT {
        replace_top(s, VView::Bool(s.last() is Int))
    } else if op == OP_ISBIGINT {
        replace_top(s, VView::Bool(s.last() is BigInt))
    } else if op == OP_ISSTR {
        replace_top(s, VView::Bool(s.last() is String))
    } else if op == OP_CLONE {
        if n == 0 {
            None
        } else {
            Some(s)
        }
    } else {
        None
    }
}

pub open spec fn is_constant_op(op: u8) -> bool {
    op == OP_CONSTANT || op == OP_ADDCONSTANT || op == OP_SUBTRACTCONSTANT || op == OP_MULTIPLYCONSTANT
        || op == OP_DIVIDECONSTANT || op == OP_EQCONSTANT
}

/// The operator a fused constant operation applies after the push.
pub open spec fn fused_op(op: u8) -> BinOp {
    if op == OP_ADDCONSTANT {
        BinOp::Add
    } else if op == OP_SUBTRACTCONSTANT {
        BinOp::Sub
    } else if op == OP_MULTIPLYCONSTANT {
        BinOp::Mul
    } else if op == OP_DIVIDECONSTANT {
        BinOp::Div
    } else {
        BinOp::Eq
    }
}

/// Where a jump goes: absolute jumps to the offset; relative ones forward
/// from the next instruction, at most to the end.
pub open spec fn jump_target(op: u8, k: int, next: int, n: int) -> int {
    if op == OP_JUMP || op == OP_JUMPNE {
        k
    } else if next + k > n {
        n
    } else {
        next + k
    }
}

/// What running code does from `ip` with at most `fuel` steps: why it
/// stops, where, and the stack and locals then (unspecified after a
/// failure).
pub open spec fn exec_spec(
    data: Seq<u8>,
    consts: Seq<ValueSD>,
    s: Seq<VView>,
    locals: Seq<VView>,
    marks: Seq<(usize, u8)>,
    ip: int,
    fuel: nat,
) -> (Stop, int, Seq<VView>, Seq<VView>)
    decreases fuel,
{
    let n = data.len() as int;
    if ip >= n {
        (Stop::End, n, s, locals)
    } else if fuel == 0 {
        (Stop::OutOfFuel, ip, s, locals)
    } else {
        let op = data[ip];
        let w = operand_width(op) as int;
        let next = ip + 1 + w;
        if w >= n - ip {
            (Stop::Fail, ip, s, locals)
        } else if op == OP_YIELD {
            if s.len() == 0 {
                (Stop::Fail, ip, s, locals)
            } else {
                (Stop::Yield, next, s, locals)
            }
        } else if op == OP_RETURN || op == OP_ENDFN {
            (Stop::End, n, s, locals)
        } else if is_constant_op(op) {
            let k = data[ip + 1] as int * 256 + data[ip + 2] as int;
            if k >= consts.len() {
                (Stop::Fail, ip, s, locals)
            } else {
                let s1 = s.push(constant_view(consts[k]));
                if op == OP_CONSTANT {
                    exec_spec(data, consts, s1, locals, marks, next, (fuel - 1) as nat)
                } else {
                    match binary_stack(fused_op(op), s1) {
                        Some(s2) => exec_spec(data, consts, s2, locals, marks, next, (fuel - 1) as nat),
                        None => (Stop::Fail, ip, s, locals),
                    }
                }
            }
        } else if op == OP_JUMP || op == OP_JUMPR || op == OP_JUMPNE || op == OP_JUMPNER {
            let k = data[ip + 1] as int * 256 + data[ip + 2] as int;
            let target = jump_target(op, k, next, n);
            if op == OP_JUMP || op == OP_JUMPR {
                exec_spec(data, consts, s, locals, marks, target, (fuel - 1) as nat)
            } else if s.len() == 0 {
                (Stop::Fail, ip, s, locals)
            } else {
                let to = if !s.last().truthy() {
                    target
                } else {
                    next
                };
                exec_spec(data, consts, s.drop_last(), locals, marks, to, (fuel - 1) as nat)
            }
        } else if op == OP_GETLOCALVAR {
            let slot = data[ip + 1] as int;
            if slot >= locals.len() {
                (Stop::Fail, ip, s, locals)
            } else {
                exec_spec(data, consts, s.push(locals[slot]), locals, marks, next, (fuel - 1) as nat)
            }
        } else if op == OP_SETLOCALVAR {
            let slot = data[ip + 1] as int;
            if s.len() == 0 || slot > locals.len() {
                (Stop::Fail, ip, s, locals)
            } else {
                let l2 = if slot == locals.len() {
                    locals.push(s.last())
                } else {
                    locals.update(slot, s.last())
                };
                exec_spec(data, consts, s.drop_last(), l2, marks, next, (fuel - 1) as nat)
            }
        } else if op == OP_STARTLIST || op == OP_STARTSET || op == OP_STARTHASH {
            exec_spec(data, consts, s, locals, marks.push((s.len() as usize, op)), next, (fuel - 1) as nat)
        } else if op == OP_ENDLIST {
            if marks.len() == 0 || marks.last().0 > s.len() {
                (Stop::Fail, ip, s, locals)
            } else {
                let d = marks.last().0 as int;
                let items = s.subrange(d, s.len() as int);
                let base = s.subrange(0, d);
                if marks.last().1 == OP_STARTSET {
                    if set_members_ok(items) {
                        exec_spec(data, consts, base.push(VView::ValueSet(set_of(items))), locals, marks.drop_last(), next, (fuel - 1) as nat)
                    } else {
                        (Stop::Fail, ip, s, locals)
                    }
                } else if marks.last().1 == OP_STARTHASH {
                    if hash_members_ok(items) {
                        exec_spec(data, consts, base.push(VView::Hash(hash_of(items))), locals, marks.drop_last(), next, (fuel - 1) as nat)
                    } else {
                        (Stop::Fail, ip, s, locals)
                    }
                } else {
                    exec_spec(data, consts, base.push(VView::List(items)), locals, marks.drop_last(), next, (fuel - 1) as nat)
                }
            }
        } else if w > 0 {
            (Stop::Fail, ip, s, locals)
        } else {
            match simple_effect(op, s) {
                Some(s2) => exec_spec(data, consts, s2, locals, marks, next, (fuel - 1) as nat),
                None => (Stop::Fail, ip, s, locals),
            }
        }
    }
}

fn read_u16(data: &Vec<u8>, at: usize) -> (r: usize)
    requires
        at + 1 < data.len(),
    ensures
        r == data@[at as int] as int * 256 + data@[at + 1] as int,
{
    data[at] as usize * 256 + data[at + 1] as usize
}

proof fn lemma_view_subrange(l: Seq<Value>, a: int, b: int)
    requires
        0 <= a <= b <= l.len(),
    ensures
        values_view(l.subrange(a, b)) == values_view(l).subrange(a, b),
{
    assert(values_view(l.subrange(a, b)) =~= values_view(l).subrange(a, b));
}

proof fn lemma_locals_update(l: Seq<Value>, slot: int, v: Value)
    requires
        0 <= slot <= l.len(),
    ensures
        slot == l.len() ==> values_view(l.push(v)) == values_view(l).push(v.view()),
        slot < l.len() ==> values_view(l.update(slot, v)) == values_view(l).update(slot, v.view()),
{
    assert(values_view(l.push(v)) =~= values_view(l).push(v.view()));
    if slot < l.len() {
        assert(values_view(l.update(slot, v)) =~= values_view(l).update(slot, v.view()));
    }
}

impl VM {
    /// Removes and returns the values from depth `d` up.
    fn take_from(&mut self, d: usize) -> (r: Vec<Value>)
        requires
            d <= old(self).stack@.len(),
        ensures
            final(self).sview() == old(self).sview().subrange(0, d as int),
            values_view(r@) == old(self).sview().subrange(d as int, old(self).sview().len() as int),
            final(self).error == old(self).error,
    {
        proof {
            lemma_view_subrange(self.stack@, 0, d as int);
            lemma_view_subrange(self.stack@, d as int, self.stack@.len() as int);
        }
        self.stack.split_off(d)
    }

    /// Runs one operation that takes no operand bytes.
    fn simple_op(&mut self, op: u8) -> (r: i32)
        ensures
            match simple_effect(op, old(self).sview()) {
                Some(s) => r == 1 && final(self).sview() == s,
                None => r == 0,
            },
    {
        if op == OP_ADD {
            self.opcode_add()
        } else if op == OP_SUBTRACT {
            self.opcode_subtract()
        } else if op == OP_MULTIPLY {
            self.opcode_multiply()
        } else if op == OP_DIVIDE {
            self.opcode_divide()
        } else if op == OP_EQ {
            self.opcode_eq()
        } else if op == OP_GT {
            self.opcode_gt()
        } else if op == OP_LT {
            self.opcode_lt()
        } else if op == OP_DUP {
            self.opcode_dup()
        } else if op == OP_SWAP {
            self.opcode_swap()
        } else if op == OP_DROP {
            self.opcode_drop()
        } else if op == OP_ROT {
            self.opcode_rot()
        } else if op == OP_OVER {
            self.opcode_over()
        } else if op == OP_CLEAR {
            self.opcode_clear()
        } else if op == OP_DEPTH {
            if self.stack.len() > i32::MAX as usize {
                self.fail(ErrorKind::Arity, "stack too deep");
                0
            } else {
                self.opcode_depth()
            }
        } else if op == OP_ISNULL {
            self.opcode_isnull()
        } else if op == OP_DUPISNULL {
            self.opcode_dupisnull()
        } else if op == OP_ISLIST {
            self.opcode_islist()
        } else if op == OP_ISCALLABLE {
            self.opcode_iscallable()
        } else if op == OP_STR {
            self.opcode_str()
        } else if op == OP_INT {
            self.opcode_int()
        } else if op == OP_BIGINT {
            self.opcode_bigint()
        } else if op == OP_BOOL {
            self.opcode_bool()
        } else if op == OP_ISBOOL {
            self.opcode_is_bool()
        } else if op == OP_ISINT {
            self.opcode_is_int()
        } else if op == OP_ISBIGINT {
            self.opcode_is_bigint()
        } else if op == OP_ISSTR {
            self.opcode_is_str()
        } else if op == OP_CLONE {
            self.opcode_clone()
        } else {
            self.fail(ErrorKind::Type, "operation not supported here");
            0
        }
    }

    /// Runs a chunk's code from `ip` with the given local variables, for at
    /// most `fuel` steps, and returns why it stopped and where: after the
    /// yield, at the end of the code, or at the failing instruction.
    pub fn execute(
        &mut self,
        code: &Chunk,
        locals: &mut Vec<Value>,
        marks: &mut Vec<(usize, u8)>,
        ip: usize,
        fuel: usize,
    ) -> (r: (Stop, usize))
        requires
            code.wf(),
        ensures
            ({
                let e = exec_spec(
                    code.data@,
                    code.constants@,
                    old(self).sview(),
                    values_view(old(locals)@),
                    old(marks)@,
                    ip as int,
                    fuel as nat,
                );
                r.0 == e.0 && r.1 == e.1 && (!(r.0 is Fail) ==> final(self).sview() == e.2
                    && values_view(final(locals)@) == e.3)
            }),
            r.0 is End ==> r.1 == code.data@.len(),
            r.0 is Yield ==> final(self).stack@.len() > 0,
            r.1 <= code.data@.len(),
        decreases fuel,
    {
        let n = code.data.len();
        if ip >= n {
            return (Stop::End, n);
        }
        if fuel == 0 {
            return (Stop::OutOfFuel, ip);
        }
        let op = code.data[ip];
        let width = operand_width_of(op);
        if width >= n - ip {
            self.fail(ErrorKind::Type, "instruction is cut short");
            return (Stop::Fail, ip);
        }
        let next = ip + 1 + width;
        if op == OP_YIELD {
            if self.stack.len() == 0 {
                self.fail(ErrorKind::Arity, "yield requires one argument");
                return (Stop::Fail, ip);
            }
            return (Stop::Yield, next);
        }
        if op == OP_RETURN || op == OP_ENDFN {
            return (Stop::End, n);
        }
        if op == OP_CONSTANT || op == OP_ADDCONSTANT || op == OP_SUBTRACTCONSTANT || op == OP_MULTIPLYCONSTANT
            || op == OP_DIVIDECONSTANT || op == OP_EQCONSTANT {
            let k = read_u16(&code.data, ip + 1);
            if k >= code.constants.len() {
                self.fail(ErrorKind::Type, "no such constant");
                return (Stop::Fail, ip);
            }
            let c = code.get_constant(k as i32);
            self.push_top(c);
            let ok = if op == OP_CONSTANT {
                1
            } else if op == OP_ADDCONSTANT {
                self.opcode_add()
            } else if op == OP_SUBTRACTCONSTANT {
                self.opcode_subtract()
            } else if op == OP_MULTIPLYCONSTANT {
                self.opcode_multiply()
            } else if op == OP_DIVIDECONSTANT {
                self.opcode_divide()
            } else {
                self.opcode_eq()
            };
            if ok == 0 {
                return (Stop::Fail, ip);
            }
            return self.execute(code, locals, marks, next, fuel - 1);
        }
        if op == OP_JUMP || op == OP_JUMPR || op == OP_JUMPNE || op == OP_JUMPNER {
            let k = read_u16(&code.data, ip + 1);
            let target = if op == OP_JUMP || op == OP_JUMPNE {
                k
            } else if k > n - next {
                n
            } else {
                next + k
            };
            let jump = if op == OP_JUMP || op == OP_JUMPR {
                true
            } else {
                if self.stack.len() == 0 {
                    self.fail(ErrorKind::Arity, "conditional jump requires one argument");
                    return (Stop::Fail, ip);
                }
                let cond = self.pop_top();
                !cond.to_bool()
            };
            let to = if jump {
                target
            } else {
                next
            };
            return self.execute(code, locals, marks, to, fuel - 1);
        }
        if op == OP_GETLOCALVAR {
            let slot = code.data[ip + 1] as usize;
            if slot >= locals.len() {
                self.fail(ErrorKind::Type, "no such local variable");
                return (Stop::Fail, ip);
            }
            let v = locals[slot].value_clone();
            self.push_top(v);
            return self.execute(code, locals, marks, next, fuel - 1);
        }
        if op == OP_SETLOCALVAR {
            let slot = code.data[ip + 1] as usize;
            if self.stack.len() == 0 {
                self.fail(ErrorKind::Arity, "setting a variable requires one argument");
                return (Stop::Fail, ip);
            }
            if slot > locals.len() {
                self.fail(ErrorKind::Type, "no such local variable");
                return (Stop::Fail, ip);
            }
            let v = self.pop_top();
            proof {
                lemma_locals_update(locals@, slot as int, v);
            }
            if slot == locals.len() {
                locals.push(v);
            } else {
                locals.set(slot, v);
            }
            return self.execute(code, locals, marks, next, fuel - 1);
        }
        if op == OP_STARTLIST || op == OP_STARTSET || op == OP_STARTHASH {
            marks.push((self.stack.len(), op));
            return self.execute(code, locals, marks, next, fuel - 1);
        }
        if op == OP_ENDLIST {
            let m = marks.len();
            if m == 0 || marks[m - 1].0 > self.stack.len() {
                self.fail(ErrorKind::Arity, "no literal to end");
                return (Stop::Fail, ip);
            }
            let (d, kind) = marks[m - 1];
            let items = self.take_from(d);
            let v = if kind == OP_STARTSET {
                match crate::value::build_set(&items) {
                    Ok(st) => st,
                    Err(k) => {
                        self.fail(k, "a set holds values of one type");
                        return (Stop::Fail, ip);
                    },
                }
            } else if kind == OP_STARTHASH {
                match crate::value::build_hash(&items) {
                    Ok(h) => h,
                    Err(k) => {
                        self.fail(k, "a hash needs a textual key for each value");
                        return (Stop::Fail, ip);
                    },
                }
            } else {
                Value::List(items)
            };
            marks.pop();
            self.push_top(v);
            return self.execute(code, locals, marks, next, fuel - 1);
        }
        if width > 0 {
            self.fail(ErrorKind::Type, "operation not supported here");
            return (Stop::Fail, ip);
        }
        if self.simple_op(op) == 0 {
            return (Stop::Fail, ip);
        }
        self.execute(code, locals, marks, next, fuel - 1)
    }

    /// Advances a generator one step. The generator runs on a stack of its
    /// own, which holds its arguments on the first resume only. A yield
    /// moves the yielded value onto this machine's stack; at the end the
    /// generator becomes terminal and null is pushed, as it is on every
    /// later shift. Nothing else on this machine's stack changes.
    pub fn shift_generator(&mut self, generator: &mut GeneratorObject, code: &Chunk, fuel: usize) -> (r: ShiftOutcome)
        requires
            code.wf(),
            old(generator).index <= code.data@.len(),
        ensures
            final(generator).index <= code.data@.len(),
            final(generator).gen_args@.len() == 0,
            r is Failed || r is OutOfFuel ==> final(self).sview() == old(self).sview(),
            old(generator).index == code.data@.len() && old(generator).gen_args@.len() == 0 ==> r is Exhausted
                && final(self).sview() == old(self).sview().push(VView::Null)
                && final(generator).index == old(generator).index
                && final(generator).local_vars_stack == old(generator).local_vars_stack,
            !(old(generator).index == code.data@.len() && old(generator).gen_args@.len() == 0) ==> {
                let e = exec_spec(
                    code.data@,
                    code.constants@,
                    values_view(old(generator).gen_args@),
                    values_view(old(generator).local_vars_stack@),
                    Seq::empty(),
                    old(generator).index as int,
                    fuel as nat,
                );
                &&& (r is Yielded <==> e.0 is Yield)
                &&& (r is Exhausted <==> e.0 is End)
                &&& (r is Failed <==> e.0 is Fail)
                &&& (r is Yielded ==> final(generator).index == e.1
                    && final(self).sview() == old(self).sview().push(e.2.last())
                    && values_view(final(generator).local_vars_stack@) == e.3)
                &&& (r is Exhausted ==> final(generator).index == code.data@.len()
                    && final(self).sview() == old(self).sview().push(VView::Null)
                    && values_view(final(generator).local_vars_stack@) == e.3)
            },
    {
        let n = code.data.len();
        if generator.index == n && generator.gen_args.len() == 0 {
            self.push_top(Value::Null);
            return ShiftOutcome::Exhausted;
        }
        let args = generator.gen_args.split_off(0);
        assert(args@ =~= old(generator).gen_args@);
        let outer = self.stack.split_off(0);
        assert(outer@ =~= old(self).stack@);
        self.stack = args;
        let mut marks: Vec<(usize, u8)> = Vec::new();
        assert(marks@ =~= Seq::<(usize, u8)>::empty());
        let (stop, at) = self.execute(code, &mut generator.local_vars_stack, &mut marks, generator.index, fuel);
        let mut inner = self.stack.split_off(0);
        self.stack = outer;
        assert(self.sview() == old(self).sview());
        match stop {
            Stop::Yield => {
                proof {
                    crate::vm::lemma_view_drop_last(inner@);
                }
                let v = inner.pop().unwrap();
                generator.index = at;
                self.push_top(v);
                ShiftOutcome::Yielded
            },
            Stop::End => {
                generator.index = n;
                self.push_top(Value::Null);
                ShiftOutcome::Exhausted
            },
            Stop::Fail => ShiftOutcome::Failed,
            Stop::OutOfFuel => {
                generator.index = at;
                ShiftOutcome::OutOfFuel
            },
        }
    }

    /// Runs a chunk from its start with no local variables.
    pub fn run_chunk(&mut self, code: &Chunk, fuel: usize) -> (r: Stop)
        requires
            code.wf(),
        ensures
            ({
                let e = exec_spec(code.data@, code.constants@, old(self).sview(), Seq::empty(), Seq::empty(), 0, fuel as nat);
                r == e.0 && (!(r is Fail) ==> final(self).sview() == e.2)
            }),
    {
        let mut locals: Vec<Value> = Vec::new();
        assert(values_view(locals@) =~= Seq::<VView>::empty());
        let mut marks: Vec<(usize, u8)> = Vec::new();
        assert(marks@ =~= Seq::<(usize, u8)>::empty());
        let (stop, _) = self.execute(code, &mut locals, &mut marks, 0, fuel);
        stop
    }
}

} // verus!
