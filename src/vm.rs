use vstd::prelude::*;
use crate::value::{Value, VView, values_view};

verus! {

/// The kinds of error an operation can report.
#[derive(Clone, Copy, PartialEq, Eq, Structural)]
pub enum ErrorKind {
    /// Too few operands on the stack.
    Arity,
    /// An operand that cannot be brought to the required domain.
    Type,
    /// Division by zero.
    Arithmetic,
    /// Malformed text.
    Parse,
}

/// An error an operation reported: its kind and its message.
pub struct VmError {
    pub kind: ErrorKind,
    pub message: String,
}

/// The machine's value stack and the last error an operation reported.
pub struct VM {
    pub stack: Vec<Value>,
    pub error: Option<VmError>,
}

pub proof fn lemma_view_push(s: Seq<Value>, v: Value)
    ensures
        values_view(s.push(v)) == values_view(s).push(v.view()),
{
    assert(values_view(s.push(v)) =~= values_view(s).push(v.view()));
}

pub proof fn lemma_view_drop_last(s: Seq<Value>)
    requires
        s.len() > 0,
    ensures
        values_view(s.drop_last()) == values_view(s).drop_last(),
        values_view(s).last() == s.last().view(),
{
    assert(values_view(s.drop_last()) =~= values_view(s).drop_last());
}

/// Whether a number is a Unicode scalar value.
pub open spec fn is_scalar(n: int) -> bool {
    0 <= n <= 0x10FFFF && !(0xD800 <= n <= 0xDFFF)
}

/// Relies on `char::from_u32`: the character with a given Unicode scalar
/// value, and none for a number that is not one.
#[verifier::external_body]
fn char_of(n: u32) -> (r: Option<char>)
    ensures
        r.is_some() == is_scalar(n as int),
        r.is_some() ==> r.unwrap() as int == n as int,
{
    char::from_u32(n)
}

/// The code a value names for `chr`: its i32 conversion, else its integer
/// conversion of any size.
pub open spec fn chr_code(v: VView) -> Option<int> {
    match v.int_of() {
        Some(n) => Some(n as int),
        None => v.bigint_of(),
    }
}

/// The name of the integer num-bigint reads from a hexadecimal text.
pub uninterp spec fn bigint_hex_value(s: Seq<char>) -> Option<int>;

/// Relies on `Num::from_str_radix` of `BigInt` with radix 16: the name of
/// the result.
#[verifier::external_body]
fn parse_hex_bigint(s: &str) -> (r: Option<crate::bignum::BigNum>)
    ensures
        r.is_some() == bigint_hex_value(s@).is_some(),
        r.is_some() ==> r.unwrap().value() == bigint_hex_value(s@).unwrap(),
{
    match <num_bigint::BigInt as num_traits::Num>::from_str_radix(s, 16) {
        Ok(b) => Some(crate::bignum::BigNum { bytes: b.to_signed_bytes_le() }),
        Err(_) => None,
    }
}

/// A text with every `0x` taken out, scanning left to right.
pub open spec fn without_0x(s: Seq<char>) -> Seq<char>
    decreases s.len(),
{
    if s.len() == 0 {
        s
    } else if s.len() >= 2 && s[0] == '0' && s[1] == 'x' {
        without_0x(s.subrange(2, s.len() as int))
    } else {
        seq![s[0]] + without_0x(s.drop_first())
    }
}

fn strip_0x(s: &Vec<char>, from: usize) -> (r: Vec<char>)
    requires
        from <= s.len(),
    ensures
        r@ == without_0x(s@.subrange(from as int, s@.len() as int)),
    decreases s.len() - from,
{
    let n = s.len();
    let ghost t = s@.subrange(from as int, n as int);
    if from == n {
        return Vec::new();
    }
    if from + 1 < n && s[from] == '0' && s[from + 1] == 'x' {
        assert(t.subrange(2, t.len() as int) =~= s@.subrange(from + 2, n as int));
        strip_0x(s, from + 2)
    } else {
        let rest = strip_0x(s, from + 1);
        assert(t.drop_first() =~= s@.subrange(from + 1, n as int));
        let mut out: Vec<char> = vec![s[from]];
        let mut k: usize = 0;
        while k < rest.len()
            invariant
                k <= rest.len(),
                out@ == seq![s@[from as int]] + rest@.subrange(0, k as int),
            decreases rest.len() - k,
        {
            out.push(rest[k]);
            k = k + 1;
            assert(out@ =~= seq![s@[from as int]] + rest@.subrange(0, k as int));
        }
        assert(rest@.subrange(0, rest@.len() as int) =~= rest@);
        out
    }
}

/// What `hex` makes of a text: an int where it denotes one, else a bigint
/// where num-bigint reads one.
pub open spec fn hex_outcome(t: Seq<char>) -> Option<VView> {
    let s = without_0x(t);
    match crate::hex::i32_hex_value(s) {
        Some(n) => Some(VView::Int(n)),
        None => match bigint_hex_value(s) {
            Some(b) => Some(VView::BigInt(b)),
            None => None,
        },
    }
}

/// Whether a value can be called.
pub open spec fn callable(v: VView) -> bool {
    v is AnonymousFunction || v is CoreFunction || v is NamedFunction || v is String
}

/// What the `int` conversion makes of a value.
pub open spec fn int_conversion(v: VView) -> VView {
    if v is Int || v is BigInt {
        v
    } else {
        match v.int_of() {
            Some(n) => VView::Int(n),
            None => match v.bigint_of() {
                Some(b) => VView::BigInt(b),
                None => VView::Null,
            },
        }
    }
}

/// What the `str` conversion makes of a value.
pub open spec fn str_conversion(v: VView) -> VView {
    if v is String {
        v
    } else {
        match v.text_of() {
            Some(t) => VView::String(t, crate::value::escaped(t)),
            None => VView::Null,
        }
    }
}

/// What the `bigint` conversion makes of a value.
pub open spec fn bigint_conversion(v: VView) -> VView {
    if v is BigInt {
        v
    } else {
        match v.bigint_of() {
            Some(b) => VView::BigInt(b),
            None => VView::Null,
        }
    }
}

/// The length of a list, in elements, or of a string, in bytes.
pub open spec fn length_of(v: Value) -> Option<int> {
    match v {
        Value::List(l) => Some(l@.len() as int),
        Value::String(st) => Some((vstd::utf8::encode_utf8(st.string@).len() as usize) as int),
        _ => None,
    }
}

impl VM {
    pub open spec fn sview(&self) -> Seq<VView> {
        values_view(self.stack@)
    }

    /// Whether the last error reported was of the given kind.
    pub open spec fn failed_with(&self, k: ErrorKind) -> bool {
        self.error.is_some() && self.error.unwrap().kind == k
    }

    pub fn new() -> (r: VM)
        ensures
            r.stack@.len() == 0,
            r.error.is_none(),
    {
        VM { stack: Vec::new(), error: None }
    }

    /// Records an error; the stack is left as it is.
    pub fn fail(&mut self, kind: ErrorKind, message: &str)
        ensures
            final(self).stack == old(self).stack,
            final(self).failed_with(kind),
    {
        self.error = Some(VmError { kind, message: message.to_owned() });
    }

    /// Removes and returns the top of the stack.
    pub fn pop_top(&mut self) -> (v: Value)
        requires
            old(self).stack@.len() > 0,
        ensures
            v == old(self).stack@.last(),
            final(self).stack@ == old(self).stack@.drop_last(),
            final(self).error == old(self).error,
            final(self).sview() == old(self).sview().drop_last(),
            v.view() == old(self).sview().last(),
    {
        proof {
            lemma_view_drop_last(self.stack@);
        }
        self.stack.pop().unwrap()
    }

    /// Puts a value on top of the stack.
    pub fn push_top(&mut self, v: Value)
        ensures
            final(self).stack@ == old(self).stack@.push(v),
            final(self).error == old(self).error,
            final(self).sview() == old(self).sview().push(v.view()),
    {
        proof {
            lemma_view_push(self.stack@, v);
        }
        self.stack.push(v);
    }

    /// Removes the top element from the stack.
    pub fn opcode_drop(&mut self) -> (r: i32)
        ensures
            old(self).stack@.len() == 0 ==> r == 0 && final(self).stack == old(self).stack
                && final(self).failed_with(ErrorKind::Arity),
            old(self).stack@.len() > 0 ==> r == 1 && final(self).stack@ == old(self).stack@.drop_last()
                && final(self).sview() == old(self).sview().drop_last(),
    {
        if self.stack.len() == 0 {
            self.fail(ErrorKind::Arity, "drop requires one argument");
            return 0;
        }
        self.pop_top();
        1
    }

    /// Removes all elements from the stack.
    pub fn opcode_clear(&mut self) -> (r: i32)
        ensures
            r == 1,
            final(self).stack@.len() == 0,
            final(self).sview() == Seq::<VView>::empty(),
    {
        self.stack.clear();
        assert(final(self).sview() =~= Seq::<VView>::empty());
        1
    }

    /// Pushes a copy of the top element.
    pub fn opcode_dup(&mut self) -> (r: i32)
        ensures
            old(self).stack@.len() == 0 ==> r == 0 && final(self).stack == old(self).stack
                && final(self).failed_with(ErrorKind::Arity),
            old(self).stack@.len() > 0 ==> r == 1
                && final(self).sview() == old(self).sview().push(old(self).sview().last()),
    {
        let n = self.stack.len();
        if n == 0 {
            self.fail(ErrorKind::Arity, "dup requires one argument");
            return 0;
        }
        let c = self.stack[n - 1].value_clone();
        proof {
            lemma_view_drop_last(self.stack@);
        }
        self.push_top(c);
        1
    }

    /// Pushes a copy of the second element from the top.
    pub fn opcode_over(&mut self) -> (r: i32)
        ensures
            old(self).stack@.len() < 2 ==> r == 0 && final(self).stack == old(self).stack
                && final(self).failed_with(ErrorKind::Arity),
            old(self).stack@.len() >= 2 ==> r == 1
                && final(self).sview() == old(self).sview().push(
                    old(self).sview()[old(self).sview().len() - 2],
                ),
    {
        let n = self.stack.len();
        if n < 2 {
            self.fail(ErrorKind::Arity, "over requires two arguments");
            return 0;
        }
        let c = self.stack[n - 2].value_clone();
        self.push_top(c);
        1
    }

    /// Swaps the top two elements.
    pub fn opcode_swap(&mut self) -> (r: i32)
        ensures
            old(self).stack@.len() < 2 ==> r == 0 && final(self).stack == old(self).stack
                && final(self).failed_with(ErrorKind::Arity),
            old(self).stack@.len() >= 2 ==> r == 1 && final(self).stack@ == old(self).stack@.drop_last().drop_last()
                .push(old(self).stack@.last()).push(old(self).stack@[old(self).stack@.len() - 2])
                && final(self).sview() == old(self).sview().drop_last().drop_last()
                .push(old(self).sview().last()).push(old(self).sview()[old(self).sview().len() - 2]),
    {
        if self.stack.len() < 2 {
            self.fail(ErrorKind::Arity, "swap requires two arguments");
            return 0;
        }
        let first = self.pop_top();
        let second = self.pop_top();
        self.push_top(first);
        self.push_top(second);
        1
    }

    /// Rotates the top three elements: the third from the top comes to
    /// the top, the other two move down one place.
    pub fn opcode_rot(&mut self) -> (r: i32)
        ensures
            old(self).stack@.len() < 3 ==> r == 0 && final(self).stack == old(self).stack
                && final(self).failed_with(ErrorKind::Arity),
            old(self).stack@.len() >= 3 ==> r == 1 && final(self).stack@ == old(self).stack@.drop_last().drop_last().drop_last()
                .push(old(self).stack@[old(self).stack@.len() - 2])
                .push(old(self).stack@.last())
                .push(old(self).stack@[old(self).stack@.len() - 3])
                && final(self).sview() == old(self).sview().drop_last().drop_last().drop_last()
                .push(old(self).sview()[old(self).sview().len() - 2])
                .push(old(self).sview().last())
                .push(old(self).sview()[old(self).sview().len() - 3]),
    {
        if self.stack.len() < 3 {
            self.fail(ErrorKind::Arity, "rot requires three arguments");
            return 0;
        }
        let first = self.pop_top();
        let second = self.pop_top();
        let third = self.pop_top();
        self.push_top(second);
        self.push_top(first);
        self.push_top(third);
        1
    }

    /// Adds a boolean telling whether the top element, which it removes, is null.
    pub fn opcode_isnull(&mut self) -> (r: i32)
        ensures
            old(self).stack@.len() == 0 ==> r == 0 && final(self).stack == old(self).stack
                && final(self).failed_with(ErrorKind::Arity),
            old(self).stack@.len() > 0 ==> r == 1 && final(self).sview() == old(self).sview().drop_last().push(
                VView::Bool(old(self).sview().last() is Null),
            ),
    {
        if self.stack.len() == 0 {
            self.fail(ErrorKind::Arity, "is-null requires one argument");
            return 0;
        }
        let v = self.pop_top();
        let res = match v {
            Value::Null => true,
            _ => false,
        };
        self.push_top(Value::Bool(res));
        1
    }

    /// Replaces the top element with a boolean telling whether it is a list.
    pub fn opcode_islist(&mut self) -> (r: i32)
        ensures
            old(self).stack@.len() == 0 ==> r == 0 && final(self).stack == old(self).stack
                && final(self).failed_with(ErrorKind::Arity),
            old(self).stack@.len() > 0 ==> r == 1 && final(self).sview() == old(self).sview().drop_last().push(
                VView::Bool(old(self).sview().last() is List),
            ),
    {
        if self.stack.len() == 0 {
            self.fail(ErrorKind::Arity, "is-list requires one argument");
            return 0;
        }
        let v = self.pop_top();
        let res = match v {
            Value::List(_) => true,
            _ => false,
        };
        self.push_top(Value::Bool(res));
        1
    }

    /// Replaces the top element with a boolean telling whether it is a boolean.
    pub fn opcode_is_bool(&mut self) -> (r: i32)
        ensures
            old(self).stack@.len() == 0 ==> r == 0 && final(self).stack == old(self).stack
                && final(self).failed_with(ErrorKind::Arity),
            old(self).stack@.len() > 0 ==> r == 1 && final(self).sview() == old(self).sview().drop_last().push(
                VView::Bool(old(self).sview().last() is Bool),
            ),
    {
        if self.stack.len() == 0 {
            self.fail(ErrorKind::Arity, "is-bool requires one argument");
            return 0;
        }
        let v = self.pop_top();
        let res = match v {
            Value::Bool(_) => true,
            _ => false,
        };
        self.push_top(Value::Bool(res));
        1
    }

    /// Replaces the top element with a boolean telling whether it is an int.
    pub fn opcode_is_int(&mut self) -> (r: i32)
        ensures
            old(self).stack@.len() == 0 ==> r == 0 && final(self).stack == old(self).stack
                && final(self).failed_with(ErrorKind::Arity),
            old(self).stack@.len() > 0 ==> r == 1 && final(self).sview() == old(self).sview().drop_last().push(
                VView::Bool(old(self).sview().last() is Int),
            ),
    {
        if self.stack.len() == 0 {
            self.fail(ErrorKind::Arity, "is-int requires one argument");
            return 0;
        }
        let v = self.pop_top();
        let res = match v {
            Value::Int(_) => true,
            _ => false,
        };
        self.push_top(Value::Bool(res));
        1
    }

    /// Replaces the top element with a boolean telling whether it is a bigint.
    pub fn opcode_is_bigint(&mut self) -> (r: i32)
        ensures
            old(self).stack@.len() == 0 ==> r == 0 && final(self).stack == old(self).stack
                && final(self).failed_with(ErrorKind::Arity),
            old(self).stack@.len() > 0 ==> r == 1 && final(self).sview() == old(self).sview().drop_last().push(
                VView::Bool(old(self).sview().last() is BigInt),
            ),
    {
        if self.stack.len() == 0 {
            self.fail(ErrorKind::Arity, "is-bigint requires one argument");
            return 0;
        }
        let v = self.pop_top();
        let res = match v {
            Value::BigInt(_) => true,
            _ => false,
        };
        self.push_top(Value::Bool(res));
        1
    }

    /// Replaces the top element with a boolean telling whether it is a string.
    pub fn opcode_is_str(&mut self) -> (r: i32)
        ensures
            old(self).stack@.len() == 0 ==> r == 0 && final(self).stack == old(self).stack
                && final(self).failed_with(ErrorKind::Arity),
            old(self).stack@.len() > 0 ==> r == 1 && final(self).sview() == old(self).sview().drop_last().push(
                VView::Bool(old(self).sview().last() is String),
            ),
    {
        if self.stack.len() == 0 {
            self.fail(ErrorKind::Arity, "is-str requires one argument");
            return 0;
        }
        let v = self.pop_top();
        let res = match v {
            Value::String(_) => true,
            _ => false,
        };
        self.push_top(Value::Bool(res));
        1
    }

    /// Replaces the top element with a boolean telling whether it is a set.
    pub fn opcode_is_set(&mut self) -> (r: i32)
        ensures
            old(self).stack@.len() == 0 ==> r == 0 && final(self).stack == old(self).stack
                && final(self).failed_with(ErrorKind::Arity),
            old(self).stack@.len() > 0 ==> r == 1 && final(self).sview() == old(self).sview().drop_last().push(
                VView::Bool(old(self).sview().last() is ValueSet),
            ),
    {
        if self.stack.len() == 0 {
            self.fail(ErrorKind::Arity, "is-set requires one argument");
            return 0;
        }
        let v = self.pop_top();
        let res = match v {
            Value::ValueSet(_) => true,
            _ => false,
        };
        self.push_top(Value::Bool(res));
        1
    }

    /// Replaces the top element with a boolean telling whether it is a hash.
    pub fn opcode_is_hash(&mut self) -> (r: i32)
        ensures
            old(self).stack@.len() == 0 ==> r == 0 && final(self).stack == old(self).stack
                && final(self).failed_with(ErrorKind::Arity),
            old(self).stack@.len() > 0 ==> r == 1 && final(self).sview() == old(self).sview().drop_last().push(
                VView::Bool(old(self).sview().last() is Hash),
            ),
    {
        if self.stack.len() == 0 {
            self.fail(ErrorKind::Arity, "is-hash requires one argument");
            return 0;
        }
        let v = self.pop_top();
        let res = match v {
            Value::Hash(_) => true,
            _ => false,
        };
        self.push_top(Value::Bool(res));
        1
    }

    /// Adds a boolean telling whether the top element, which stays, is null.
    pub fn opcode_dupisnull(&mut self) -> (r: i32)
        ensures
            old(self).stack@.len() == 0 ==> r == 0 && final(self).stack == old(self).stack
                && final(self).failed_with(ErrorKind::Arity),
            old(self).stack@.len() > 0 ==> r == 1 && final(self).sview() == old(self).sview().push(
                VView::Bool(old(self).sview().last() is Null),
            ),
    {
        let n = self.stack.len();
        if n == 0 {
            self.fail(ErrorKind::Arity, "is-null requires one argument");
            return 0;
        }
        let res = match &self.stack[n - 1] {
            Value::Null => true,
            _ => false,
        };
        proof {
            lemma_view_drop_last(self.stack@);
        }
        self.push_top(Value::Bool(res));
        1
    }

    /// Replaces the top element with a boolean telling whether it can be
    /// called: a function of any kind, or a string naming one.
    pub fn opcode_iscallable(&mut self) -> (r: i32)
        ensures
            old(self).stack@.len() == 0 ==> r == 0 && final(self).stack == old(self).stack
                && final(self).failed_with(ErrorKind::Arity),
            old(self).stack@.len() > 0 ==> r == 1 && final(self).sview() == old(self).sview().drop_last().push(
                VView::Bool(callable(old(self).sview().last())),
            ),
    {
        if self.stack.len() == 0 {
            self.fail(ErrorKind::Arity, "is-callable requires one argument");
            return 0;
        }
        let v = self.pop_top();
        let res = match v {
            Value::AnonymousFunction(_) | Value::CoreFunction(_) | Value::NamedFunction(_)
            | Value::String(_) => true,
            _ => false,
        };
        self.push_top(Value::Bool(res));
        1
    }

    /// Replaces the top element with its truthiness.
    pub fn opcode_bool(&mut self) -> (r: i32)
        ensures
            old(self).stack@.len() == 0 ==> r == 0 && final(self).stack == old(self).stack
                && final(self).failed_with(ErrorKind::Arity),
            old(self).stack@.len() > 0 ==> r == 1 && final(self).sview() == old(self).sview().drop_last().push(
                VView::Bool(old(self).sview().last().truthy()),
            ),
    {
        if self.stack.len() == 0 {
            self.fail(ErrorKind::Arity, "bool requires one argument");
            return 0;
        }
        let v = self.pop_top();
        let b = v.to_bool();
        self.push_top(Value::Bool(b));
        1
    }

    /// Replaces the top element with a deep copy of it.
    pub fn opcode_clone(&mut self) -> (r: i32)
        ensures
            old(self).stack@.len() == 0 ==> r == 0 && final(self).stack == old(self).stack
                && final(self).failed_with(ErrorKind::Arity),
            old(self).stack@.len() > 0 ==> r == 1 && final(self).sview() == old(self).sview(),
    {
        if self.stack.len() == 0 {
            self.fail(ErrorKind::Arity, "clone requires one argument");
            return 0;
        }
        let v = self.pop_top();
        let c = v.value_clone();
        self.push_top(c);
        proof {
            assert(final(self).sview() =~= old(self).sview());
        }
        1
    }

    /// Replaces the top element with its conversion to an integer: an int
    /// where it fits in one, else a bigint, else null.
    pub fn opcode_int(&mut self) -> (r: i32)
        ensures
            old(self).stack@.len() == 0 ==> r == 0 && final(self).stack == old(self).stack
                && final(self).failed_with(ErrorKind::Arity),
            old(self).stack@.len() > 0 ==> r == 1 && final(self).sview() == old(self).sview().drop_last().push(
                int_conversion(old(self).sview().last()),
            ),
    {
        if self.stack.len() == 0 {
            self.fail(ErrorKind::Arity, "int requires one argument");
            return 0;
        }
        let v = self.pop_top();
        match v {
            Value::Int(_) | Value::BigInt(_) => {
                self.push_top(v);
            },
            _ => {
                match v.to_int() {
                    Some(n) => self.push_top(Value::Int(n)),
                    None => match v.to_bigint() {
                        Some(b) => self.push_top(Value::BigInt(b)),
                        None => self.push_top(Value::Null),
                    },
                }
            },
        }
        1
    }

    /// Replaces the top element with its conversion to a string, or null.
    pub fn opcode_str(&mut self) -> (r: i32)
        ensures
            old(self).stack@.len() == 0 ==> r == 0 && final(self).stack == old(self).stack
                && final(self).failed_with(ErrorKind::Arity),
            old(self).stack@.len() > 0 ==> r == 1 && final(self).sview() == old(self).sview().drop_last().push(
                str_conversion(old(self).sview().last()),
            ),
    {
        if self.stack.len() == 0 {
            self.fail(ErrorKind::Arity, "str requires one argument");
            return 0;
        }
        let v = self.pop_top();
        match v {
            Value::String(_) => {
                self.push_top(v);
            },
            _ => {
                match v.to_string() {
                    Some(t) => self.push_top(Value::new_string(t)),
                    None => self.push_top(Value::Null),
                }
            },
        }
        1
    }

    /// Replaces the top element with its conversion to a bigint, or null.
    pub fn opcode_bigint(&mut self) -> (r: i32)
        ensures
            old(self).stack@.len() == 0 ==> r == 0 && final(self).stack == old(self).stack
                && final(self).failed_with(ErrorKind::Arity),
            old(self).stack@.len() > 0 ==> r == 1 && final(self).sview() == old(self).sview().drop_last().push(
                bigint_conversion(old(self).sview().last()),
            ),
    {
        if self.stack.len() == 0 {
            self.fail(ErrorKind::Arity, "bigint requires one argument");
            return 0;
        }
        let v = self.pop_top();
        match v {
            Value::BigInt(_) => {
                self.push_top(v);
            },
            _ => {
                match v.to_bigint() {
                    Some(b) => self.push_top(Value::BigInt(b)),
                    None => self.push_top(Value::Null),
                }
            },
        }
        1
    }

    /// Replaces a list or a string on top of the stack with its length:
    /// the number of elements, or of bytes.
    pub fn core_len(&mut self) -> (r: i32)
        ensures
            old(self).stack@.len() == 0 ==> r == 0 && final(self).stack == old(self).stack
                && final(self).failed_with(ErrorKind::Arity),
            old(self).stack@.len() > 0 ==> match length_of(old(self).stack@.last()) {
                Some(n) => r == 1 && final(self).stack@ == old(self).stack@.drop_last().push(Value::Int(#[verifier::truncate] (n as i32))),
                None => r == 0 && final(self).stack@ == old(self).stack@.drop_last()
                    && final(self).failed_with(ErrorKind::Type),
            },
    {
        if self.stack.len() == 0 {
            self.fail(ErrorKind::Arity, "len requires one argument");
            return 0;
        }
        let v = self.pop_top();
        match v {
            Value::List(l) => {
                let n = #[verifier::truncate] (l.len() as i32);
                self.push_top(Value::Int(n));
            },
            Value::String(st) => {
                let t = st.string.as_str();
                let k = t.len();
                let n = #[verifier::truncate] (k as i32);
                self.push_top(Value::Int(n));
            },
            _ => {
                self.fail(ErrorKind::Type, "len argument must be a list or a string");
                return 0;
            },
        }
        1
    }

    /// Replaces a number with the one-character string it is the code of.
    pub fn core_chr(&mut self) -> (r: i32)
        ensures
            old(self).stack@.len() == 0 ==> r == 0 && final(self).stack == old(self).stack
                && final(self).failed_with(ErrorKind::Arity),
            old(self).stack@.len() > 0 ==> match chr_code(old(self).sview().last()) {
                Some(n) => if is_scalar(n) {
                    r == 1 && exists|c: char| c as int == n && final(self).sview()
                        == old(self).sview().drop_last().push(
                        VView::String(seq![c], crate::value::escaped(seq![c])),
                    )
                } else {
                    r == 0 && final(self).sview() == old(self).sview().drop_last()
                        && final(self).failed_with(ErrorKind::Type)
                },
                None => r == 0 && final(self).sview() == old(self).sview().drop_last()
                    && final(self).failed_with(ErrorKind::Type),
            },
    {
        if self.stack.len() == 0 {
            self.fail(ErrorKind::Arity, "chr requires one argument");
            return 0;
        }
        let v = self.pop_top();
        let code: Option<u32> = match v.to_int() {
            Some(n) => if n < 0 {
                None
            } else {
                Some(n as u32)
            },
            None => match v.to_bigint() {
                None => {
                    self.fail(ErrorKind::Type, "unable to convert argument to integer");
                    return 0;
                },
                Some(b) => match crate::bignum::big_to_u128(&b) {
                    Some(u) => if u <= u32::MAX as u128 {
                        Some(u as u32)
                    } else {
                        None
                    },
                    None => None,
                },
            },
        };
        match code {
            None => {
                self.fail(ErrorKind::Type, "unable to convert argument to non-negative u32 integer");
                0
            },
            Some(u) => match char_of(u) {
                Some(c) => {
                    let cs = vec![c];
                    assert(cs@ =~= seq![c]);
                    self.push_top(Value::new_string(crate::text::string_from_chars(&cs)));
                    1
                },
                None => {
                    self.fail(ErrorKind::Type, "unable to convert integer to character");
                    0
                },
            },
        }
    }

    /// Replaces a one-character text with its Unicode scalar value.
    pub fn core_ord(&mut self) -> (r: i32)
        ensures
            old(self).stack@.len() == 0 ==> r == 0 && final(self).stack == old(self).stack
                && final(self).failed_with(ErrorKind::Arity),
            old(self).stack@.len() > 0 ==> match old(self).sview().last().text_of() {
                Some(t) => if t.len() == 1 {
                    r == 1 && final(self).sview() == old(self).sview().drop_last().push(crate::arith::int_value((t[0] as u32) as int))
                } else {
                    r == 0 && final(self).sview() == old(self).sview().drop_last()
                        && final(self).failed_with(ErrorKind::Type)
                },
                None => r == 0 && final(self).sview() == old(self).sview().drop_last()
                    && final(self).failed_with(ErrorKind::Type),
            },
    {
        if self.stack.len() == 0 {
            self.fail(ErrorKind::Arity, "ord requires one argument");
            return 0;
        }
        let v = self.pop_top();
        match v.to_string() {
            None => {
                self.fail(ErrorKind::Type, "unable to convert argument to string");
                0
            },
            Some(t) => {
                let cs = crate::text::chars_of(t.as_str());
                if cs.len() != 1 {
                    self.fail(ErrorKind::Type, "argument must be one character in length");
                    return 0;
                }
                let c = cs[0];
                let code = c as u32;
                if code <= i32::MAX as u32 {
                    self.push_top(Value::Int(code as i32));
                } else {
                    self.push_top(Value::BigInt(crate::bignum::big_from_u128(code as u128)));
                }
                1
            },
        }
    }

    /// Replaces a hexadecimal text (any `0x` in it is ignored) with the
    /// integer it denotes.
    pub fn core_hex(&mut self) -> (r: i32)
        ensures
            old(self).stack@.len() == 0 ==> r == 0 && final(self).stack == old(self).stack
                && final(self).failed_with(ErrorKind::Arity),
            old(self).stack@.len() > 0 ==> match old(self).sview().last().text_of() {
                Some(t) => match hex_outcome(t) {
                    Some(x) => r == 1 && final(self).sview() == old(self).sview().drop_last().push(x),
                    None => r == 0 && final(self).sview() == old(self).sview().drop_last()
                        && final(self).failed_with(ErrorKind::Parse),
                },
                None => r == 0 && final(self).sview() == old(self).sview().drop_last()
                    && final(self).failed_with(ErrorKind::Type),
            },
    {
        if self.stack.len() == 0 {
            self.fail(ErrorKind::Arity, "hex requires one argument");
            return 0;
        }
        let v = self.pop_top();
        match v.to_string() {
            None => {
                self.fail(ErrorKind::Type, "unable to convert argument to string");
                0
            },
            Some(t) => {
                let cs = crate::text::chars_of(t.as_str());
                let stripped = strip_0x(&cs, 0);
                assert(cs@.subrange(0, cs@.len() as int) =~= cs@);
                let st = crate::text::string_from_chars(&stripped);
                match crate::hex::parse_hex_i32(&stripped) {
                    Some(n) => {
                        self.push_top(Value::Int(n));
                        1
                    },
                    None => match parse_hex_bigint(st.as_str()) {
                        Some(b) => {
                            self.push_top(Value::BigInt(b));
                            1
                        },
                        None => {
                            self.fail(ErrorKind::Parse, "unable to convert hex string to integer");
                            0
                        },
                    },
                }
            },
        }
    }

    /// Pushes the depth of the stack.
    pub fn opcode_depth(&mut self) -> (r: i32)
        requires
            old(self).stack@.len() <= i32::MAX,
        ensures
            r == 1,
            final(self).stack@ == old(self).stack@.push(Value::Int(old(self).stack@.len() as i32)),
            final(self).sview() == old(self).sview().push(VView::Int(old(self).stack@.len() as i32)),
    {
        let n = self.stack.len() as i32;
        self.push_top(Value::Int(n));
        1
    }
}

} // verus!
