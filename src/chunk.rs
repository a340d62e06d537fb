use vstd::prelude::*;
use crate::value::{Value, VView, StringTriple};
use crate::opcode::{
    OP_CALL, operand_width, operand_width_of, mnemonic, opcode_name, OP_CONSTANT, OP_ADDCONSTANT,
    OP_SUBTRACTCONSTANT, OP_MULTIPLYCONSTANT, OP_DIVIDECONSTANT, OP_EQCONSTANT, OP_CALLCONSTANT,
    OP_CALLIMPLICITCONSTANT,
};
use crate::text::{decimal_value, lemma_decimal_round_trip, nat_digits, push_digits, chars_of, string_from_chars};

verus! {


/// The values that can be stored as constants of a chunk.
pub enum ValueSD {
    Null,
    Bool(bool),
    Int(i32),
    BigInt(String),
    String(String, String),
    Command(String, Vec<char>),
    CommandUncaptured(String),
}

/// Whether a value can be stored as a constant.
pub open spec fn serialisable(v: VView) -> bool {
    v is Null || v is Bool || v is Int || v is BigInt || v is String || v is Command
        || v is CommandUncaptured
}

/// The value a stored constant stands for.
pub open spec fn constant_view(c: ValueSD) -> VView {
    match c {
        ValueSD::Null => VView::Null,
        ValueSD::Bool(b) => VView::Bool(b),
        ValueSD::Int(n) => VView::Int(n),
        ValueSD::BigInt(t) => VView::BigInt(decimal_value(t@).unwrap()),
        ValueSD::String(s, e) => VView::String(s@, e@),
        ValueSD::Command(s, o) => VView::Command(s@, o@),
        ValueSD::CommandUncaptured(s) => VView::CommandUncaptured(s@),
    }
}

/// A stored constant is well formed when a bigint's text is decimal.
pub open spec fn constant_wf(c: ValueSD) -> bool {
    match c {
        ValueSD::BigInt(t) => decimal_value(t@).is_some(),
        _ => true,
    }
}

/// One decoded instruction: where it starts, its opcode and its operand
/// bytes.
pub struct Instruction {
    pub offset: usize,
    pub opcode: u8,
    pub operands: Vec<u8>,
}

/// The instructions of a byte sequence from a given offset: each opcode
/// with as many operand bytes as it takes, or as are left.
pub open spec fn decode(data: Seq<u8>, from: int) -> Seq<(int, u8, Seq<u8>)>
    decreases data.len() - from,
{
    if from < 0 || from >= data.len() {
        Seq::empty()
    } else {
        let op = data[from];
        let end = if from + 1 + operand_width(op) <= data.len() {
            from + 1 + operand_width(op)
        } else {
            data.len() as int
        };
        seq![(from, op, data.subrange(from + 1, end))] + decode(data, end)
    }
}

pub open spec fn instruction_view(i: Instruction) -> (int, u8, Seq<u8>) {
    (i.offset as int, i.opcode, i.operands@)
}

/// Opcodes whose two operand bytes index the constants.
pub open spec fn names_constant(op: u8) -> bool {
    op == OP_CONSTANT || op == OP_ADDCONSTANT || op == OP_SUBTRACTCONSTANT || op == OP_MULTIPLYCONSTANT
        || op == OP_DIVIDECONSTANT || op == OP_EQCONSTANT || op == OP_CALLCONSTANT
        || op == OP_CALLIMPLICITCONSTANT
}

/// The operands of an instruction as text: a one-byte operand as a number;
/// a constant index as the constant's text in quotes; a jump with a
/// constant as two numbers; other two-byte operands as one number.
pub open spec fn operand_text(consts: Seq<ValueSD>, op: u8, b: Seq<u8>) -> Seq<char> {
    if b.len() == 0 {
        Seq::empty()
    } else if b.len() == 1 {
        seq![' '] + nat_digits(b[0] as nat)
    } else {
        let n = b[0] as nat * 256 + b[1] as nat;
        if names_constant(op) && n < consts.len() {
            let t = match constant_view(consts[n as int]).text_of() {
                Some(t) => t,
                None => Seq::empty(),
            };
            seq![' ', '"'] + t + seq!['"']
        } else if b.len() == 4 {
            seq![' '] + nat_digits(n) + seq![' '] + nat_digits(b[2] as nat * 256 + b[3] as nat)
        } else {
            seq![' '] + nat_digits(n)
        }
    }
}

fn append_chars(out: &mut Vec<char>, t: &Vec<char>)
    ensures
        final(out)@ == old(out)@ + t@,
{
    let mut i: usize = 0;
    while i < t.len()
        invariant
            i <= t.len(),
            out@ == old(out)@ + t@.subrange(0, i as int),
        decreases t.len() - i,
    {
        out.push(t[i]);
        i = i + 1;
        assert(out@ =~= old(out)@ + t@.subrange(0, i as int));
    }
    assert(t@.subrange(0, t@.len() as int) =~= t@);
}

/// The name of the chunk for code typed at the prompt.
pub open spec fn main_chunk_name() -> Seq<char> {
    seq!['(', 'm', 'a', 'i', 'n', ')']
}

/// A diagnostic: the chunk's name unless it is the main chunk, the point
/// where there is one, then the message.
pub open spec fn diagnostic(name: Seq<char>, point: Option<(u32, u32)>, msg: Seq<char>) -> Seq<char> {
    let prefix = if name == main_chunk_name() {
        Seq::empty()
    } else {
        name + seq![':']
    };
    match point {
        Some((l, c)) => prefix + nat_digits(l as nat) + seq![':'] + nat_digits(c as nat) + seq![':', ' '] + msg,
        None => prefix + msg,
    }
}

fn main_name(name: &Vec<char>) -> (r: bool)
    ensures
        r == (name@ == main_chunk_name()),
{
    if name.len() != 6 {
        return false;
    }
    let r = name[0] == '(' && name[1] == 'm' && name[2] == 'a' && name[3] == 'i' && name[4] == 'n'
        && name[5] == ')';
    if r {
        assert(name@ =~= main_chunk_name());
    }
    r
}

/// The last point of a point table, or the empty point.
pub open spec fn last_point(points: Seq<(u32, u32)>) -> (u32, u32) {
    if points.len() > 0 {
        points.last()
    } else {
        (0, 0)
    }
}

/// A point table extended to `n` entries with copies of its last point.
pub open spec fn backfilled(points: Seq<(u32, u32)>, n: nat) -> Seq<(u32, u32)> {
    if points.len() >= n {
        points
    } else {
        points + Seq::new((n - points.len()) as nat, |j: int| last_point(points))
    }
}

/// One compilation step on a chunk: a byte (or opcode) added, or the
/// point of the next byte set.
pub enum PointOp {
    Byte,
    Point(u32, u32),
}

/// The number of bytes after a sequence of steps from an empty chunk.
pub open spec fn data_len_after(ops: Seq<PointOp>) -> nat
    decreases ops.len(),
{
    if ops.len() == 0 {
        0
    } else {
        data_len_after(ops.drop_last()) + if ops.last() is Byte {
            1nat
        } else {
            0nat
        }
    }
}

/// The point table after a sequence of steps from an empty chunk, as
/// `add_byte`, `add_opcode` and `set_next_point` leave it.
pub open spec fn points_after(ops: Seq<PointOp>) -> Seq<(u32, u32)>
    decreases ops.len(),
{
    if ops.len() == 0 {
        Seq::empty()
    } else {
        let p = points_after(ops.drop_last());
        let d = data_len_after(ops.drop_last());
        match ops.last() {
            PointOp::Byte => p,
            PointOp::Point(l, c) => backfilled(p, d).insert(d as int, (l, c)),
        }
    }
}

/// Each point is set while the table is no longer than the code.
pub open spec fn points_in_order(ops: Seq<PointOp>) -> bool
    decreases ops.len(),
{
    ops.len() == 0 || (points_in_order(ops.drop_last()) && (ops.last() is Point ==> points_after(
        ops.drop_last(),
    ).len() <= data_len_after(ops.drop_last())))
}

/// Point attribution: after any compilation, a byte's point is either
/// unset or was given by a `set_next_point` call made at or before the
/// compilation of that byte.
pub proof fn lemma_point_attribution(ops: Seq<PointOp>, i: int)
    requires
        points_in_order(ops),
        0 <= i < points_after(ops).len(),
        points_after(ops)[i] != (0u32, 0u32),
    ensures
        exists|k: int|
            0 <= k < ops.len() && #[trigger] ops[k] == PointOp::Point(points_after(ops)[i].0, points_after(ops)[i].1)
                && data_len_after(ops.subrange(0, k)) <= i,
    decreases ops.len(),
{
    let pre = ops.drop_last();
    let p = points_after(pre);
    let d = data_len_after(pre);
    let pt = points_after(ops)[i];
    assert forall|k: int| 0 <= k < pre.len() implies #[trigger] ops.subrange(0, k) == pre.subrange(0, k)
        && ops[k] == pre[k] by {
        assert(ops.subrange(0, k) =~= pre.subrange(0, k));
    }
    match ops.last() {
        PointOp::Byte => {
            lemma_point_attribution(pre, i);
            let k = choose|k: int|
                0 <= k < pre.len() && #[trigger] pre[k] == PointOp::Point(pt.0, pt.1)
                    && data_len_after(pre.subrange(0, k)) <= i;
            assert(ops[k] == pre[k]);
            assert(ops.subrange(0, k) == pre.subrange(0, k));
        },
        PointOp::Point(l, c) => {
            let b = backfilled(p, d);
            assert(b.len() == d);
            if i == d {
                let k = ops.len() - 1;
                assert(ops.subrange(0, k) =~= pre);
                assert(ops[k] == PointOp::Point(pt.0, pt.1));
            } else {
                let j = if i < p.len() {
                    i
                } else {
                    p.len() - 1
                };
                if i >= p.len() {
                    assert(b[i] == last_point(p));
                    assert(p.len() > 0);
                }
                assert(pt == p[j]);
                lemma_point_attribution(pre, j);
                let k = choose|k: int|
                    0 <= k < pre.len() && #[trigger] pre[k] == PointOp::Point(p[j].0, p[j].1)
                        && data_len_after(pre.subrange(0, k)) <= j;
                assert(ops[k] == pre[k]);
                assert(ops.subrange(0, k) == pre.subrange(0, k));
            }
        },
    }
}

/// A compiled unit of code: its bytes, the source point of each byte, its
/// constants, the functions defined in it (by handle), and how it is run.
pub struct Chunk {
    pub name: String,
    pub data: Vec<u8>,
    pub points: Vec<(u32, u32)>,
    pub constants: Vec<ValueSD>,
    pub functions: Vec<(String, usize)>,
    pub constant_values: Vec<Value>,
    pub is_generator: bool,
    pub has_vars: bool,
    pub arg_count: i32,
    pub req_arg_count: i32,
    pub nested: bool,
    pub scope_depth: u32,
}

impl Chunk {
    pub open spec fn wf(&self) -> bool {
        forall|i: int| 0 <= i < self.constants@.len() ==> constant_wf(#[trigger] self.constants@[i])
    }

    /// A chunk with nothing in it, not a generator.
    pub fn new_standard(name: String) -> (r: Chunk)
        ensures
            r.name@ == name@,
            r.data@.len() == 0,
            r.points@.len() == 0,
            r.constants@.len() == 0,
            r.functions@.len() == 0,
            r.constant_values@.len() == 0,
            !r.is_generator,
            r.has_vars,
            r.arg_count == 0,
            r.req_arg_count == 0,
            !r.nested,
            r.scope_depth == 0,
            r.wf(),
    {
        Chunk {
            name,
            data: Vec::new(),
            points: Vec::new(),
            constants: Vec::new(),
            functions: Vec::new(),
            constant_values: Vec::new(),
            is_generator: false,
            has_vars: true,
            arg_count: 0,
            req_arg_count: 0,
            nested: false,
            scope_depth: 0,
        }
    }

    /// A chunk with nothing in it for a generator function.
    pub fn new_generator(name: String, arg_count: i32, req_arg_count: i32) -> (r: Chunk)
        ensures
            r.name@ == name@,
            r.data@.len() == 0,
            r.points@.len() == 0,
            r.constants@.len() == 0,
            r.functions@.len() == 0,
            r.constant_values@.len() == 0,
            r.is_generator,
            r.has_vars,
            r.arg_count == arg_count,
            r.req_arg_count == req_arg_count,
            !r.nested,
            r.scope_depth == 0,
            r.wf(),
    {
        Chunk {
            name,
            data: Vec::new(),
            points: Vec::new(),
            constants: Vec::new(),
            functions: Vec::new(),
            constant_values: Vec::new(),
            is_generator: true,
            has_vars: true,
            arg_count,
            req_arg_count,
            nested: false,
            scope_depth: 0,
        }
    }

    /// Adds a constant and returns its index.
    pub fn add_constant(&mut self, value: Value) -> (r: i32)
        requires
            serialisable(value.view()),
            old(self).constants@.len() < i32::MAX,
            old(self).wf(),
        ensures
            r == old(self).constants@.len(),
            final(self).constants@.len() == old(self).constants@.len() + 1,
            final(self).constants@.subrange(0, r as int) == old(self).constants@,
            constant_view(final(self).constants@[r as int]) == value.view(),
            final(self).wf(),
            final(self).data == old(self).data,
            final(self).points == old(self).points,
    {
        let sd = match value {
            Value::Null => ValueSD::Null,
            Value::Bool(b) => ValueSD::Bool(b),
            Value::Int(n) => ValueSD::Int(n),
            Value::BigInt(b) => {
                let t = crate::bignum::big_text(&b);
                proof {
                    lemma_decimal_round_trip(b.value());
                }
                ValueSD::BigInt(t)
            },
            Value::String(st) => ValueSD::String(st.string, st.escaped_string),
            Value::Command(s, o) => ValueSD::Command(s, o),
            Value::CommandUncaptured(s) => ValueSD::CommandUncaptured(s),
            _ => ValueSD::Null,
        };
        let n = self.constants.len();
        self.constants.push(sd);
        assert(self.constants@.subrange(0, n as int) =~= old(self).constants@);
        n as i32
    }

    /// The value of a stored constant.
    pub fn get_constant(&self, i: i32) -> (r: Value)
        requires
            0 <= i < self.constants@.len(),
            self.wf(),
        ensures
            r.view() == constant_view(self.constants@[i as int]),
    {
        let c = &self.constants[i as usize];
        assert(constant_wf(self.constants@[i as int]));
        match c {
            ValueSD::Null => Value::Null,
            ValueSD::Bool(b) => Value::Bool(*b),
            ValueSD::Int(n) => Value::Int(*n),
            ValueSD::BigInt(t) => {
                let b = crate::value::parse_bigint(t.as_str());
                Value::BigInt(b.unwrap())
            },
            ValueSD::String(s, e) => Value::String(StringTriple::new_with_escaped(s.clone(), e.clone())),
            ValueSD::Command(s, o) => {
                let mut opts: Vec<char> = Vec::new();
                let mut k: usize = 0;
                while k < o.len()
                    invariant
                        k <= o.len(),
                        opts@ == o@.subrange(0, k as int),
                    decreases o.len() - k,
                {
                    opts.push(o[k]);
                    k = k + 1;
                }
                assert(opts@ =~= o@);
                Value::Command(s.clone(), opts)
            },
            ValueSD::CommandUncaptured(s) => Value::CommandUncaptured(s.clone()),
        }
    }

    /// The materialised value of a constant, or null where there is none.
    pub fn get_constant_value(&self, i: i32) -> (r: Value)
        ensures
            0 <= i < self.constant_values@.len() ==> r.view() == self.constant_values@[i as int].view(),
            !(0 <= i < self.constant_values@.len()) ==> r is Null,
    {
        if i < 0 || i as usize >= self.constant_values.len() {
            Value::Null
        } else {
            self.constant_values[i as usize].value_clone()
        }
    }

    /// The constant at an index if it is an int, else 0.
    pub fn get_constant_int(&self, i: i32) -> (r: i32)
        requires
            0 <= i < self.constants@.len(),
        ensures
            r == match self.constants@[i as int] {
                ValueSD::Int(n) => n,
                _ => 0,
            },
    {
        match &self.constants[i as usize] {
            ValueSD::Int(n) => *n,
            _ => 0,
        }
    }

    /// Whether the constant at an index is an int.
    pub fn has_constant_int(&self, i: i32) -> (r: bool)
        requires
            0 <= i < self.constants@.len(),
        ensures
            r == (self.constants@[i as int] is Int),
    {
        match &self.constants[i as usize] {
            ValueSD::Int(_) => true,
            _ => false,
        }
    }

    /// Appends an opcode.
    pub fn add_opcode(&mut self, opcode: u8)
        ensures
            final(self).data@ == old(self).data@.push(opcode),
            final(self).points == old(self).points,
            final(self).constants == old(self).constants,
    {
        self.data.push(opcode);
    }

    /// Appends a raw byte.
    pub fn add_byte(&mut self, byte: u8)
        ensures
            final(self).data@ == old(self).data@.push(byte),
            final(self).points == old(self).points,
            final(self).constants == old(self).constants,
    {
        self.data.push(byte);
    }

    /// Removes the last byte, if any.
    pub fn pop_byte(&mut self)
        ensures
            old(self).data@.len() > 0 ==> final(self).data@ == old(self).data@.drop_last(),
            old(self).data@.len() == 0 ==> final(self).data@ == old(self).data@,
            final(self).points == old(self).points,
            final(self).constants == old(self).constants,
    {
        self.data.pop();
    }

    /// The last opcode.
    pub fn get_last_opcode(&self) -> (r: u8)
        requires
            self.data@.len() > 0,
        ensures
            r == self.data@.last(),
    {
        self.data[self.data.len() - 1]
    }

    /// The last byte.
    pub fn get_last_byte(&self) -> (r: u8)
        requires
            self.data@.len() > 0,
        ensures
            r == self.data@.last(),
    {
        self.data[self.data.len() - 1]
    }

    /// The second-last opcode, or the call opcode where there are fewer than two bytes.
    pub fn get_second_last_opcode(&self) -> (r: u8)
        ensures
            self.data@.len() < 2 ==> r == OP_CALL,
            self.data@.len() >= 2 ==> r == self.data@[self.data@.len() - 2],
    {
        let n = self.data.len();
        if n < 2 {
            return OP_CALL;
        }
        self.data[n - 2]
    }

    /// The third-last opcode, or the call opcode where there are fewer than three bytes.
    pub fn get_third_last_opcode(&self) -> (r: u8)
        ensures
            self.data@.len() < 3 ==> r == OP_CALL,
            self.data@.len() >= 3 ==> r == self.data@[self.data@.len() - 3],
    {
        let n = self.data.len();
        if n < 3 {
            return OP_CALL;
        }
        self.data[n - 3]
    }

    /// The fourth-last opcode, or the call opcode where there are fewer than four bytes.
    pub fn get_fourth_last_opcode(&self) -> (r: u8)
        ensures
            self.data@.len() < 4 ==> r == OP_CALL,
            self.data@.len() >= 4 ==> r == self.data@[self.data@.len() - 4],
    {
        let n = self.data.len();
        if n < 4 {
            return OP_CALL;
        }
        self.data[n - 4]
    }

    /// The second-last byte, or 0 where there are fewer than two bytes.
    pub fn get_second_last_byte(&self) -> (r: u8)
        ensures
            self.data@.len() < 2 ==> r == 0,
            self.data@.len() >= 2 ==> r == self.data@[self.data@.len() - 2],
    {
        let n = self.data.len();
        if n < 2 {
            return 0;
        }
        self.data[n - 2]
    }

    /// The third-last byte, or 0 where there are fewer than three bytes.
    pub fn get_third_last_byte(&self) -> (r: u8)
        ensures
            self.data@.len() < 3 ==> r == 0,
            self.data@.len() >= 3 ==> r == self.data@[self.data@.len() - 3],
    {
        let n = self.data.len();
        if n < 3 {
            return 0;
        }
        self.data[n - 3]
    }

    /// Replaces the last opcode.
    pub fn set_last_opcode(&mut self, opcode: u8)
        requires
            old(self).data@.len() >= 1,
        ensures
            final(self).data@ == old(self).data@.update(old(self).data@.len() - 1, opcode),
            final(self).points == old(self).points,
            final(self).constants == old(self).constants,
    {
        let n = self.data.len();
        self.data.set(n - 1, opcode);
    }

    /// Replaces the second-last opcode.
    pub fn set_second_last_opcode(&mut self, opcode: u8)
        requires
            old(self).data@.len() >= 2,
        ensures
            final(self).data@ == old(self).data@.update(old(self).data@.len() - 2, opcode),
            final(self).points == old(self).points,
            final(self).constants == old(self).constants,
    {
        let n = self.data.len();
        self.data.set(n - 2, opcode);
    }

    /// Replaces the third-last opcode.
    pub fn set_third_last_opcode(&mut self, opcode: u8)
        requires
            old(self).data@.len() >= 3,
        ensures
            final(self).data@ == old(self).data@.update(old(self).data@.len() - 3, opcode),
            final(self).points == old(self).points,
            final(self).constants == old(self).constants,
    {
        let n = self.data.len();
        self.data.set(n - 3, opcode);
    }

    /// Replaces the fourth-last opcode.
    pub fn set_fourth_last_opcode(&mut self, opcode: u8)
        requires
            old(self).data@.len() >= 4,
        ensures
            final(self).data@ == old(self).data@.update(old(self).data@.len() - 4, opcode),
            final(self).points == old(self).points,
            final(self).constants == old(self).constants,
    {
        let n = self.data.len();
        self.data.set(n - 4, opcode);
    }

    /// Replaces the last byte.
    pub fn set_last_byte(&mut self, byte: u8)
        requires
            old(self).data@.len() >= 1,
        ensures
            final(self).data@ == old(self).data@.update(old(self).data@.len() - 1, byte),
            final(self).points == old(self).points,
            final(self).constants == old(self).constants,
    {
        let n = self.data.len();
        self.data.set(n - 1, byte);
    }

    /// Replaces the second-last byte.
    pub fn set_second_last_byte(&mut self, byte: u8)
        requires
            old(self).data@.len() >= 2,
        ensures
            final(self).data@ == old(self).data@.update(old(self).data@.len() - 2, byte),
            final(self).points == old(self).points,
            final(self).constants == old(self).constants,
    {
        let n = self.data.len();
        self.data.set(n - 2, byte);
    }

    /// Replaces the third-last byte.
    pub fn set_third_last_byte(&mut self, byte: u8)
        requires
            old(self).data@.len() >= 3,
        ensures
            final(self).data@ == old(self).data@.update(old(self).data@.len() - 3, byte),
            final(self).points == old(self).points,
            final(self).constants == old(self).constants,
    {
        let n = self.data.len();
        self.data.set(n - 3, byte);
    }

    /// Sets the source point of the next byte to be added. Bytes before it
    /// that have no point yet take the last point known.
    pub fn set_next_point(&mut self, line_number: u32, column_number: u32)
        ensures
            final(self).data == old(self).data,
            final(self).constants == old(self).constants,
            final(self).points@ == backfilled(old(self).points@, old(self).data@.len()).insert(
                old(self).data@.len() as int,
                (line_number, column_number),
            ),
            final(self).points@[old(self).data@.len() as int] == (line_number, column_number),
            forall|i: int|
                0 <= i < final(self).points@.len() && i != old(self).data@.len() ==> {
                    let p = #[trigger] final(self).points@[i];
                    p == (0u32, 0u32) || old(self).points@.contains(p)
                },
    {
        let data_len = self.data.len();
        let points_len = self.points.len();
        let mut prev: (u32, u32) = (0, 0);
        if points_len > 0 {
            prev = self.points[points_len - 1];
        }
        let ghost start = self.points@;
        while self.points.len() < data_len
            invariant
                self.data == old(self).data,
                self.constants == old(self).constants,
                data_len == self.data@.len(),
                start == old(self).points@,
                prev == last_point(start),
                self.points@.len() >= start.len(),
                self.points@.len() <= data_len || self.points@ == start,
                self.points@ == start + Seq::new((self.points@.len() - start.len()) as nat, |j: int| prev),
            decreases data_len - self.points@.len(),
        {
            self.points.push(prev);
            assert(self.points@ =~= start + Seq::new((self.points@.len() - start.len()) as nat, |j: int| prev));
        }
        assert(self.points@ =~= backfilled(start, data_len as nat));
        self.points.insert(data_len, (line_number, column_number));
        proof {
            let f = backfilled(start, data_len as nat);
            assert forall|i: int| 0 <= i < self.points@.len() && i != data_len implies {
                let p = #[trigger] self.points@[i];
                p == (0u32, 0u32) || start.contains(p)
            } by {
                let j = if i < data_len { i } else { i - 1 };
                assert(self.points@[i] == f[j]);
                if j < start.len() {
                    assert(start.contains(start[j]));
                } else if start.len() > 0 {
                    assert(start.contains(start[start.len() - 1]));
                }
            }
        }
    }

    /// The source point of a byte, if it has one.
    pub fn get_point(&self, i: usize) -> (r: Option<(u32, u32)>)
        ensures
            i < self.points@.len() && self.points@[i as int] != (0u32, 0u32) ==> r == Some(self.points@[i as int]),
            !(i < self.points@.len() && self.points@[i as int] != (0u32, 0u32)) ==> r.is_none(),
    {
        if i >= self.points.len() {
            return None;
        }
        let p = self.points[i];
        if p.0 == 0 && p.1 == 0 {
            None
        } else {
            Some(p)
        }
    }

    /// Replaces the source point of a byte.
    pub fn set_previous_point(&mut self, i: usize, line_number: u32, column_number: u32)
        requires
            i < old(self).points@.len(),
        ensures
            final(self).points@ == old(self).points@.update(i as int, (line_number, column_number)),
            final(self).data == old(self).data,
            final(self).constants == old(self).constants,
    {
        self.points.set(i, (line_number, column_number));
    }

    /// Whether every bigint constant's text is decimal, as `get_constant`
    /// needs; a chunk loaded from storage is checked with this.
    pub fn is_wf(&self) -> (r: bool)
        ensures
            r == self.wf(),
    {
        let mut i: usize = 0;
        while i < self.constants.len()
            invariant
                i <= self.constants@.len(),
                forall|j: int| 0 <= j < i ==> constant_wf(#[trigger] self.constants@[j]),
            decreases self.constants@.len() - i,
        {
            match &self.constants[i] {
                ValueSD::BigInt(t) => {
                    let cs = chars_of(t.as_str());
                    if !crate::text::is_decimal(&cs) {
                        assert(!constant_wf(self.constants@[i as int]));
                        return false;
                    }
                },
                _ => {},
            }
            i = i + 1;
        }
        true
    }

    /// The diagnostic for an error at a byte: `name:line:col: message`, with
    /// no name for the main chunk and no position where the byte has none.
    pub fn error_text(&self, i: usize, error: &str) -> (r: String)
        ensures
            r@ == diagnostic(self.name@, if i < self.points@.len() && self.points@[i as int] != (0u32, 0u32) {
                Some(self.points@[i as int])
            } else {
                None
            }, error@),
    {
        let name = chars_of(self.name.as_str());
        let mut out: Vec<char> = Vec::new();
        let is_main = main_name(&name);
        if !is_main {
            out = name;
            out.push(':');
        }
        match self.get_point(i) {
            Some((line, col)) => {
                push_digits(&mut out, line as u64);
                out.push(':');
                push_digits(&mut out, col as u64);
                out.push(':');
                out.push(' ');
            },
            None => {},
        }
        let msg = chars_of(error);
        let mut k: usize = 0;
        let ghost pre = out@;
        while k < msg.len()
            invariant
                k <= msg.len(),
                out@ == pre + msg@.subrange(0, k as int),
            decreases msg.len() - k,
        {
            out.push(msg[k]);
            k = k + 1;
            assert(out@ =~= pre + msg@.subrange(0, k as int));
        }
        assert(msg@.subrange(0, msg@.len() as int) =~= msg@);
        assert(out@ =~= diagnostic(self.name@, if i < self.points@.len() && self.points@[i as int] != (0u32, 0u32) {
            Some(self.points@[i as int])
        } else {
            None
        }, error@));
        string_from_chars(&out)
    }

    /// The chunk's instructions in order.
    pub fn disassemble(&self) -> (r: Vec<Instruction>)
        ensures
            r@.map_values(|i: Instruction| instruction_view(i)) == decode(self.data@, 0),
    {
        let n = self.data.len();
        let mut out: Vec<Instruction> = Vec::new();
        let mut i: usize = 0;
        while i < n
            invariant
                i <= n,
                n == self.data@.len(),
                out@.map_values(|x: Instruction| instruction_view(x)) + decode(self.data@, i as int)
                    == decode(self.data@, 0),
            decreases n - i,
        {
            let op = self.data[i];
            let w = operand_width_of(op);
            let end = if w < n - i {
                i + 1 + w
            } else {
                n
            };
            let mut operands: Vec<u8> = Vec::new();
            let mut k: usize = i + 1;
            while k < end
                invariant
                    i + 1 <= k <= end,
                    end <= n,
                    n == self.data@.len(),
                    operands@ == self.data@.subrange(i + 1, k as int),
                decreases end - k,
            {
                operands.push(self.data[k]);
                k = k + 1;
                assert(operands@ =~= self.data@.subrange(i + 1, k as int));
            }
            let ghost before = out@.map_values(|x: Instruction| instruction_view(x));
            out.push(Instruction { offset: i, opcode: op, operands });
            proof {
                assert(out@.map_values(|x: Instruction| instruction_view(x)) =~= before.push(
                    (i as int, op, self.data@.subrange(i + 1, end as int)),
                ));
                assert(decode(self.data@, i as int) =~= seq![(i as int, op, self.data@.subrange(i + 1, end as int))]
                    + decode(self.data@, end as int));
                assert(before.push((i as int, op, self.data@.subrange(i + 1, end as int))) + decode(self.data@, end as int)
                    =~= before + decode(self.data@, i as int));
            }
            i = end;
        }
        proof {
            assert(decode(self.data@, n as int) =~= Seq::<(int, u8, Seq<u8>)>::empty());
            assert(out@.map_values(|x: Instruction| instruction_view(x)) + Seq::<(int, u8, Seq<u8>)>::empty()
                =~= out@.map_values(|x: Instruction| instruction_view(x)));
        }
        out
    }

    /// One line of disassembly: the mnemonic, then the operands.
    pub fn instruction_text(&self, ins: &Instruction) -> (r: String)
        requires
            self.wf(),
        ensures
            r@ == mnemonic(ins.opcode) + operand_text(self.constants@, ins.opcode, ins.operands@),
    {
        let name = chars_of(opcode_name(ins.opcode));
        let mut out: Vec<char> = Vec::new();
        append_chars(&mut out, &name);
        let b = &ins.operands;
        let op = ins.opcode;
        if b.len() == 1 {
            out.push(' ');
            push_digits(&mut out, b[0] as u64);
        } else if b.len() >= 2 {
            let n: usize = b[0] as usize * 256 + b[1] as usize;
            if (op == OP_CONSTANT || op == OP_ADDCONSTANT || op == OP_SUBTRACTCONSTANT || op == OP_MULTIPLYCONSTANT
                || op == OP_DIVIDECONSTANT || op == OP_EQCONSTANT || op == OP_CALLCONSTANT
                || op == OP_CALLIMPLICITCONSTANT) && n < self.constants.len() {
                out.push(' ');
                out.push('"');
                match self.get_constant(n as i32).to_string() {
                    Some(t) => {
                        let tc = chars_of(t.as_str());
                        append_chars(&mut out, &tc);
                    },
                    None => {},
                }
                out.push('"');
            } else if b.len() == 4 {
                out.push(' ');
                push_digits(&mut out, n as u64);
                out.push(' ');
                push_digits(&mut out, (b[2] as usize * 256 + b[3] as usize) as u64);
            } else {
                out.push(' ');
                push_digits(&mut out, n as u64);
            }
        }
        assert(out@ =~= mnemonic(ins.opcode) + operand_text(self.constants@, ins.opcode, ins.operands@));
        string_from_chars(&out)
    }

    /// The most recently added constant.
    pub fn get_last_constant(&mut self) -> (r: Value)
        requires
            0 < old(self).constants@.len() <= i32::MAX,
            old(self).wf(),
        ensures
            *final(self) == *old(self),
            r.view() == constant_view(old(self).constants@.last()),
    {
        let n = self.constants.len();
        self.get_constant((n - 1) as i32)
    }
}

} // verus!
