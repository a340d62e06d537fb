use vstd::prelude::*;
use crate::bignum::{BigNum, fits_i32};
use crate::text::{chars_of, string_from_chars, i32_text_value, decimal_text, decimal_value, int_text};
use crate::ip::{ip_text, ipv4_net_string, ipv6_net_string, ipv4_range_string, ipv6_range_string};

verus! {

/// What a character becomes in escaped text: a backslash is doubled; a
/// newline, carriage return, tab or quote becomes `\n`, `\r`, `\t` or
/// `\"`; every other character stays as it is.
pub open spec fn escape_char(c: char) -> Seq<char> {
    if c == '\\' {
        seq!['\\', '\\']
    } else if c == '\n' {
        seq!['\\', 'n']
    } else if c == '\r' {
        seq!['\\', 'r']
    } else if c == '\t' {
        seq!['\\', 't']
    } else if c == '"' {
        seq!['\\', '"']
    } else {
        seq![c]
    }
}

/// The escaped form of a raw text: each character escaped in turn.
pub open spec fn escaped(s: Seq<char>) -> Seq<char>
    decreases s.len(),
{
    if s.len() == 0 {
        Seq::empty()
    } else {
        escaped(s.drop_last()) + escape_char(s.last())
    }
}

/// Takes a display string and returns its escaped form.
pub fn escape_string(s: &str) -> (r: String)
    ensures
        r@ == escaped(s@),
{
    let cs = chars_of(s);
    let mut out: Vec<char> = Vec::new();
    let mut i: usize = 0;
    while i < cs.len()
        invariant
            i <= cs.len(),
            cs@ == s@,
            out@ == escaped(cs@.subrange(0, i as int)),
        decreases cs.len() - i,
    {
        let c = cs[i];
        proof {
            assert(cs@.subrange(0, i + 1).drop_last() =~= cs@.subrange(0, i as int));
        }
        if c == '\\' {
            out.push('\\');
            out.push('\\');
        } else if c == '\n' {
            out.push('\\');
            out.push('n');
        } else if c == '\r' {
            out.push('\\');
            out.push('r');
        } else if c == '\t' {
            out.push('\\');
            out.push('t');
        } else if c == '"' {
            out.push('\\');
            out.push('"');
        } else {
            out.push(c);
        }
        i = i + 1;
        proof {
            assert(out@ =~= escaped(cs@.subrange(0, i - 1)) + escape_char(c));
        }
    }
    assert(cs@.subrange(0, cs@.len() as int) =~= s@);
    string_from_chars(&out)
}

/// A string value: the raw text and its escaped form.
pub struct StringTriple {
    pub string: String,
    pub escaped_string: String,
}

impl StringTriple {
    pub open spec fn wf(&self) -> bool {
        self.escaped_string@ == escaped(self.string@)
    }

    pub fn new(s: String) -> (r: StringTriple)
        ensures
            r.string@ == s@,
            r.wf(),
    {
        let e = escape_string(s.as_str());
        StringTriple { string: s, escaped_string: e }
    }

    pub fn new_with_escaped(s: String, e: String) -> (r: StringTriple)
        ensures
            r.string@ == s@,
            r.escaped_string@ == e@,
    {
        StringTriple { string: s, escaped_string: e }
    }
}

/// An IPv4 network: an address and a prefix length.
#[derive(Clone, Copy)]
pub struct Ipv4Net {
    pub addr: u32,
    pub prefix: u8,
}

/// An IPv6 network: an address and a prefix length.
#[derive(Clone, Copy)]
pub struct Ipv6Net {
    pub addr: u128,
    pub prefix: u8,
}

/// An IPv4 range with inclusive start and end addresses.
#[derive(Clone, Copy)]
pub struct Ipv4Range {
    pub s: u32,
    pub e: u32,
}

impl Ipv4Range {
    pub fn new(s: u32, e: u32) -> (r: Ipv4Range)
        ensures
            r.s == s,
            r.e == e,
    {
        Ipv4Range { s, e }
    }
}

/// An IPv6 range with inclusive start and end addresses.
#[derive(Clone, Copy)]
pub struct Ipv6Range {
    pub s: u128,
    pub e: u128,
}

impl Ipv6Range {
    pub fn new(s: u128, e: u128) -> (r: Ipv6Range)
        ensures
            r.s == s,
            r.e == e,
    {
        Ipv6Range { s, e }
    }
}

/// A set of IP networks: IPv4 and IPv6 networks, each list sorted by
/// address, with host bits zero and no two networks overlapping.
pub struct IpSet {
    pub ipv4: Vec<Ipv4Net>,
    pub ipv6: Vec<Ipv6Net>,
}

impl IpSet {
    pub open spec fn wf(&self) -> bool {
        crate::ip::nets4_wf(self.ipv4@) && crate::ip::nets6_wf(self.ipv6@)
    }

    /// An IP set of the given networks, where they are in order, valid and
    /// disjoint.
    pub fn new(ipv4: Vec<Ipv4Net>, ipv6: Vec<Ipv6Net>) -> (r: Option<IpSet>)
        ensures
            r.is_some() == (crate::ip::nets4_wf(ipv4@) && crate::ip::nets6_wf(ipv6@)),
            r.is_some() ==> r.unwrap().ipv4@ == ipv4@ && r.unwrap().ipv6@ == ipv6@,
    {
        if crate::ip::check_nets4(&ipv4) && crate::ip::check_nets6(&ipv6) {
            Some(IpSet { ipv4, ipv6 })
        } else {
            None
        }
    }
}

fn copy_vec<T: Copy>(v: &Vec<T>) -> (r: Vec<T>)
    ensures
        r@ == v@,
{
    let mut out: Vec<T> = Vec::new();
    let mut i: usize = 0;
    while i < v.len()
        invariant
            i <= v.len(),
            out@ == v@.subrange(0, i as int),
        decreases v.len() - i,
    {
        out.push(v[i]);
        i = i + 1;
    }
    assert(out@ =~= v@);
    out
}

/// A suspended generator: its local variables, the index of its next
/// instruction, its chunk, the chunks of the frames above it (with their
/// return indexes), and the arguments still to be passed on first resume.
/// Chunks are named by their handle in the program's chunk store.
pub struct GeneratorObject {
    pub local_vars_stack: Vec<Value>,
    pub index: usize,
    pub chunk: usize,
    pub call_stack_chunks: Vec<(usize, usize)>,
    pub gen_args: Vec<Value>,
}

impl GeneratorObject {
    pub fn new(
        local_vars_stack: Vec<Value>,
        index: usize,
        chunk: usize,
        call_stack_chunks: Vec<(usize, usize)>,
        gen_args: Vec<Value>,
    ) -> (r: GeneratorObject)
        ensures
            r.local_vars_stack == local_vars_stack,
            r.index == index,
            r.chunk == chunk,
            r.call_stack_chunks == call_stack_chunks,
            r.gen_args == gen_args,
    {
        GeneratorObject { local_vars_stack, index, chunk, call_stack_chunks, gen_args }
    }
}

/// A hash's entries paired with the index of the next one to hand out.
pub struct HashWithIndex {
    pub i: usize,
    pub h: Vec<(String, Value)>,
}

/// What a hash iterator hands out for an entry.
#[derive(Clone, Copy, PartialEq, Eq, Structural)]
pub enum HashPart {
    Key,
    Val,
    Pair,
}

/// The value a hash iterator hands out for an entry: the key as a string,
/// the value, or a two-element list of both.
pub open spec fn entry_part(e: (Seq<char>, VView), part: HashPart) -> VView {
    match part {
        HashPart::Key => VView::String(e.0, escaped(e.0)),
        HashPart::Val => e.1,
        HashPart::Pair => VView::List(seq![VView::String(e.0, escaped(e.0)), e.1]),
    }
}

impl HashWithIndex {
    pub fn new(i: usize, h: Vec<(String, Value)>) -> (r: HashWithIndex)
        ensures
            r.i == i,
            r.h == h,
    {
        HashWithIndex { i, h }
    }

    /// Hands out the next entry's key, value or pair and moves on; null once
    /// every entry has been handed out.
    pub fn shift(&mut self, part: HashPart) -> (r: Value)
        ensures
            final(self).h == old(self).h,
            old(self).i < old(self).h@.len() ==> final(self).i == old(self).i + 1
                && r.view() == entry_part(entries_view(old(self).h@)[old(self).i as int], part),
            old(self).i >= old(self).h@.len() ==> final(self).i == old(self).i && r is Null,
    {
        if self.i >= self.h.len() {
            return Value::Null;
        }
        let k = self.h[self.i].0.clone();
        let r = match part {
            HashPart::Key => Value::new_string(k),
            HashPart::Val => self.h[self.i].1.value_clone(),
            HashPart::Pair => {
                let v = self.h[self.i].1.value_clone();
                let l = vec![Value::new_string(k), v];
                proof {
                    assert(values_view(l@) =~= seq![values_view(l@)[0], values_view(l@)[1]]);
                }
                Value::List(l)
            },
        };
        self.i = self.i + 1;
        r
    }
}

/// The universal datum. Operating-system resources, callables and
/// date-times are handles into a store kept by the embedding program.
pub enum Value {
    Null,
    Bool(bool),
    Int(i32),
    BigInt(BigNum),
    String(StringTriple),
    Command(String, Vec<char>),
    CommandUncaptured(String),
    List(Vec<Value>),
    Hash(Vec<(String, Value)>),
    ValueSet(Vec<(String, Value)>),
    AnonymousFunction(usize),
    CoreFunction(usize),
    NamedFunction(usize),
    Generator(GeneratorObject),
    CommandGenerator(usize),
    KeysGenerator(HashWithIndex),
    ValuesGenerator(HashWithIndex),
    EachGenerator(HashWithIndex),
    FileReader(usize),
    FileWriter(usize),
    DirectoryHandle(usize),
    DateTimeNT(usize),
    DateTimeOT(usize),
    Ipv4(Ipv4Net),
    Ipv6(Ipv6Net),
    Ipv4Range(Ipv4Range),
    Ipv6Range(Ipv6Range),
    IpSet(IpSet),
    MultiGenerator(usize),
}

/// The mathematical content of a value: sequences in place of vectors,
/// a number in place of a big integer's bytes.
pub enum VView {
    Null,
    Bool(bool),
    Int(i32),
    BigInt(int),
    String(Seq<char>, Seq<char>),
    Command(Seq<char>, Seq<char>),
    CommandUncaptured(Seq<char>),
    List(Seq<VView>),
    Hash(Seq<(Seq<char>, VView)>),
    ValueSet(Seq<(Seq<char>, VView)>),
    AnonymousFunction(usize),
    CoreFunction(usize),
    NamedFunction(usize),
    Generator(Seq<VView>, usize, usize, Seq<(usize, usize)>, Seq<VView>),
    CommandGenerator(usize),
    KeysGenerator(usize, Seq<(Seq<char>, VView)>),
    ValuesGenerator(usize, Seq<(Seq<char>, VView)>),
    EachGenerator(usize, Seq<(Seq<char>, VView)>),
    FileReader(usize),
    FileWriter(usize),
    DirectoryHandle(usize),
    DateTimeNT(usize),
    DateTimeOT(usize),
    Ipv4(u32, u8),
    Ipv6(u128, u8),
    Ipv4Range(u32, u32),
    Ipv6Range(u128, u128),
    IpSet(Seq<Ipv4Net>, Seq<Ipv6Net>),
    MultiGenerator(usize),
}

pub open spec fn values_view(l: Seq<Value>) -> Seq<VView>
    decreases l,
{
    Seq::new(l.len(), |i: int| if 0 <= i < l.len() { l[i].view() } else { VView::Null })
}

pub open spec fn entries_view(l: Seq<(String, Value)>) -> Seq<(Seq<char>, VView)>
    decreases l,
{
    Seq::new(
        l.len(),
        |i: int|
            if 0 <= i < l.len() {
                (l[i].0@, l[i].1.view())
            } else {
                (Seq::empty(), VView::Null)
            },
    )
}

impl Value {
    pub open spec fn view(&self) -> VView
        decreases self,
    {
        match self {
            Value::Null => VView::Null,
            Value::Bool(b) => VView::Bool(*b),
            Value::Int(n) => VView::Int(*n),
            Value::BigInt(b) => VView::BigInt(b.value()),
            Value::String(st) => VView::String(st.string@, st.escaped_string@),
            Value::Command(s, o) => VView::Command(s@, o@),
            Value::CommandUncaptured(s) => VView::CommandUncaptured(s@),
            Value::List(l) => VView::List(values_view(l@)),
            Value::Hash(h) => VView::Hash(entries_view(h@)),
            Value::ValueSet(h) => VView::ValueSet(entries_view(h@)),
            Value::AnonymousFunction(k) => VView::AnonymousFunction(*k),
            Value::CoreFunction(k) => VView::CoreFunction(*k),
            Value::NamedFunction(k) => VView::NamedFunction(*k),
            Value::Generator(g) => VView::Generator(
                values_view(g.local_vars_stack@),
                g.index,
                g.chunk,
                g.call_stack_chunks@,
                values_view(g.gen_args@),
            ),
            Value::CommandGenerator(k) => VView::CommandGenerator(*k),
            Value::KeysGenerator(h) => VView::KeysGenerator(h.i, entries_view(h.h@)),
            Value::ValuesGenerator(h) => VView::ValuesGenerator(h.i, entries_view(h.h@)),
            Value::EachGenerator(h) => VView::EachGenerator(h.i, entries_view(h.h@)),
            Value::FileReader(k) => VView::FileReader(*k),
            Value::FileWriter(k) => VView::FileWriter(*k),
            Value::DirectoryHandle(k) => VView::DirectoryHandle(*k),
            Value::DateTimeNT(k) => VView::DateTimeNT(*k),
            Value::DateTimeOT(k) => VView::DateTimeOT(*k),
            Value::Ipv4(n) => VView::Ipv4(n.addr, n.prefix),
            Value::Ipv6(n) => VView::Ipv6(n.addr, n.prefix),
            Value::Ipv4Range(r) => VView::Ipv4Range(r.s, r.e),
            Value::Ipv6Range(r) => VView::Ipv6Range(r.s, r.e),
            Value::IpSet(k) => VView::IpSet(k.ipv4@, k.ipv6@),
            Value::MultiGenerator(k) => VView::MultiGenerator(*k),
        }
    }
}


pub open spec fn zero_text(s: Seq<char>) -> bool {
    s == seq!['0'] || s == seq!['0', '.', '0']
}

/// The name of the `bigint` a decimal text denotes, as num-bigint reads it.
pub uninterp spec fn bigint_text_value(s: Seq<char>) -> Option<int>;

/// Relies on `BigInt: FromStr`: the number a text denotes, if any; a sign
/// followed by decimal digits denotes its decimal value.
#[verifier::external_body]
pub(crate) fn parse_bigint(s: &str) -> (r: Option<BigNum>)
    ensures
        r.is_some() == bigint_text_value(s@).is_some(),
        r.is_some() ==> r.unwrap().value() == bigint_text_value(s@).unwrap(),
        crate::text::decimal_value(s@).is_some() ==> r.is_some()
            && r.unwrap().value() == crate::text::decimal_value(s@).unwrap(),
{
    match s.parse::<num_bigint::BigInt>() {
        Ok(b) => Some(BigNum { bytes: b.to_signed_bytes_le() }),
        Err(_) => None,
    }
}

impl VView {
    /// The variant tag.
    pub open spec fn kind(&self) -> int {
        match self {
            VView::Null => 0,
            VView::Bool(..) => 1,
            VView::Int(..) => 2,
            VView::BigInt(..) => 3,
            VView::String(..) => 4,
            VView::Command(..) => 5,
            VView::CommandUncaptured(..) => 6,
            VView::List(..) => 7,
            VView::Hash(..) => 8,
            VView::ValueSet(..) => 9,
            VView::AnonymousFunction(..) => 10,
            VView::CoreFunction(..) => 11,
            VView::NamedFunction(..) => 12,
            VView::Generator(..) => 13,
            VView::CommandGenerator(..) => 14,
            VView::KeysGenerator(..) => 15,
            VView::ValuesGenerator(..) => 16,
            VView::EachGenerator(..) => 17,
            VView::FileReader(..) => 18,
            VView::FileWriter(..) => 19,
            VView::DirectoryHandle(..) => 20,
            VView::DateTimeNT(..) => 21,
            VView::DateTimeOT(..) => 22,
            VView::Ipv4(..) => 23,
            VView::Ipv6(..) => 24,
            VView::Ipv4Range(..) => 25,
            VView::Ipv6Range(..) => 26,
            VView::IpSet(..) => 27,
            VView::MultiGenerator(..) => 28,
        }
    }

    /// The short lower-case type name.
    pub open spec fn kind_name(&self) -> Seq<char> {
        match self {
            VView::Null => "null"@,
            VView::Bool(..) => "bool"@,
            VView::Int(..) => "int"@,
            VView::BigInt(..) => "bigint"@,
            VView::String(..) => "str"@,
            VView::Command(..) => "command"@,
            VView::CommandUncaptured(..) => "command"@,
            VView::List(..) => "list"@,
            VView::Hash(..) => "hash"@,
            VView::ValueSet(..) => "set"@,
            VView::AnonymousFunction(..) => "anon-fn"@,
            VView::CoreFunction(..) => "core-fn"@,
            VView::NamedFunction(..) => "named-fn"@,
            VView::Generator(..) => "gen"@,
            VView::CommandGenerator(..) => "command-gen"@,
            VView::KeysGenerator(..) => "keys-gen"@,
            VView::ValuesGenerator(..) => "values-gen"@,
            VView::EachGenerator(..) => "each-gen"@,
            VView::FileReader(..) => "file-reader"@,
            VView::FileWriter(..) => "file-writer"@,
            VView::DirectoryHandle(..) => "dir-handle"@,
            VView::DateTimeNT(..) => "datetime"@,
            VView::DateTimeOT(..) => "datetime"@,
            VView::Ipv4(..) => "ip"@,
            VView::Ipv6(..) => "ip"@,
            VView::Ipv4Range(..) => "ip"@,
            VView::Ipv6Range(..) => "ip"@,
            VView::IpSet(..) => "ips"@,
            VView::MultiGenerator(..) => "multi-gen"@,
        }
    }

    /// Truthiness: false for false, zero, null and the texts "", "0" and
    /// "0.0"; true otherwise.
    pub open spec fn truthy(&self) -> bool {
        match self {
            VView::Null => false,
            VView::Bool(b) => *b,
            VView::Int(n) => *n != 0,
            VView::BigInt(n) => *n != 0,
            VView::String(s, _) => !(s.len() == 0 || zero_text(*s)),
            _ => true,
        }
    }

    /// Whether the value can be advanced by a shift.
    pub open spec fn shiftable(&self) -> bool {
        match self {
            VView::Generator(..) | VView::KeysGenerator(..) | VView::ValuesGenerator(..)
            | VView::EachGenerator(..) | VView::FileReader(..) | VView::DirectoryHandle(..)
            | VView::IpSet(..) | VView::MultiGenerator(..) | VView::CommandGenerator(..) => true,
            _ => false,
        }
    }

    /// The i32 a value converts to, if any.
    pub open spec fn int_of(&self) -> Option<i32> {
        match self {
            VView::Int(n) => Some(*n),
            VView::BigInt(n) => if fits_i32(*n) {
                Some(*n as i32)
            } else {
                None
            },
            VView::String(s, _) => i32_text_value(*s),
            VView::Null => Some(0),
            _ => None,
        }
    }

    /// The text a value converts to, if any.
    pub open spec fn text_of(&self) -> Option<Seq<char>> {
        match self {
            VView::Int(n) => Some(decimal_text(*n as int)),
            VView::BigInt(n) => Some(decimal_text(*n)),
            VView::String(s, _) => Some(*s),
            VView::Null => Some(Seq::empty()),
            VView::Ipv4(..) | VView::Ipv6(..) | VView::Ipv4Range(..) | VView::Ipv6Range(..) => ip_text(*self),
            VView::IpSet(v4, v6) => Some(crate::ip::ipset_text(*v4, *v6)),
            _ => None,
        }
    }

    /// The integer of any size a value converts to, if any.
    pub open spec fn bigint_of(&self) -> Option<int> {
        match self {
            VView::Int(n) => Some(*n as int),
            VView::BigInt(n) => Some(*n),
            VView::String(s, _) => if decimal_value(*s).is_some() {
                decimal_value(*s)
            } else {
                bigint_text_value(*s)
            },
            VView::Null => Some(0),
            _ => None,
        }
    }
}

fn copy_chars(v: &Vec<char>) -> (r: Vec<char>)
    ensures
        r@ == v@,
{
    let mut out: Vec<char> = Vec::new();
    let mut i: usize = 0;
    while i < v.len()
        invariant
            i <= v.len(),
            out@ == v@.subrange(0, i as int),
        decreases v.len() - i,
    {
        out.push(v[i]);
        i = i + 1;
    }
    assert(out@ =~= v@);
    out
}

fn copy_frames(v: &Vec<(usize, usize)>) -> (r: Vec<(usize, usize)>)
    ensures
        r@ == v@,
{
    let mut out: Vec<(usize, usize)> = Vec::new();
    let mut i: usize = 0;
    while i < v.len()
        invariant
            i <= v.len(),
            out@ == v@.subrange(0, i as int),
        decreases v.len() - i,
    {
        out.push(v[i]);
        i = i + 1;
    }
    assert(out@ =~= v@);
    out
}

/// A deep copy has the same truthiness as the value it copies.
pub proof fn lemma_clone_truthiness(v: Value, c: Value)
    requires
        c.view() == v.view(),
    ensures
        c.view().truthy() == v.view().truthy(),
{
}

/// An int turned to text and read back as an int is the same int.
pub proof fn lemma_int_string_round_trip(n: i32)
    ensures
        VView::Int(n).text_of().is_some(),
        ({
            let t = VView::Int(n).text_of().unwrap();
            VView::String(t, escaped(t)).int_of() == Some(n)
        }),
{
    crate::text::lemma_decimal_round_trip(n as int);
}

/// Index of the entry with a given key, or -1.
pub open spec fn key_index(es: Seq<(Seq<char>, VView)>, k: Seq<char>) -> int
    decreases es.len(),
{
    if es.len() == 0 {
        -1
    } else if key_index(es.drop_last(), k) >= 0 {
        key_index(es.drop_last(), k)
    } else if es.last().0 == k {
        es.len() - 1
    } else {
        -1
    }
}

/// Inserting into a set: a value whose key is present replaces the old one
/// in its place; a new key goes at the end.
pub open spec fn set_insert(es: Seq<(Seq<char>, VView)>, k: Seq<char>, v: VView) -> Seq<(Seq<char>, VView)> {
    let j = key_index(es, k);
    if j >= 0 {
        es.update(j, (k, v))
    } else {
        es.push((k, v))
    }
}

/// The entries of a set built from values in order, each keyed by its text.
pub open spec fn set_of(items: Seq<VView>) -> Seq<(Seq<char>, VView)>
    decreases items.len(),
{
    if items.len() == 0 {
        Seq::empty()
    } else {
        set_insert(set_of(items.drop_last()), items.last().text_of().unwrap(), items.last())
    }
}

/// A set may hold values of one kind only, each with a textual form.
pub open spec fn set_members_ok(items: Seq<VView>) -> bool {
    forall|i: int|
        0 <= i < items.len() ==> (#[trigger] items[i]).kind() == items[0].kind() && items[i].text_of().is_some()
}

proof fn lemma_key_index_bounds(es: Seq<(Seq<char>, VView)>, k: Seq<char>)
    ensures
        -1 <= key_index(es, k) < es.len(),
        key_index(es, k) >= 0 ==> es[key_index(es, k)].0 == k,
        key_index(es, k) == -1 ==> forall|j: int| 0 <= j < es.len() ==> (#[trigger] es[j]).0 != k,
    decreases es.len(),
{
    if es.len() > 0 {
        lemma_key_index_bounds(es.drop_last(), k);
        if key_index(es, k) == -1 {
            assert forall|j: int| 0 <= j < es.len() implies (#[trigger] es[j]).0 != k by {
                if j < es.len() - 1 {
                    assert(es[j] == es.drop_last()[j]);
                }
            }
        }
    }
}

proof fn lemma_key_index_first(es: Seq<(Seq<char>, VView)>, k: Seq<char>, j: int)
    requires
        0 <= j < es.len(),
        es[j].0 == k,
        forall|m: int| 0 <= m < j ==> (#[trigger] es[m]).0 != k,
    ensures
        key_index(es, k) == j,
    decreases es.len(),
{
    if j < es.len() - 1 {
        assert(es.drop_last()[j] == es[j]);
        assert forall|m: int| 0 <= m < j implies (#[trigger] es.drop_last()[m]).0 != k by {
            assert(es.drop_last()[m] == es[m]);
        }
        lemma_key_index_first(es.drop_last(), k, j);
    } else {
        lemma_key_index_bounds(es.drop_last(), k);
        if key_index(es.drop_last(), k) >= 0 {
            let m = key_index(es.drop_last(), k);
            assert(es[m] == es.drop_last()[m]);
        }
    }
}

/// Builds a set from values in order. A value of another kind than the
/// first, or one with no textual form, is a type error.
pub fn build_set(items: &Vec<Value>) -> (r: Result<Value, crate::vm::ErrorKind>)
    ensures
        set_members_ok(values_view(items@)) ==> r is Ok && r->Ok_0.view() == VView::ValueSet(
            set_of(values_view(items@)),
        ),
        !set_members_ok(values_view(items@)) ==> r == Err::<Value, crate::vm::ErrorKind>(crate::vm::ErrorKind::Type),
{
    let ghost vs = values_view(items@);
    let mut out: Vec<(String, Value)> = Vec::new();
    let mut i: usize = 0;
    while i < items.len()
        invariant
            i <= items.len(),
            vs == values_view(items@),
            set_members_ok(vs.subrange(0, i as int)),
            entries_view(out@) == set_of(vs.subrange(0, i as int)),
        decreases items.len() - i,
    {
        let v = &items[i];
        if !v.variants_equal(&items[0]) {
            proof {
                assert(!set_members_ok(vs)) by {
                    assert(vs[i as int].kind() != vs[0].kind());
                }
            }
            return Err(crate::vm::ErrorKind::Type);
        }
        let key = match v.to_string() {
            Some(k) => k,
            None => {
                proof {
                    assert(!set_members_ok(vs)) by {
                        assert(vs[i as int].text_of().is_none());
                    }
                }
                return Err(crate::vm::ErrorKind::Type);
            },
        };
        let kc = chars_of(key.as_str());
        let ghost pre = entries_view(out@);
        let mut j: usize = 0;
        let mut found = false;
        while j < out.len() && !found
            invariant
                j <= out.len(),
                pre == entries_view(out@),
                kc@ == key@,
                !found ==> forall|m: int| 0 <= m < j ==> (#[trigger] pre[m]).0 != key@,
                found ==> 0 < j && pre[j - 1].0 == key@ && forall|m: int| 0 <= m < j - 1 ==> (#[trigger] pre[m]).0 != key@,
            decreases out.len() - j + if found { 0int } else { 1int },
        {
            let ec = chars_of(out[j].0.as_str());
            if crate::arith::text_equal(&ec, &kc) {
                found = true;
            }
            j = j + 1;
        }
        let c = v.value_clone();
        proof {
            let sub = vs.subrange(0, i + 1);
            assert(sub.drop_last() =~= vs.subrange(0, i as int));
            assert(sub.last() == vs[i as int]);
            assert(vs[i as int] == v.view());
            lemma_key_index_bounds(pre, key@);
            if found {
                lemma_key_index_first(pre, key@, j - 1);
            }
            assert(set_members_ok(sub)) by {
                assert forall|m: int| 0 <= m < sub.len() implies (#[trigger] sub[m]).kind() == sub[0].kind()
                    && sub[m].text_of().is_some() by {
                    if m < i {
                        assert(sub[m] == vs.subrange(0, i as int)[m]);
                        if i > 0 {
                            assert(sub[0] == vs.subrange(0, i as int)[0]);
                        }
                    }
                }
            }
        }
        if found {
            out.set(j - 1, (key, c));
            proof {
                assert(entries_view(out@) =~= pre.update(j - 1, (key@, v.view())));
            }
        } else {
            out.push((key, c));
            proof {
                assert(entries_view(out@) =~= pre.push((key@, v.view())));
            }
        }
        i = i + 1;
    }
    assert(vs.subrange(0, items@.len() as int) =~= vs);
    Ok(Value::ValueSet(out))
}

/// A bigint turned to text and read back as a bigint is the same number.
pub proof fn lemma_bigint_string_round_trip(v: int)
    ensures
        VView::BigInt(v).text_of().is_some(),
        ({
            let t = VView::BigInt(v).text_of().unwrap();
            VView::String(t, escaped(t)).bigint_of() == Some(v)
        }),
{
    crate::text::lemma_decimal_round_trip(v);
}

/// The entries of a hash built from alternating keys and values, each key
/// taken as its text.
pub open spec fn hash_of(items: Seq<VView>) -> Seq<(Seq<char>, VView)>
    decreases items.len(),
{
    if items.len() < 2 {
        Seq::empty()
    } else {
        let n = items.len() as int;
        set_insert(hash_of(items.subrange(0, n - 2)), items[n - 2].text_of().unwrap(), items[n - 1])
    }
}

/// Hash literal operands: keys and values in turn, each key with a text.
pub open spec fn hash_members_ok(items: Seq<VView>) -> bool {
    items.len() % 2 == 0 && forall|i: int|
        0 <= i < items.len() && i % 2 == 0 ==> (#[trigger] items[i]).text_of().is_some()
}

/// Where the entry with a given key is.
fn find_key(es: &Vec<(String, Value)>, key: &String) -> (r: Option<usize>)
    ensures
        match r {
            Some(j) => j as int == key_index(entries_view(es@), key@),
            None => key_index(entries_view(es@), key@) == -1,
        },
{
    let ghost pre = entries_view(es@);
    let kc = chars_of(key.as_str());
    let mut j: usize = 0;
    while j < es.len()
        invariant
            j <= es.len(),
            pre == entries_view(es@),
            kc@ == key@,
            forall|m: int| 0 <= m < j ==> (#[trigger] pre[m]).0 != key@,
        decreases es.len() - j,
    {
        let ec = chars_of(es[j].0.as_str());
        if crate::arith::text_equal(&ec, &kc) {
            proof {
                lemma_key_index_first(pre, key@, j as int);
            }
            return Some(j);
        }
        j = j + 1;
    }
    proof {
        lemma_key_index_bounds(pre, key@);
        if key_index(pre, key@) >= 0 {
            assert(pre[key_index(pre, key@)].0 == key@);
        }
    }
    None
}

proof fn lemma_hash_step(vs: Seq<VView>, i: int)
    requires
        0 <= i,
        i + 2 <= vs.len(),
    ensures
        hash_of(vs.subrange(0, i + 2)) == set_insert(hash_of(vs.subrange(0, i)), vs[i].text_of().unwrap(), vs[i + 1]),
{
    let sub = vs.subrange(0, i + 2);
    assert(sub.subrange(0, i) =~= vs.subrange(0, i));
    assert(sub[i] == vs[i]);
    assert(sub[i + 1] == vs[i + 1]);
}

/// Builds a hash from alternating keys and values. An odd count, or a key
/// with no textual form, is a type error.
#[verifier::rlimit(100)]
pub fn build_hash(items: &Vec<Value>) -> (r: Result<Value, crate::vm::ErrorKind>)
    ensures
        hash_members_ok(values_view(items@)) ==> r is Ok && r->Ok_0.view() == VView::Hash(
            hash_of(values_view(items@)),
        ),
        !hash_members_ok(values_view(items@)) ==> r == Err::<Value, crate::vm::ErrorKind>(crate::vm::ErrorKind::Type),
{
    let ghost vs = values_view(items@);
    if items.len() % 2 != 0 {
        return Err(crate::vm::ErrorKind::Type);
    }
    let mut out: Vec<(String, Value)> = Vec::new();
    let mut i: usize = 0;
    while i < items.len()
        invariant
            i <= items.len(),
            i % 2 == 0,
            items.len() % 2 == 0,
            vs == values_view(items@),
            forall|m: int| 0 <= m < i && m % 2 == 0 ==> (#[trigger] vs[m]).text_of().is_some(),
            entries_view(out@) == hash_of(vs.subrange(0, i as int)),
        decreases items.len() - i,
    {
        let key = match items[i].to_string() {
            Some(k) => k,
            None => {
                proof {
                    assert(!hash_members_ok(vs)) by {
                        assert(vs[i as int].text_of().is_none());
                    }
                }
                return Err(crate::vm::ErrorKind::Type);
            },
        };
        let v = items[i + 1].value_clone();
        let ghost pre = entries_view(out@);
        let found = find_key(&out, &key);
        proof {
            lemma_hash_step(vs, i as int);
            lemma_key_index_bounds(pre, key@);
        }
        match found {
            Some(j) => {
                out.set(j, (key, v));
                proof {
                    assert(entries_view(out@) =~= pre.update(j as int, (key@, vs[i + 1])));
                }
            },
            None => {
                out.push((key, v));
                proof {
                    assert(entries_view(out@) =~= pre.push((key@, vs[i + 1])));
                }
            },
        }
        i = i + 2;
    }
    assert(vs.subrange(0, items@.len() as int) =~= vs);
    Ok(Value::Hash(out))
}

/// Deep copies of each value of a list.
pub fn clone_values(l: &Vec<Value>) -> (r: Vec<Value>)
    ensures
        values_view(r@) == values_view(l@),
    decreases l,
{
    let mut out: Vec<Value> = Vec::new();
    let mut i: usize = 0;
    while i < l.len()
        invariant
            i <= l.len(),
            out@.len() == i,
            forall|j: int| 0 <= j < i ==> (#[trigger] out@[j]).view() == l@[j].view(),
        decreases l.len() - i,
    {
        proof {
            assert(decreases_to!(l => l@[i as int]));
        }
        let c = l[i].value_clone();
        out.push(c);
        i = i + 1;
    }
    assert(values_view(out@) =~= values_view(l@));
    out
}

/// Deep copies of each entry of a hash.
pub fn clone_entries(l: &Vec<(String, Value)>) -> (r: Vec<(String, Value)>)
    ensures
        entries_view(r@) == entries_view(l@),
    decreases l,
{
    let mut out: Vec<(String, Value)> = Vec::new();
    let mut i: usize = 0;
    while i < l.len()
        invariant
            i <= l.len(),
            out@.len() == i,
            forall|j: int| 0 <= j < i ==> (#[trigger] out@[j]).1.view() == l@[j].1.view()
                && out@[j].0@ == l@[j].0@,
        decreases l.len() - i,
    {
        proof {
            assert(decreases_to!(l => l@[i as int]));
            assert(decreases_to!(l@[i as int] => l@[i as int].1));
        }
        let k = l[i].0.clone();
        let c = l[i].1.value_clone();
        out.push((k, c));
        i = i + 1;
    }
    assert(entries_view(out@) =~= entries_view(l@));
    out
}

fn clone_hash_index(h: &HashWithIndex) -> (r: HashWithIndex)
    ensures
        r.i == h.i,
        entries_view(r.h@) == entries_view(h.h@),
    decreases h,
{
    HashWithIndex { i: h.i, h: clone_entries(&h.h) }
}

impl Value {
    /// The variant tag of the value.
    pub fn kind(&self) -> (r: u8)
        ensures
            r as int == self.view().kind(),
    {
        match self {
            Value::Null => 0,
            Value::Bool(..) => 1,
            Value::Int(..) => 2,
            Value::BigInt(..) => 3,
            Value::String(..) => 4,
            Value::Command(..) => 5,
            Value::CommandUncaptured(..) => 6,
            Value::List(..) => 7,
            Value::Hash(..) => 8,
            Value::ValueSet(..) => 9,
            Value::AnonymousFunction(..) => 10,
            Value::CoreFunction(..) => 11,
            Value::NamedFunction(..) => 12,
            Value::Generator(..) => 13,
            Value::CommandGenerator(..) => 14,
            Value::KeysGenerator(..) => 15,
            Value::ValuesGenerator(..) => 16,
            Value::EachGenerator(..) => 17,
            Value::FileReader(..) => 18,
            Value::FileWriter(..) => 19,
            Value::DirectoryHandle(..) => 20,
            Value::DateTimeNT(..) => 21,
            Value::DateTimeOT(..) => 22,
            Value::Ipv4(..) => 23,
            Value::Ipv6(..) => 24,
            Value::Ipv4Range(..) => 25,
            Value::Ipv6Range(..) => 26,
            Value::IpSet(..) => 27,
            Value::MultiGenerator(..) => 28,
        }
    }

    /// Whether two values are of the same variant.
    pub fn variants_equal(&self, other: &Value) -> (r: bool)
        ensures
            r == (self.view().kind() == other.view().kind()),
    {
        self.kind() == other.kind()
    }

    /// Whether the value is a generator or can be iterated like one.
    pub fn is_generator(&self) -> (r: bool)
        ensures
            r == self.view().shiftable(),
    {
        match self {
            Value::Generator(..) | Value::KeysGenerator(..) | Value::ValuesGenerator(..)
            | Value::EachGenerator(..) | Value::FileReader(..) | Value::DirectoryHandle(..)
            | Value::IpSet(..) | Value::MultiGenerator(..) | Value::CommandGenerator(..) => true,
            _ => false,
        }
    }

    /// The short lower-case name of the value's type.
    pub fn type_string(&self) -> (r: String)
        ensures
            r@ == self.view().kind_name(),
    {
        let s: &str = match self {
            Value::Null => "null",
            Value::Bool(..) => "bool",
            Value::Int(..) => "int",
            Value::BigInt(..) => "bigint",
            Value::String(..) => "str",
            Value::Command(..) => "command",
            Value::CommandUncaptured(..) => "command",
            Value::List(..) => "list",
            Value::Hash(..) => "hash",
            Value::ValueSet(..) => "set",
            Value::AnonymousFunction(..) => "anon-fn",
            Value::CoreFunction(..) => "core-fn",
            Value::NamedFunction(..) => "named-fn",
            Value::Generator(..) => "gen",
            Value::CommandGenerator(..) => "command-gen",
            Value::KeysGenerator(..) => "keys-gen",
            Value::ValuesGenerator(..) => "values-gen",
            Value::EachGenerator(..) => "each-gen",
            Value::FileReader(..) => "file-reader",
            Value::FileWriter(..) => "file-writer",
            Value::DirectoryHandle(..) => "dir-handle",
            Value::DateTimeNT(..) => "datetime",
            Value::DateTimeOT(..) => "datetime",
            Value::Ipv4(..) => "ip",
            Value::Ipv6(..) => "ip",
            Value::Ipv4Range(..) => "ip",
            Value::Ipv6Range(..) => "ip",
            Value::IpSet(..) => "ips",
            Value::MultiGenerator(..) => "multi-gen",
        };
        s.to_owned()
    }

    /// Truthiness of the value.
    pub fn to_bool(&self) -> (r: bool)
        ensures
            r == self.view().truthy(),
    {
        match self {
            Value::Null => false,
            Value::Bool(b) => *b,
            Value::Int(n) => *n != 0,
            Value::BigInt(n) => {
                let z = crate::bignum::big_from_i32(0);
                crate::bignum::big_cmp(n, &z) != 0
            },
            Value::String(st) => {
                let cs = chars_of(st.string.as_str());
                let n = cs.len();
                if n == 0 {
                    false
                } else if n == 1 && cs[0] == '0' {
                    assert(cs@ =~= seq!['0']);
                    false
                } else if n == 3 && cs[0] == '0' && cs[1] == '.' && cs[2] == '0' {
                    assert(cs@ =~= seq!['0', '.', '0']);
                    false
                } else {
                    true
                }
            },
            _ => true,
        }
    }

    /// A copy whose lists, hashes, sets and generators are rebuilt, so that
    /// changing one leaves the other as it was. Handles are shared.
    pub fn value_clone(&self) -> (r: Value)
        ensures
            r.view() == self.view(),
        decreases self,
    {
        match self {
            Value::Null => Value::Null,
            Value::Bool(b) => Value::Bool(*b),
            Value::Int(n) => Value::Int(*n),
            Value::BigInt(b) => Value::BigInt(b.copy()),
            Value::String(st) => Value::String(
                StringTriple { string: st.string.clone(), escaped_string: st.escaped_string.clone() },
            ),
            Value::Command(s, o) => Value::Command(s.clone(), copy_chars(o)),
            Value::CommandUncaptured(s) => Value::CommandUncaptured(s.clone()),
            Value::List(l) => Value::List(clone_values(l)),
            Value::Hash(h) => Value::Hash(clone_entries(h)),
            Value::ValueSet(h) => Value::ValueSet(clone_entries(h)),
            Value::AnonymousFunction(k) => Value::AnonymousFunction(*k),
            Value::CoreFunction(k) => Value::CoreFunction(*k),
            Value::NamedFunction(k) => Value::NamedFunction(*k),
            Value::Generator(g) => Value::Generator(
                GeneratorObject {
                    local_vars_stack: clone_values(&g.local_vars_stack),
                    index: g.index,
                    chunk: g.chunk,
                    call_stack_chunks: copy_frames(&g.call_stack_chunks),
                    gen_args: clone_values(&g.gen_args),
                },
            ),
            Value::CommandGenerator(k) => Value::CommandGenerator(*k),
            Value::KeysGenerator(h) => Value::KeysGenerator(clone_hash_index(h)),
            Value::ValuesGenerator(h) => Value::ValuesGenerator(clone_hash_index(h)),
            Value::EachGenerator(h) => Value::EachGenerator(clone_hash_index(h)),
            Value::FileReader(k) => Value::FileReader(*k),
            Value::FileWriter(k) => Value::FileWriter(*k),
            Value::DirectoryHandle(k) => Value::DirectoryHandle(*k),
            Value::DateTimeNT(k) => Value::DateTimeNT(*k),
            Value::DateTimeOT(k) => Value::DateTimeOT(*k),
            Value::Ipv4(n) => Value::Ipv4(*n),
            Value::Ipv6(n) => Value::Ipv6(*n),
            Value::Ipv4Range(n) => Value::Ipv4Range(*n),
            Value::Ipv6Range(n) => Value::Ipv6Range(*n),
            Value::IpSet(k) => Value::IpSet(IpSet { ipv4: copy_vec(&k.ipv4), ipv6: copy_vec(&k.ipv6) }),
            Value::MultiGenerator(k) => Value::MultiGenerator(*k),
        }
    }

    /// Converts the value to an i32, where it denotes one.
    pub fn to_int(&self) -> (r: Option<i32>)
        ensures
            r == self.view().int_of(),
    {
        match self {
            Value::Int(n) => Some(*n),
            Value::BigInt(b) => crate::bignum::big_to_i32(b),
            Value::String(st) => {
                let cs = chars_of(st.string.as_str());
                crate::text::parse_i32(&cs)
            },
            Value::Null => Some(0),
            _ => None,
        }
    }

    /// Converts the value to text, where it has a textual form.
    pub fn to_string(&self) -> (r: Option<String>)
        ensures
            r.is_some() == self.view().text_of().is_some(),
            r.is_some() ==> r.unwrap()@ == self.view().text_of().unwrap(),
    {
        match self {
            Value::Int(n) => {
                let cs = int_text(*n);
                Some(string_from_chars(&cs))
            },
            Value::BigInt(b) => Some(crate::bignum::big_text(b)),
            Value::String(st) => Some(st.string.clone()),
            Value::Null => Some(String::new()),
            Value::Ipv4(n) => {
                let cs = ipv4_net_string(*n);
                Some(string_from_chars(&cs))
            },
            Value::Ipv6(n) => {
                let cs = ipv6_net_string(*n);
                Some(string_from_chars(&cs))
            },
            Value::Ipv4Range(n) => {
                let cs = ipv4_range_string(*n);
                Some(string_from_chars(&cs))
            },
            Value::Ipv6Range(n) => {
                let cs = ipv6_range_string(*n);
                Some(string_from_chars(&cs))
            },
            Value::IpSet(set) => {
                let cs = crate::ip::ipset_string(set);
                Some(string_from_chars(&cs))
            },
            _ => None,
        }
    }

    /// A string value holding the given text.
    pub fn new_string(s: String) -> (r: Value)
        ensures
            r.view() == VView::String(s@, escaped(s@)),
    {
        Value::String(StringTriple::new(s))
    }

    /// Converts the value to an integer of any size, where it denotes one.
    pub fn to_bigint(&self) -> (r: Option<BigNum>)
        ensures
            r.is_some() == self.view().bigint_of().is_some(),
            r.is_some() ==> r.unwrap().value() == self.view().bigint_of().unwrap(),
    {
        match self {
            Value::Int(n) => Some(crate::bignum::big_from_i32(*n)),
            Value::BigInt(b) => Some(b.copy()),
            Value::String(st) => parse_bigint(st.string.as_str()),
            Value::Null => Some(crate::bignum::big_from_i32(0)),
            _ => None,
        }
    }
}

} // verus!
