use vstd::prelude::*;
use crate::text::{nat_digits, push_digits, chars_of, string_from_chars};
use crate::value::{Value, Ipv4Net, Ipv6Net, Ipv4Range, Ipv6Range, VView, IpSet};
use crate::vm::{VM, ErrorKind};
use crate::bignum::{big_from_u128, big_add, big_to_u128, big_cmp, big_from_i32};

verus! {

/// Host bits of an IPv4 network with the given prefix length.
pub open spec fn host_mask4(p: u8) -> u32 {
    if p >= 32 {
        0
    } else {
        u32::MAX >> (p as u32)
    }
}

/// Host bits of an IPv6 network with the given prefix length.
pub open spec fn host_mask6(p: u8) -> u128 {
    if p >= 128 {
        0
    } else {
        u128::MAX >> (p as u128)
    }
}

/// A network is valid when all its host bits are zero (with a zero prefix
/// that means the zero address).
pub open spec fn valid_net4(a: u32, p: u8) -> bool {
    p <= 32 && a & host_mask4(p) == 0
}

pub open spec fn valid_net6(a: u128, p: u8) -> bool {
    p <= 128 && a & host_mask6(p) == 0
}

pub open spec fn octet(a: u32, k: nat) -> nat {
    ((a as nat / vstd::arithmetic::power2::pow2(8 * k)) % 256) as nat
}

/// Dotted-quad text of an IPv4 address.
pub open spec fn ipv4_addr_text(a: u32) -> Seq<char> {
    nat_digits(octet(a, 3)) + seq!['.'] + nat_digits(octet(a, 2)) + seq!['.'] + nat_digits(octet(a, 1))
        + seq!['.'] + nat_digits(octet(a, 0))
}

/// The name of the textual form std gives an IPv6 address.
pub uninterp spec fn ipv6_addr_text(a: u128) -> Seq<char>;

/// The name of what ipnet reads from an IPv4 network text: address and
/// prefix length.
pub uninterp spec fn ipv4_net_parse(s: Seq<char>) -> Option<(u32, u8)>;

/// The name of what ipnet reads from an IPv6 network text.
pub uninterp spec fn ipv6_net_parse(s: Seq<char>) -> Option<(u128, u8)>;

/// The name of a text with the whitespace at both ends removed.
pub uninterp spec fn trimmed(s: Seq<char>) -> Seq<char>;

/// Text of a network: the address alone for a single host, else
/// `address/length`.
pub open spec fn ipv4_net_text(a: u32, p: u8) -> Seq<char> {
    if p == 32 {
        ipv4_addr_text(a)
    } else {
        ipv4_addr_text(a) + seq!['/'] + nat_digits(p as nat)
    }
}

pub open spec fn ipv6_net_text(a: u128, p: u8) -> Seq<char> {
    if p == 128 {
        ipv6_addr_text(a)
    } else {
        ipv6_addr_text(a) + seq!['/'] + nat_digits(p as nat)
    }
}

/// Textual form of an IP object, if the value is one.
pub open spec fn ip_text(v: VView) -> Option<Seq<char>> {
    match v {
        VView::Ipv4(a, p) => Some(ipv4_net_text(a, p)),
        VView::Ipv6(a, p) => Some(ipv6_net_text(a, p)),
        VView::Ipv4Range(s, e) => Some(ipv4_addr_text(s) + seq!['-'] + ipv4_addr_text(e)),
        VView::Ipv6Range(s, e) => Some(ipv6_addr_text(s) + seq!['-'] + ipv6_addr_text(e)),
        _ => None,
    }
}

/// Relies on `Ipv6Addr: Display` (std): the name of the result.
#[verifier::external_body]
fn ipv6_addr_string(a: u128) -> (r: String)
    ensures
        r@ == ipv6_addr_text(a),
{
    core::net::Ipv6Addr::from(a).to_string()
}

/// Relies on `str::trim`: the name of the result.
#[verifier::external_body]
fn trim_text(s: &str) -> (r: String)
    ensures
        r@ == trimmed(s@),
{
    s.trim().to_owned()
}

/// Relies on `ipnet::Ipv4Net: FromStr`, whose prefix length is at most 32.
#[verifier::external_body]
fn parse_ipv4_net(s: &str) -> (r: Option<(u32, u8)>)
    ensures
        r == ipv4_net_parse(s@),
        r.is_some() ==> r.unwrap().1 <= 32,
{
    match s.parse::<ipnet::Ipv4Net>() {
        Ok(n) => Some((u32::from(n.addr()), n.prefix_len())),
        Err(_) => None,
    }
}

/// Relies on `ipnet::Ipv6Net: FromStr`, whose prefix length is at most 128.
#[verifier::external_body]
fn parse_ipv6_net(s: &str) -> (r: Option<(u128, u8)>)
    ensures
        r == ipv6_net_parse(s@),
        r.is_some() ==> r.unwrap().1 <= 128,
{
    match s.parse::<ipnet::Ipv6Net>() {
        Ok(n) => Some((u128::from(n.addr()), n.prefix_len())),
        Err(_) => None,
    }
}

proof fn lemma_octets(a: u32)
    ensures
        octet(a, 3) == a / 16777216,
        octet(a, 2) == (a / 65536) % 256,
        octet(a, 1) == (a / 256) % 256,
        octet(a, 0) == a % 256,
{
    vstd::arithmetic::power2::lemma2_to64();
    assert(octet(a, 3) == ((a as nat / 16777216) % 256) as nat);
    assert(8 * 0nat == 0nat);
    assert(vstd::arithmetic::power2::pow2(8 * 0nat) == 1);
    assert(a as nat / 1 == a as nat);
}

/// Appends the dotted-quad text of an address.
pub fn push_ipv4_addr(out: &mut Vec<char>, a: u32)
    ensures
        final(out)@ == old(out)@ + ipv4_addr_text(a),
{
    proof {
        lemma_octets(a);
    }
    push_digits(out, (a / 16777216) as u64);
    out.push('.');
    push_digits(out, ((a / 65536) % 256) as u64);
    out.push('.');
    push_digits(out, ((a / 256) % 256) as u64);
    out.push('.');
    push_digits(out, (a % 256) as u64);
    assert(final(out)@ =~= old(out)@ + ipv4_addr_text(a));
}

/// Appends the textual form of an IPv6 address.
pub fn push_ipv6_addr(out: &mut Vec<char>, a: u128)
    ensures
        final(out)@ == old(out)@ + ipv6_addr_text(a),
{
    let s = ipv6_addr_string(a);
    let cs = chars_of(s.as_str());
    let mut i: usize = 0;
    while i < cs.len()
        invariant
            i <= cs.len(),
            cs@ == ipv6_addr_text(a),
            out@ == old(out)@ + cs@.subrange(0, i as int),
        decreases cs.len() - i,
    {
        out.push(cs[i]);
        i = i + 1;
        assert(out@ =~= old(out)@ + cs@.subrange(0, i as int));
    }
    assert(cs@.subrange(0, cs@.len() as int) =~= cs@);
}

pub fn ipv4_net_string(n: Ipv4Net) -> (r: Vec<char>)
    ensures
        r@ == ipv4_net_text(n.addr, n.prefix),
{
    let mut out: Vec<char> = Vec::new();
    push_ipv4_addr(&mut out, n.addr);
    if n.prefix != 32 {
        out.push('/');
        push_digits(&mut out, n.prefix as u64);
    }
    assert(out@ =~= ipv4_net_text(n.addr, n.prefix));
    out
}

pub fn ipv6_net_string(n: Ipv6Net) -> (r: Vec<char>)
    ensures
        r@ == ipv6_net_text(n.addr, n.prefix),
{
    let mut out: Vec<char> = Vec::new();
    push_ipv6_addr(&mut out, n.addr);
    if n.prefix != 128 {
        out.push('/');
        push_digits(&mut out, n.prefix as u64);
    }
    assert(out@ =~= ipv6_net_text(n.addr, n.prefix));
    out
}

pub fn ipv4_range_string(r: Ipv4Range) -> (t: Vec<char>)
    ensures
        t@ == ipv4_addr_text(r.s) + seq!['-'] + ipv4_addr_text(r.e),
{
    let mut out: Vec<char> = Vec::new();
    push_ipv4_addr(&mut out, r.s);
    out.push('-');
    push_ipv4_addr(&mut out, r.e);
    assert(out@ =~= ipv4_addr_text(r.s) + seq!['-'] + ipv4_addr_text(r.e));
    out
}

pub fn ipv6_range_string(r: Ipv6Range) -> (t: Vec<char>)
    ensures
        t@ == ipv6_addr_text(r.s) + seq!['-'] + ipv6_addr_text(r.e),
{
    let mut out: Vec<char> = Vec::new();
    push_ipv6_addr(&mut out, r.s);
    out.push('-');
    push_ipv6_addr(&mut out, r.e);
    assert(out@ =~= ipv6_addr_text(r.s) + seq!['-'] + ipv6_addr_text(r.e));
    out
}


/// IPv4 networks in an IP set: each valid, and each ending below the
/// address of the next, so they are sorted and disjoint.
pub open spec fn nets4_wf(s: Seq<Ipv4Net>) -> bool {
    &&& forall|i: int| 0 <= i < s.len() ==> valid_net4((#[trigger] s[i]).addr, s[i].prefix)
    &&& forall|i: int| 0 <= i < s.len() - 1 ==> ((#[trigger] s[i]).addr | host_mask4(s[i].prefix)) < s[i + 1].addr
}

pub open spec fn nets6_wf(s: Seq<Ipv6Net>) -> bool {
    &&& forall|i: int| 0 <= i < s.len() ==> valid_net6((#[trigger] s[i]).addr, s[i].prefix)
    &&& forall|i: int| 0 <= i < s.len() - 1 ==> ((#[trigger] s[i]).addr | host_mask6(s[i].prefix)) < s[i + 1].addr
}

pub fn check_nets4(s: &Vec<Ipv4Net>) -> (r: bool)
    ensures
        r == nets4_wf(s@),
{
    let mut i: usize = 0;
    while i < s.len()
        invariant
            i <= s.len(),
            forall|j: int| 0 <= j < i ==> valid_net4((#[trigger] s@[j]).addr, s@[j].prefix),
            forall|j: int| 0 <= j < i && j < s.len() - 1 ==> ((#[trigger] s@[j]).addr | host_mask4(s@[j].prefix)) < s@[j + 1].addr,
        decreases s.len() - i,
    {
        let n = s[i];
        if n.prefix > 32 || n.addr & host_mask4_of(n.prefix) != 0 {
            assert(!valid_net4(s@[i as int].addr, s@[i as int].prefix));
            return false;
        }
        if i + 1 < s.len() && (n.addr | host_mask4_of(n.prefix)) >= s[i + 1].addr {
            return false;
        }
        i = i + 1;
    }
    true
}

pub fn check_nets6(s: &Vec<Ipv6Net>) -> (r: bool)
    ensures
        r == nets6_wf(s@),
{
    let mut i: usize = 0;
    while i < s.len()
        invariant
            i <= s.len(),
            forall|j: int| 0 <= j < i ==> valid_net6((#[trigger] s@[j]).addr, s@[j].prefix),
            forall|j: int| 0 <= j < i && j < s.len() - 1 ==> ((#[trigger] s@[j]).addr | host_mask6(s@[j].prefix)) < s@[j + 1].addr,
        decreases s.len() - i,
    {
        let n = s[i];
        if n.prefix > 128 || n.addr & host_mask6_of(n.prefix) != 0 {
            assert(!valid_net6(s@[i as int].addr, s@[i as int].prefix));
            return false;
        }
        if i + 1 < s.len() && (n.addr | host_mask6_of(n.prefix)) >= s[i + 1].addr {
            return false;
        }
        i = i + 1;
    }
    true
}

/// The texts of an IP set's networks: the IPv4 ones, then the IPv6 ones.
pub open spec fn ipset_parts(v4: Seq<Ipv4Net>, v6: Seq<Ipv6Net>) -> Seq<Seq<char>> {
    Seq::new(v4.len(), |i: int| ipv4_net_text(v4[i].addr, v4[i].prefix))
        + Seq::new(v6.len(), |i: int| ipv6_net_text(v6[i].addr, v6[i].prefix))
}

/// Texts joined with commas between them.
pub open spec fn join_commas(parts: Seq<Seq<char>>) -> Seq<char>
    decreases parts.len(),
{
    if parts.len() == 0 {
        Seq::empty()
    } else if parts.len() == 1 {
        parts[0]
    } else {
        join_commas(parts.drop_last()) + seq![','] + parts.last()
    }
}

/// Textual form of an IP set: its networks joined with commas, IPv4 first;
/// each list is held in address order.
pub open spec fn ipset_text(v4: Seq<Ipv4Net>, v6: Seq<Ipv6Net>) -> Seq<char> {
    join_commas(ipset_parts(v4, v6))
}

fn append_part(out: &mut Vec<char>, part: &Vec<char>, ghost_parts: Ghost<Seq<Seq<char>>>, gk: Ghost<int>, first: bool)
    requires
        first == (gk@ == 0),
        0 <= gk@ < ghost_parts@.len(),
        old(out)@ == join_commas(ghost_parts@.subrange(0, gk@)),
        part@ == ghost_parts@[gk@],
    ensures
        final(out)@ == join_commas(ghost_parts@.subrange(0, gk@ + 1)),
{
    let ghost parts = ghost_parts@;
    if !first {
        out.push(',');
    }
    let ghost pre = out@;
    let mut i: usize = 0;
    while i < part.len()
        invariant
            i <= part.len(),
            out@ == pre + part@.subrange(0, i as int),
        decreases part.len() - i,
    {
        out.push(part[i]);
        i = i + 1;
        assert(out@ =~= pre + part@.subrange(0, i as int));
    }
    proof {
        let sub = parts.subrange(0, gk@ + 1);
        assert(sub.drop_last() =~= parts.subrange(0, gk@));
        assert(part@.subrange(0, part@.len() as int) =~= part@);
        if gk@ == 0 {
            assert(parts.subrange(0, 0) =~= Seq::<Seq<char>>::empty());
            assert(out@ =~= part@);
        } else {
            assert(out@ =~= join_commas(parts.subrange(0, gk@)) + seq![','] + part@);
        }
    }
}

/// The textual form of an IP set.
pub fn ipset_string(set: &IpSet) -> (r: Vec<char>)
    ensures
        r@ == ipset_text(set.ipv4@, set.ipv6@),
{
    let ghost parts = ipset_parts(set.ipv4@, set.ipv6@);
    let n4 = set.ipv4.len();
    let mut out: Vec<char> = Vec::new();
    assert(parts.subrange(0, 0) =~= Seq::<Seq<char>>::empty());
    let mut i: usize = 0;
    while i < n4
        invariant
            i <= n4,
            n4 == set.ipv4@.len(),
            parts == ipset_parts(set.ipv4@, set.ipv6@),
            out@ == join_commas(parts.subrange(0, i as int)),
        decreases n4 - i,
    {
        let t = ipv4_net_string(set.ipv4[i]);
        append_part(&mut out, &t, Ghost(parts), Ghost(i as int), i == 0);
        i = i + 1;
    }
    let mut j: usize = 0;
    while j < set.ipv6.len()
        invariant
            j <= set.ipv6@.len(),
            n4 == set.ipv4@.len(),
            parts == ipset_parts(set.ipv4@, set.ipv6@),
            out@ == join_commas(parts.subrange(0, n4 + j)),
        decreases set.ipv6.len() - j,
    {
        let t = ipv6_net_string(set.ipv6[j]);
        append_part(&mut out, &t, Ghost(parts), Ghost(n4 + j), n4 == 0 && j == 0);
        j = j + 1;
    }
    assert(parts.subrange(0, parts.len() as int) =~= parts);
    out
}

pub open spec fn count_char(s: Seq<char>, c: char) -> nat
    decreases s.len(),
{
    if s.len() == 0 {
        0
    } else {
        count_char(s.drop_last(), c) + if s.last() == c {
            1nat
        } else {
            0nat
        }
    }
}

/// Index of the first occurrence of a character, or -1.
pub open spec fn index_of(s: Seq<char>, c: char) -> int
    decreases s.len(),
{
    if s.len() == 0 {
        -1
    } else if index_of(s.drop_last(), c) >= 0 {
        index_of(s.drop_last(), c)
    } else if s.last() == c {
        s.len() - 1
    } else {
        -1
    }
}

/// The prefix length written after an address that has none.
pub open spec fn net_suffix(v4: bool) -> Seq<char> {
    if v4 {
        seq!['/', '3', '2']
    } else {
        seq!['/', '1', '2', '8']
    }
}

pub open spec fn network4(x: (u32, u8)) -> u32 {
    x.0 & !host_mask4(x.1)
}

pub open spec fn network6(x: (u128, u8)) -> u128 {
    x.0 & !host_mask6(x.1)
}

/// The order of parsed networks: by address, then by prefix length.
pub open spec fn net_lt<A>(x: (A, u8), y: (A, u8), lt: spec_fn(A, A) -> bool) -> bool {
    lt(x.0, y.0) || (x.0 == y.0 && x.1 < y.1)
}

/// The IP object a text denotes. A text with a `.` is IPv4, else IPv6. A
/// text with one `-` is a range of two single addresses, the first below
/// the second; a text with a `/` carries a prefix length, which must leave
/// the host bits zero; other texts are single addresses.
pub open spec fn ip_parse(s: Seq<char>) -> Option<VView> {
    let v4 = count_char(s, '.') > 0;
    if count_char(s, '-') > 0 {
        if count_char(s, '-') != 1 {
            None
        } else {
            let k = index_of(s, '-');
            let a = trimmed(s.subrange(0, k)) + net_suffix(v4);
            let b = trimmed(s.subrange(k + 1, s.len() as int)) + net_suffix(v4);
            if v4 {
                match (ipv4_net_parse(a), ipv4_net_parse(b)) {
                    (Some(x), Some(y)) => if net_lt(x, y, |p: u32, q: u32| p < q) {
                        Some(VView::Ipv4Range(network4(x), network4(y)))
                    } else {
                        None
                    },
                    _ => None,
                }
            } else {
                match (ipv6_net_parse(a), ipv6_net_parse(b)) {
                    (Some(x), Some(y)) => if net_lt(x, y, |p: u128, q: u128| p < q) {
                        Some(VView::Ipv6Range(network6(x), network6(y)))
                    } else {
                        None
                    },
                    _ => None,
                }
            }
        }
    } else {
        let t = if count_char(s, '/') > 0 {
            s
        } else {
            s + net_suffix(v4)
        };
        if v4 {
            match ipv4_net_parse(t) {
                Some((a, p)) => if valid_net4(a, p) {
                    Some(VView::Ipv4(a, p))
                } else {
                    None
                },
                None => None,
            }
        } else {
            match ipv6_net_parse(t) {
                Some((a, p)) => if valid_net6(a, p) {
                    Some(VView::Ipv6(a, p))
                } else {
                    None
                },
                None => None,
            }
        }
    }
}

/// How many times a count halves down to one, if it is a power of two.
pub open spec fn halvings(c: int) -> Option<nat>
    decreases c,
{
    if c <= 0 {
        None
    } else if c == 1 {
        Some(0)
    } else if c % 2 == 1 {
        None
    } else {
        match halvings(c / 2) {
            Some(k) => Some(k + 1),
            None => None,
        }
    }
}

pub open spec fn plus(o: Option<nat>, k: nat) -> Option<nat> {
    match o {
        Some(h) => Some(h + k),
        None => None,
    }
}

/// Prefix length of a range of `count` addresses in a space of `bits`
/// bits: defined when the count is a power of two.
pub open spec fn range_len(count: int, bits: int) -> Option<int> {
    match halvings(count) {
        Some(k) => Some(bits - k),
        None => None,
    }
}

/// The prefix length of an IP object.
pub open spec fn ip_len(v: VView) -> Option<VView> {
    match v {
        VView::Ipv4(_, p) => Some(VView::Int(p as i32)),
        VView::Ipv6(_, p) => Some(VView::Int(p as i32)),
        VView::Ipv4Range(s, e) => if s == 0 && e == u32::MAX {
            Some(VView::Int(0))
        } else {
            match range_len(e - s + 1, 32) {
                Some(l) => Some(VView::Int(l as i32)),
                None => None,
            }
        },
        VView::Ipv6Range(s, e) => if s == 0 && e == u128::MAX {
            Some(VView::Int(0))
        } else {
            match range_len(e - s + 1, 128) {
                Some(l) => Some(VView::Int(l as i32)),
                None => None,
            }
        },
        _ => None,
    }
}

/// The number of addresses an IP object covers.
pub open spec fn ip_size(v: VView) -> Option<VView> {
    match v {
        VView::Ipv4(_, p) => Some(VView::BigInt(host_mask4(p) + 1)),
        VView::Ipv6(_, p) => Some(VView::BigInt(host_mask6(p) + 1)),
        VView::Ipv4Range(s, e) => if s <= e {
            Some(VView::BigInt(e - s + 1))
        } else {
            None
        },
        VView::Ipv6Range(s, e) => if s <= e {
            Some(VView::BigInt(e - s + 1))
        } else {
            None
        },
        _ => None,
    }
}

/// The first address of an IP object as an integer.
pub open spec fn ip_first_int(v: VView) -> Option<int> {
    match v {
        VView::Ipv4(a, p) => Some(network4((a, p)) as int),
        VView::Ipv6(a, p) => Some(network6((a, p)) as int),
        VView::Ipv4Range(s, _) => Some(s as int),
        VView::Ipv6Range(s, _) => Some(s as int),
        _ => None,
    }
}

/// The last address of an IP object as an integer.
pub open spec fn ip_last_int(v: VView) -> Option<int> {
    match v {
        VView::Ipv4(a, p) => Some((network4((a, p)) | host_mask4(p)) as int),
        VView::Ipv6(a, p) => Some((network6((a, p)) | host_mask6(p)) as int),
        VView::Ipv4Range(_, e) => Some(e as int),
        VView::Ipv6Range(_, e) => Some(e as int),
        _ => None,
    }
}

/// The text of the first address of an IP object.
pub open spec fn ip_addr_text(v: VView) -> Option<Seq<char>> {
    match v {
        VView::Ipv4(a, _) => Some(ipv4_addr_text(a)),
        VView::Ipv6(a, _) => Some(ipv6_addr_text(a)),
        VView::Ipv4Range(s, _) => Some(ipv4_addr_text(s)),
        VView::Ipv6Range(s, _) => Some(ipv6_addr_text(s)),
        _ => None,
    }
}

/// The text of the last address of an IP object.
pub open spec fn ip_last_text(v: VView) -> Option<Seq<char>> {
    match v {
        VView::Ipv4(a, p) => Some(ipv4_addr_text(network4((a, p)) | host_mask4(p))),
        VView::Ipv6(a, p) => Some(ipv6_addr_text(network6((a, p)) | host_mask6(p))),
        VView::Ipv4Range(_, e) => Some(ipv4_addr_text(e)),
        VView::Ipv6Range(_, e) => Some(ipv6_addr_text(e)),
        _ => None,
    }
}

pub open spec fn ip_version(v: VView) -> Option<VView> {
    match v {
        VView::Ipv4(..) | VView::Ipv4Range(..) => Some(VView::Int(4)),
        VView::Ipv6(..) | VView::Ipv6Range(..) => Some(VView::Int(6)),
        _ => None,
    }
}

/// The single-address IP object of a version and a number, where the
/// version is 4 or 6 and the number a non-negative address of that size.
pub open spec fn ip_from_int(version: VView, value: VView) -> Option<VView> {
    match (version.int_of(), value.bigint_of()) {
        (Some(4), Some(n)) => if 0 <= n <= u32::MAX {
            Some(VView::Ipv4(n as u32, 32))
        } else {
            None
        },
        (Some(6), Some(n)) => if 0 <= n <= u128::MAX {
            Some(VView::Ipv6(n as u128, 128))
        } else {
            None
        },
        _ => None,
    }
}

/// The effect of a one-operand operation: with an empty stack an arity
/// error; else the operand is removed and the result pushed, or an error of
/// kind `k` recorded.
pub open spec fn unary_effect(pre: VM, post: VM, res: Option<VView>, k: ErrorKind, r: i32) -> bool {
    if pre.stack.len() == 0 {
        r == 0 && post.stack == pre.stack && post.failed_with(ErrorKind::Arity)
    } else {
        match res {
            Some(x) => r == 1 && post.sview() == pre.sview().drop_last().push(x),
            None => r == 0 && post.sview() == pre.sview().drop_last() && post.failed_with(k),
        }
    }
}

/// The outcome of the `ip` operation on a value: its IP object, or the
/// kind of error.
pub open spec fn ip_outcome(v: VView) -> Result<VView, ErrorKind> {
    match v.text_of() {
        None => Err(ErrorKind::Type),
        Some(t) => match ip_parse(t) {
            Some(x) => Ok(x),
            None => Err(ErrorKind::Parse),
        },
    }
}

pub fn host_mask4_of(p: u8) -> (r: u32)
    ensures
        r == host_mask4(p),
{
    if p >= 32 {
        0
    } else {
        u32::MAX >> (p as u32)
    }
}

pub fn host_mask6_of(p: u8) -> (r: u128)
    ensures
        r == host_mask6(p),
{
    if p >= 128 {
        0
    } else {
        u128::MAX >> (p as u128)
    }
}

/// Counts of `-`, `.` and `/` in a text, and where its first `-` is.
fn scan(s: &Vec<char>) -> (r: (usize, usize, usize, usize))
    ensures
        r.0 == count_char(s@, '-'),
        r.1 == count_char(s@, '.'),
        r.2 == count_char(s@, '/'),
        r.0 > 0 ==> r.3 == index_of(s@, '-'),
{
    let mut dashes: usize = 0;
    let mut dots: usize = 0;
    let mut slashes: usize = 0;
    let mut first: usize = 0;
    let mut i: usize = 0;
    while i < s.len()
        invariant
            i <= s.len(),
            dashes == count_char(s@.subrange(0, i as int), '-'),
            dots == count_char(s@.subrange(0, i as int), '.'),
            slashes == count_char(s@.subrange(0, i as int), '/'),
            dashes > 0 ==> first == index_of(s@.subrange(0, i as int), '-'),
            dashes == 0 ==> index_of(s@.subrange(0, i as int), '-') == -1,
            dashes <= i && dots <= i && slashes <= i,
        decreases s.len() - i,
    {
        let c = s[i];
        proof {
            assert(s@.subrange(0, i + 1).drop_last() =~= s@.subrange(0, i as int));
        }
        if c == '-' {
            if dashes == 0 {
                first = i;
            }
            dashes = dashes + 1;
        } else if c == '.' {
            dots = dots + 1;
        } else if c == '/' {
            slashes = slashes + 1;
        }
        i = i + 1;
    }
    assert(s@.subrange(0, s@.len() as int) =~= s@);
    (dashes, dots, slashes, first)
}

fn suffix_chars(v4: bool) -> (r: Vec<char>)
    ensures
        r@ == net_suffix(v4),
{
    if v4 {
        let r = vec!['/', '3', '2'];
        assert(r@ =~= net_suffix(v4));
        r
    } else {
        let r = vec!['/', '1', '2', '8'];
        assert(r@ =~= net_suffix(v4));
        r
    }
}

fn concat_chars(a: &Vec<char>, b: &Vec<char>) -> (r: Vec<char>)
    ensures
        r@ == a@ + b@,
{
    let mut out: Vec<char> = Vec::new();
    let mut i: usize = 0;
    while i < a.len()
        invariant
            i <= a.len(),
            out@ == a@.subrange(0, i as int),
        decreases a.len() - i,
    {
        out.push(a[i]);
        i = i + 1;
    }
    let mut j: usize = 0;
    while j < b.len()
        invariant
            j <= b.len(),
            out@ == a@ + b@.subrange(0, j as int),
        decreases b.len() - j,
    {
        out.push(b[j]);
        j = j + 1;
        assert(out@ =~= a@ + b@.subrange(0, j as int));
    }
    assert(out@ =~= a@ + b@);
    out
}

fn slice_chars(s: &Vec<char>, from: usize, to: usize) -> (r: Vec<char>)
    requires
        from <= to <= s.len(),
    ensures
        r@ == s@.subrange(from as int, to as int),
{
    let mut out: Vec<char> = Vec::new();
    let mut i: usize = from;
    while i < to
        invariant
            from <= i <= to,
            to <= s.len(),
            out@ == s@.subrange(from as int, i as int),
        decreases to - i,
    {
        out.push(s[i]);
        i = i + 1;
        assert(out@ =~= s@.subrange(from as int, i as int));
    }
    out
}

/// One end of a range: trimmed, with the single-address prefix length.
fn range_end(s: &Vec<char>, from: usize, to: usize, v4: bool) -> (r: String)
    requires
        from <= to <= s.len(),
    ensures
        r@ == trimmed(s@.subrange(from as int, to as int)) + net_suffix(v4),
{
    let part = slice_chars(s, from, to);
    let t = trim_text(string_from_chars(&part).as_str());
    let tc = chars_of(t.as_str());
    let full = concat_chars(&tc, &suffix_chars(v4));
    string_from_chars(&full)
}

/// Reads an IP object from a text.
pub fn parse_ip(text: &str) -> (r: Option<Value>)
    ensures
        r.is_some() == ip_parse(text@).is_some(),
        r.is_some() ==> r.unwrap().view() == ip_parse(text@).unwrap(),
{
    let s = chars_of(text);
    let (dashes, dots, slashes, first) = scan(&s);
    let v4 = dots > 0;
    if dashes > 0 {
        if dashes != 1 {
            return None;
        }
        proof {
            lemma_index_in_range(s@, '-');
        }
        let k = first;
        let a = range_end(&s, 0, k, v4);
        let b = range_end(&s, k + 1, s.len(), v4);
        if v4 {
            match (parse_ipv4_net(a.as_str()), parse_ipv4_net(b.as_str())) {
                (Some(x), Some(y)) => {
                    if x.0 < y.0 || (x.0 == y.0 && x.1 < y.1) {
                        let rs = x.0 & !host_mask4_of(x.1);
                        let re = y.0 & !host_mask4_of(y.1);
                        Some(Value::Ipv4Range(Ipv4Range::new(rs, re)))
                    } else {
                        None
                    }
                },
                _ => None,
            }
        } else {
            match (parse_ipv6_net(a.as_str()), parse_ipv6_net(b.as_str())) {
                (Some(x), Some(y)) => {
                    if x.0 < y.0 || (x.0 == y.0 && x.1 < y.1) {
                        let rs = x.0 & !host_mask6_of(x.1);
                        let re = y.0 & !host_mask6_of(y.1);
                        Some(Value::Ipv6Range(Ipv6Range::new(rs, re)))
                    } else {
                        None
                    }
                },
                _ => None,
            }
        }
    } else {
        let t = if slashes > 0 {
            string_from_chars(&s)
        } else {
            string_from_chars(&concat_chars(&s, &suffix_chars(v4)))
        };
        if v4 {
            match parse_ipv4_net(t.as_str()) {
                Some((a, p)) => {
                    if a & host_mask4_of(p) == 0 {
                        Some(Value::Ipv4(Ipv4Net { addr: a, prefix: p }))
                    } else {
                        None
                    }
                },
                None => None,
            }
        } else {
            match parse_ipv6_net(t.as_str()) {
                Some((a, p)) => {
                    if a & host_mask6_of(p) == 0 {
                        Some(Value::Ipv6(Ipv6Net { addr: a, prefix: p }))
                    } else {
                        None
                    }
                },
                None => None,
            }
        }
    }
}

proof fn lemma_index_in_range(s: Seq<char>, c: char)
    requires
        count_char(s, c) > 0,
    ensures
        0 <= index_of(s, c) < s.len(),
    decreases s.len(),
{
    if count_char(s.drop_last(), c) > 0 {
        lemma_index_in_range(s.drop_last(), c);
    } else {
        lemma_no_index(s.drop_last(), c);
    }
}

proof fn lemma_no_index(s: Seq<char>, c: char)
    requires
        count_char(s, c) == 0,
    ensures
        index_of(s, c) == -1,
    decreases s.len(),
{
    if s.len() > 0 {
        lemma_no_index(s.drop_last(), c);
    }
}


/// The prefix length of a range of `count` addresses, where the count is a
/// power of two.
fn count_prefix_len(count: u128, bits: u32) -> (r: Option<i32>)
    requires
        bits <= 128,
    ensures
        r.is_some() == range_len(count as int, bits as int).is_some(),
        r.is_some() ==> r.unwrap() as int == range_len(count as int, bits as int).unwrap(),
{
    if count == 0 {
        return None;
    }
    let mut c: u128 = count;
    let mut k: u32 = 0;
    proof {
        vstd::arithmetic::power2::lemma2_to64();
    }
    while c > 1 && c % 2 == 0
        invariant
            c >= 1,
            k <= 128,
            halvings(count as int) == plus(halvings(c as int), k as nat),
            c as int * vstd::arithmetic::power2::pow2(k as nat) == count as int,
        decreases c,
    {
        proof {
            vstd::arithmetic::power2::lemma_pow2_unfold((k + 1) as nat);
            assert(c as int * vstd::arithmetic::power2::pow2(k as nat)
                == (c / 2) as int * vstd::arithmetic::power2::pow2((k + 1) as nat)) by (nonlinear_arith)
                requires
                    c % 2 == 0,
                    vstd::arithmetic::power2::pow2((k + 1) as nat) == 2 * vstd::arithmetic::power2::pow2(k as nat),
            ;
            lemma_k_small(count, (c / 2) as u128, (k + 1) as nat);
        }
        c = c / 2;
        k = k + 1;
    }
    if c == 1 {
        Some(bits as i32 - k as i32)
    } else {
        None
    }
}

proof fn lemma_k_small(count: u128, c: u128, k: nat)
    requires
        c >= 1,
        c as int * vstd::arithmetic::power2::pow2(k) == count as int,
    ensures
        k <= 128,
{
    if k > 128 {
        vstd::arithmetic::power2::lemma_pow2_strictly_increases(128, k);
        vstd::arithmetic::power2::lemma_pow2_pos(k);
        assert(vstd::arithmetic::power2::pow2(128) > u128::MAX) by {
            vstd::arithmetic::power2::lemma_pow2_adds(64, 64);
            vstd::arithmetic::power2::lemma2_to64();
        }
        assert(c as int * vstd::arithmetic::power2::pow2(k) >= vstd::arithmetic::power2::pow2(k)) by (nonlinear_arith)
            requires
                c >= 1,
                vstd::arithmetic::power2::pow2(k) > 0,
        ;
    }
}

fn big_value(n: u128) -> (r: Value)
    ensures
        r.view() == VView::BigInt(n as int),
{
    Value::BigInt(big_from_u128(n))
}

impl VM {
    /// Replaces a text on top of the stack with the IP object it denotes.
    pub fn core_ip(&mut self) -> (r: i32)
        ensures
            old(self).stack.len() == 0 ==> r == 0 && final(self).stack == old(self).stack
                && final(self).failed_with(ErrorKind::Arity),
            old(self).stack.len() > 0 ==> match ip_outcome(old(self).sview().last()) {
                Ok(x) => r == 1 && final(self).sview() == old(self).sview().drop_last().push(x),
                Err(k) => r == 0 && final(self).sview() == old(self).sview().drop_last() && final(self).failed_with(k),
            },
    {
        if self.stack.len() == 0 {
            self.fail(ErrorKind::Arity, "ip requires one argument");
            return 0;
        }
        let v = self.pop_top();
        match v.to_string() {
            None => {
                self.fail(ErrorKind::Type, "unable to convert argument to string");
                0
            },
            Some(t) => match parse_ip(t.as_str()) {
                Some(x) => {
                    self.push_top(x);
                    1
                },
                None => {
                    self.fail(ErrorKind::Parse, "unable to parse IP address");
                    0
                },
            },
        }
    }

    /// Replaces an IP object with its prefix length.
    pub fn core_ip_len(&mut self) -> (r: i32)
        ensures
            unary_effect(*old(self), *final(self), if old(self).stack.len() > 0 {
                ip_len(old(self).sview().last())
            } else {
                None
            }, if old(self).stack.len() > 0 && ip_first_int(old(self).sview().last()).is_some() {
                ErrorKind::Parse
            } else {
                ErrorKind::Type
            }, r),
    {
        if self.stack.len() == 0 {
            self.fail(ErrorKind::Arity, "ip.len requires one argument");
            return 0;
        }
        let v = self.pop_top();
        let res: Option<i32> = match v {
            Value::Ipv4(n) => Some(n.prefix as i32),
            Value::Ipv6(n) => Some(n.prefix as i32),
            Value::Ipv4Range(g) => {
                if g.s == 0 && g.e == u32::MAX {
                    Some(0)
                } else if g.s > g.e {
                    None
                } else {
                    count_prefix_len((g.e - g.s) as u128 + 1, 32)
                }
            },
            Value::Ipv6Range(g) => {
                if g.s == 0 && g.e == u128::MAX {
                    Some(0)
                } else if g.s > g.e {
                    None
                } else {
                    count_prefix_len(g.e - g.s + 1, 128)
                }
            },
            _ => {
                self.fail(ErrorKind::Type, "expected IP object argument");
                return 0;
            },
        };
        match res {
            Some(l) => {
                self.push_top(Value::Int(l));
                1
            },
            None => {
                self.fail(ErrorKind::Parse, "IP range has no length");
                0
            },
        }
    }

    /// Replaces an IP object with the number of addresses it covers.
    pub fn core_ip_size(&mut self) -> (r: i32)
        ensures
            unary_effect(*old(self), *final(self), if old(self).stack.len() > 0 {
                ip_size(old(self).sview().last())
            } else {
                None
            }, if old(self).stack.len() > 0 && ip_first_int(old(self).sview().last()).is_some() {
                ErrorKind::Parse
            } else {
                ErrorKind::Type
            }, r),
    {
        if self.stack.len() == 0 {
            self.fail(ErrorKind::Arity, "ip.size requires one argument");
            return 0;
        }
        let v = self.pop_top();
        let res: Option<Value> = match v {
            Value::Ipv4(n) => Some(big_value(host_mask4_of(n.prefix) as u128 + 1)),
            Value::Ipv6(n) => {
                let m = host_mask6_of(n.prefix);
                Some(Value::BigInt(big_add(&big_from_u128(m), &big_from_i32(1))))
            },
            Value::Ipv4Range(g) => {
                if g.s > g.e {
                    None
                } else {
                    Some(big_value((g.e - g.s) as u128 + 1))
                }
            },
            Value::Ipv6Range(g) => {
                if g.s > g.e {
                    None
                } else {
                    Some(Value::BigInt(big_add(&big_from_u128(g.e - g.s), &big_from_i32(1))))
                }
            },
            _ => {
                self.fail(ErrorKind::Type, "expected IP object argument");
                return 0;
            },
        };
        match res {
            Some(x) => {
                self.push_top(x);
                1
            },
            None => {
                self.fail(ErrorKind::Parse, "IP range is empty");
                0
            },
        }
    }

    /// Replaces an IP object with its first address as an integer.
    pub fn core_ip_addr_int(&mut self) -> (r: i32)
        ensures
            unary_effect(*old(self), *final(self), if old(self).stack.len() > 0
                && ip_first_int(old(self).sview().last()).is_some() {
                Some(VView::BigInt(ip_first_int(old(self).sview().last()).unwrap()))
            } else {
                None
            }, ErrorKind::Type, r),
    {
        if self.stack.len() == 0 {
            self.fail(ErrorKind::Arity, "ip.addr-int requires one argument");
            return 0;
        }
        let v = self.pop_top();
        let x = match v {
            Value::Ipv4(n) => big_value((n.addr & !host_mask4_of(n.prefix)) as u128),
            Value::Ipv6(n) => big_value(n.addr & !host_mask6_of(n.prefix)),
            Value::Ipv4Range(g) => big_value(g.s as u128),
            Value::Ipv6Range(g) => big_value(g.s),
            _ => {
                self.fail(ErrorKind::Type, "expected IP object argument");
                return 0;
            },
        };
        self.push_top(x);
        1
    }

    /// Replaces an IP object with its last address as an integer.
    pub fn core_ip_last_addr_int(&mut self) -> (r: i32)
        ensures
            unary_effect(*old(self), *final(self), if old(self).stack.len() > 0
                && ip_last_int(old(self).sview().last()).is_some() {
                Some(VView::BigInt(ip_last_int(old(self).sview().last()).unwrap()))
            } else {
                None
            }, ErrorKind::Type, r),
    {
        if self.stack.len() == 0 {
            self.fail(ErrorKind::Arity, "ip.last-addr-int requires one argument");
            return 0;
        }
        let v = self.pop_top();
        let x = match v {
            Value::Ipv4(n) => {
                let m = host_mask4_of(n.prefix);
                big_value(((n.addr & !m) | m) as u128)
            },
            Value::Ipv6(n) => {
                let m = host_mask6_of(n.prefix);
                big_value((n.addr & !m) | m)
            },
            Value::Ipv4Range(g) => big_value(g.e as u128),
            Value::Ipv6Range(g) => big_value(g.e),
            _ => {
                self.fail(ErrorKind::Type, "expected IP object argument");
                return 0;
            },
        };
        self.push_top(x);
        1
    }

    /// Replaces an IP object with the text of its first address.
    pub fn core_ip_addr(&mut self) -> (r: i32)
        ensures
            unary_effect(*old(self), *final(self), if old(self).stack.len() > 0
                && ip_addr_text(old(self).sview().last()).is_some() {
                let t = ip_addr_text(old(self).sview().last()).unwrap();
                Some(VView::String(t, crate::value::escaped(t)))
            } else {
                None
            }, ErrorKind::Type, r),
    {
        if self.stack.len() == 0 {
            self.fail(ErrorKind::Arity, "ip.addr requires one argument");
            return 0;
        }
        let v = self.pop_top();
        let mut out: Vec<char> = Vec::new();
        match v {
            Value::Ipv4(n) => push_ipv4_addr(&mut out, n.addr),
            Value::Ipv6(n) => push_ipv6_addr(&mut out, n.addr),
            Value::Ipv4Range(g) => push_ipv4_addr(&mut out, g.s),
            Value::Ipv6Range(g) => push_ipv6_addr(&mut out, g.s),
            _ => {
                self.fail(ErrorKind::Type, "expected IP object argument");
                return 0;
            },
        }
        assert(out@ == ip_addr_text(old(self).sview().last()).unwrap());
        self.push_top(Value::new_string(string_from_chars(&out)));
        1
    }

    /// Replaces an IP object with the text of its last address.
    pub fn core_ip_last_addr(&mut self) -> (r: i32)
        ensures
            unary_effect(*old(self), *final(self), if old(self).stack.len() > 0
                && ip_last_text(old(self).sview().last()).is_some() {
                let t = ip_last_text(old(self).sview().last()).unwrap();
                Some(VView::String(t, crate::value::escaped(t)))
            } else {
                None
            }, ErrorKind::Type, r),
    {
        if self.stack.len() == 0 {
            self.fail(ErrorKind::Arity, "ip.last-addr requires one argument");
            return 0;
        }
        let v = self.pop_top();
        let mut out: Vec<char> = Vec::new();
        match v {
            Value::Ipv4(n) => {
                let m = host_mask4_of(n.prefix);
                push_ipv4_addr(&mut out, (n.addr & !m) | m);
            },
            Value::Ipv6(n) => {
                let m = host_mask6_of(n.prefix);
                push_ipv6_addr(&mut out, (n.addr & !m) | m);
            },
            Value::Ipv4Range(g) => push_ipv4_addr(&mut out, g.e),
            Value::Ipv6Range(g) => push_ipv6_addr(&mut out, g.e),
            _ => {
                self.fail(ErrorKind::Type, "expected IP object argument");
                return 0;
            },
        }
        assert(out@ == ip_last_text(old(self).sview().last()).unwrap());
        self.push_top(Value::new_string(string_from_chars(&out)));
        1
    }

    /// Takes an integer and, below it, a version (4 or 6), and pushes the
    /// single-address IP object of that number.
    pub fn core_ip_from_int(&mut self) -> (r: i32)
        ensures
            old(self).stack.len() < 2 ==> r == 0 && final(self).stack == old(self).stack
                && final(self).failed_with(ErrorKind::Arity),
            old(self).stack.len() >= 2 ==> {
                let s = old(self).sview();
                let base = s.drop_last().drop_last();
                match ip_from_int(s[s.len() - 2], s.last()) {
                    Some(x) => r == 1 && final(self).sview() == base.push(x),
                    None => r == 0 && final(self).sview() == base && final(self).failed_with(ErrorKind::Parse),
                }
            },
    {
        if self.stack.len() < 2 {
            self.fail(ErrorKind::Arity, "ip.from-int requires two arguments");
            return 0;
        }
        let value = self.pop_top();
        let version = self.pop_top();
        let n = match value.to_bigint() {
            Some(b) => big_to_u128(&b),
            None => None,
        };
        match (version.to_int(), n) {
            (Some(4), Some(u)) => {
                if u > u32::MAX as u128 {
                    self.fail(ErrorKind::Parse, "IPv4 address is outside 32-bit bound");
                    return 0;
                }
                self.push_top(Value::Ipv4(Ipv4Net { addr: u as u32, prefix: 32 }));
                1
            },
            (Some(6), Some(u)) => {
                self.push_top(Value::Ipv6(Ipv6Net { addr: u, prefix: 128 }));
                1
            },
            (Some(4), None) | (Some(6), None) => {
                self.fail(ErrorKind::Parse, "invalid IP integer");
                0
            },
            _ => {
                self.fail(ErrorKind::Parse, "invalid IP address version");
                0
            },
        }
    }

    /// Replaces an IP object with its version, 4 or 6.
    pub fn core_ip_version(&mut self) -> (r: i32)
        ensures
            unary_effect(*old(self), *final(self), if old(self).stack.len() > 0 {
                ip_version(old(self).sview().last())
            } else {
                None
            }, ErrorKind::Type, r),
    {
        if self.stack.len() == 0 {
            self.fail(ErrorKind::Arity, "ip.version requires one argument");
            return 0;
        }
        let v = self.pop_top();
        match v {
            Value::Ipv4(_) | Value::Ipv4Range(_) => {
                self.push_top(Value::Int(4));
                1
            },
            Value::Ipv6(_) | Value::Ipv6Range(_) => {
                self.push_top(Value::Int(6));
                1
            },
            _ => {
                self.fail(ErrorKind::Type, "expected IP object argument");
                0
            },
        }
    }

    /// Replaces an IP object with its textual form.
    pub fn core_ip_to_string(&mut self) -> (r: i32)
        ensures
            unary_effect(*old(self), *final(self), if old(self).stack.len() > 0
                && ip_text(old(self).sview().last()).is_some() {
                let t = ip_text(old(self).sview().last()).unwrap();
                Some(VView::String(t, crate::value::escaped(t)))
            } else {
                None
            }, ErrorKind::Type, r),
    {
        if self.stack.len() == 0 {
            self.fail(ErrorKind::Arity, "ip.to-string requires one argument");
            return 0;
        }
        let v = self.pop_top();
        let cs = match v {
            Value::Ipv4(n) => ipv4_net_string(n),
            Value::Ipv6(n) => ipv6_net_string(n),
            Value::Ipv4Range(g) => ipv4_range_string(g),
            Value::Ipv6Range(g) => ipv6_range_string(g),
            _ => {
                self.fail(ErrorKind::Type, "expected IP object argument");
                return 0;
            },
        };
        self.push_top(Value::new_string(string_from_chars(&cs)));
        1
    }
}

} // verus!
