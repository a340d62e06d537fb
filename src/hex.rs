use vstd::prelude::*;

verus! {

/// The value of a hexadecimal digit of either case.
pub open spec fn hex_digit(c: char) -> Option<nat> {
    if '0' <= c <= '9' {
        Some((c as int - 48) as nat)
    } else if 'a' <= c <= 'f' {
        Some((c as int - 87) as nat)
    } else if 'A' <= c <= 'F' {
        Some((c as int - 55) as nat)
    } else {
        None
    }
}

pub open spec fn all_hex(s: Seq<char>) -> bool {
    forall|i: int| 0 <= i < s.len() ==> (#[trigger] hex_digit(s[i])).is_some()
}

/// The value of a sequence of hexadecimal digits.
pub open spec fn hex_digits_value(s: Seq<char>) -> nat
    decreases s.len(),
{
    if s.len() == 0 {
        0
    } else {
        hex_digits_value(s.drop_last()) * 16 + hex_digit(s.last()).unwrap()
    }
}

/// The i32 a hexadecimal text denotes, as `i32::from_str_radix(_, 16)`
/// reads it: an optional sign, at least one hex digit, a value in range.
pub open spec fn i32_hex_value(s: Seq<char>) -> Option<i32> {
    let signed = s.len() > 0 && (s[0] == '-' || s[0] == '+');
    let body = if signed {
        s.drop_first()
    } else {
        s
    };
    if body.len() == 0 || !all_hex(body) {
        None
    } else {
        let v = if signed && s[0] == '-' {
            -(hex_digits_value(body) as int)
        } else {
            hex_digits_value(body) as int
        };
        if i32::MIN <= v <= i32::MAX {
            Some(v as i32)
        } else {
            None
        }
    }
}

fn hex_digit_of(c: char) -> (r: Option<u32>)
    ensures
        r.is_some() == hex_digit(c).is_some(),
        r.is_some() ==> r.unwrap() as nat == hex_digit(c).unwrap(),
{
    if '0' <= c && c <= '9' {
        Some(c as u32 - 48)
    } else if 'a' <= c && c <= 'f' {
        Some(c as u32 - 87)
    } else if 'A' <= c && c <= 'F' {
        Some(c as u32 - 55)
    } else {
        None
    }
}

/// A hex digit string is worth at least as much as any of its prefixes.
proof fn lemma_hex_grow(s: Seq<char>, k: int)
    requires
        0 <= k <= s.len(),
    ensures
        hex_digits_value(s) >= hex_digits_value(s.subrange(0, k)),
    decreases s.len(),
{
    if k < s.len() {
        lemma_hex_grow(s.drop_last(), k);
        assert(s.drop_last().subrange(0, k) =~= s.subrange(0, k));
    } else {
        assert(s.subrange(0, k) =~= s);
    }
}

/// Reads an i32 from hexadecimal text.
pub fn parse_hex_i32(s: &Vec<char>) -> (r: Option<i32>)
    ensures
        r == i32_hex_value(s@),
{
    let n = s.len();
    if n == 0 {
        return None;
    }
    let neg = s[0] == '-';
    let start: usize = if s[0] == '-' || s[0] == '+' { 1 } else { 0 };
    if start == n {
        return None;
    }
    let ghost body = s@.subrange(start as int, n as int);
    proof {
        if start == 1 {
            assert(body =~= s@.drop_first());
        } else {
            assert(body =~= s@);
        }
    }
    let mut acc: i64 = 0;
    let mut i: usize = start;
    while i < n
        invariant
            start <= i <= n,
            start <= 1,
            n == s@.len(),
            body == s@.subrange(start as int, n as int),
            start == 1 ==> body == s@.drop_first(),
            start == 0 ==> body == s@,
            start == 1 <==> (s@[0] == '-' || s@[0] == '+'),
            neg == (s@[0] == '-'),
            all_hex(s@.subrange(start as int, i as int)),
            acc == hex_digits_value(s@.subrange(start as int, i as int)),
            acc <= 2147483648,
        decreases n - i,
    {
        let c = s[i];
        let d = match hex_digit_of(c) {
            Some(d) => d,
            None => {
                proof {
                    assert(!all_hex(body)) by {
                        assert(body[i - start] == c);
                    }
                }
                return None;
            },
        };
        let next = acc * 16 + d as i64;
        proof {
            let pre = s@.subrange(start as int, i as int);
            let post = s@.subrange(start as int, i + 1);
            assert(post.drop_last() =~= pre);
            assert(post.last() == c);
            assert(hex_digits_value(post) == hex_digits_value(pre) * 16 + d);
            assert(all_hex(post)) by {
                assert forall|k: int| 0 <= k < post.len() implies (#[trigger] hex_digit(post[k])).is_some() by {
                    if k < pre.len() {
                        assert(post[k] == pre[k]);
                    }
                }
            }
        }
        if next > 2147483648 {
            proof {
                lemma_hex_grow(body, (i + 1 - start) as int);
                assert(body.subrange(0, i + 1 - start) =~= s@.subrange(start as int, i + 1));
            }
            return None;
        }
        acc = next;
        i = i + 1;
    }
    if neg {
        Some((-acc) as i32)
    } else if acc > 2147483647 {
        None
    } else {
        Some(acc as i32)
    }
}

} // verus!
