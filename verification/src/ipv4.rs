//! Dotted-quad IPv4 address recognition, with the same acceptance rules as
//! `std::net::Ipv4Addr`'s parser: exactly four decimal fields separated by
//! dots, each of one to three digits, no leading zero in a field of more than
//! one digit, and every value at most 255.

use vstd::prelude::*;

verus! {

/// An ASCII decimal digit.
pub open spec fn is_digit(c: char) -> bool {
    '0' <= c && c <= '9'
}

/// The value of an ASCII decimal digit.
pub open spec fn digit_value(c: char) -> int {
    (c as int) - ('0' as int)
}

/// The value of a string of decimal digits, read most significant first.
pub open spec fn decimal_value(p: Seq<char>) -> int
    decreases p.len(),
{
    if p.len() == 0 {
        0
    } else {
        decimal_value(p.drop_last()) * 10 + digit_value(p.last())
    }
}

/// One field of a dotted quad as text.
pub open spec fn is_octet_text(p: Seq<char>) -> bool {
    &&& 1 <= p.len() <= 3
    &&& forall|i: int| 0 <= i < p.len() ==> is_digit(#[trigger] p[i])
    &&& p.len() > 1 ==> p[0] != '0'
    &&& decimal_value(p) <= 255
}

/// The pieces of `s` between dots (a string without dots is one piece).
pub open spec fn dot_fields(s: Seq<char>) -> Seq<Seq<char>>
    decreases s.len(),
{
    if s.len() == 0 {
        seq![Seq::<char>::empty()]
    } else {
        let f = dot_fields(s.drop_last());
        if s.last() == '.' {
            f.push(Seq::<char>::empty())
        } else {
            f.update(f.len() - 1, f.last().push(s.last()))
        }
    }
}

/// The four octets that `s` denotes, or `None` when `s` is no dotted quad.
pub open spec fn ipv4_octets(s: Seq<char>) -> Option<(u8, u8, u8, u8)> {
    let f = dot_fields(s);
    if f.len() == 4 && (forall|i: int| 0 <= i < 4 ==> is_octet_text(#[trigger] f[i])) {
        Some(
            (
                decimal_value(f[0]) as u8,
                decimal_value(f[1]) as u8,
                decimal_value(f[2]) as u8,
                decimal_value(f[3]) as u8,
            ),
        )
    } else {
        None
    }
}

/// `a` is a prefix of `b`.
pub open spec fn is_prefix(a: Seq<char>, b: Seq<char>) -> bool {
    a.len() <= b.len() && forall|m: int| 0 <= m < a.len() ==> a[m] == #[trigger] b[m]
}

proof fn lemma_dot_fields_nonempty(s: Seq<char>)
    ensures
        dot_fields(s).len() >= 1,
    decreases s.len(),
{
    if s.len() > 0 {
        lemma_dot_fields_nonempty(s.drop_last());
    }
}

proof fn lemma_decimal_value_bound(p: Seq<char>)
    requires
        forall|i: int| 0 <= i < p.len() ==> is_digit(#[trigger] p[i]),
    ensures
        0 <= decimal_value(p),
        p.len() <= 3 ==> decimal_value(p) <= 999,
        p.len() <= 2 ==> decimal_value(p) <= 99,
        p.len() <= 1 ==> decimal_value(p) <= 9,
    decreases p.len(),
{
    if p.len() > 0 {
        assert(is_digit(p[p.len() - 1]));
        lemma_decimal_value_bound(p.drop_last());
    }
}

/// The fields of a prefix of `s` reappear in the fields of `s`: all but the
/// last unchanged, the last as a prefix of its counterpart.
proof fn lemma_dot_fields_prefix(s: Seq<char>, i: int)
    requires
        0 <= i <= s.len(),
    ensures
        dot_fields(s.take(i)).len() <= dot_fields(s).len(),
        forall|j: int|
            0 <= j < dot_fields(s.take(i)).len() - 1 ==> #[trigger] dot_fields(s)[j]
                == dot_fields(s.take(i))[j],
        is_prefix(
            dot_fields(s.take(i)).last(),
            dot_fields(s)[dot_fields(s.take(i)).len() - 1],
        ),
    decreases s.len(),
{
    lemma_dot_fields_nonempty(s.take(i));
    lemma_dot_fields_nonempty(s);
    if i == s.len() {
        assert(s.take(i) =~= s);
    } else {
        let d = s.drop_last();
        assert(d.take(i) =~= s.take(i));
        lemma_dot_fields_prefix(d, i);
        lemma_dot_fields_nonempty(d);
        let fp = dot_fields(s.take(i));
        let fd = dot_fields(d);
        let fs = dot_fields(s);
        let k = fp.len() - 1;
        assert(fs.len() >= fd.len());
        assert forall|j: int| 0 <= j < fd.len() - 1 implies #[trigger] fs[j] == fd[j] by {}
        assert(is_prefix(fd[k], fs[k]));
    }
}

/// Recognises a dotted-quad IPv4 address and returns its four octets.
pub fn parse_ipv4(s: &str) -> (r: Option<(u8, u8, u8, u8)>)
    ensures
        r == ipv4_octets(s@),
{
    let n = s.unicode_len();
    let mut done: Vec<u8> = Vec::new();
    let mut cur_len: usize = 0;
    let mut cur_val: u16 = 0;
    let mut cur_zero: bool = false;
    let mut i: usize = 0;
    while i < n
        invariant
            n == s@.len(),
            0 <= i <= n,
            done.len() <= 3,
            cur_len <= 3,
            dot_fields(s@.take(i as int)).len() == done.len() + 1,
            forall|j: int|
                0 <= j < done.len() ==> is_octet_text(#[trigger] dot_fields(s@.take(i as int))[j])
                    && done[j] == decimal_value(dot_fields(s@.take(i as int))[j]),
            dot_fields(s@.take(i as int)).last().len() == cur_len,
            forall|m: int|
                0 <= m < cur_len ==> is_digit(#[trigger] dot_fields(s@.take(i as int)).last()[m]),
            cur_val == decimal_value(dot_fields(s@.take(i as int)).last()),
            cur_len >= 1 ==> cur_zero == (dot_fields(s@.take(i as int)).last()[0] == '0'),
        decreases n - i,
    {
        let c = s.get_char(i);
        let ghost p = s@.take(i as int);
        let ghost q = s@.take(i + 1);
        assert(q.drop_last() =~= p);
        assert(q.last() == c);
        proof {
            lemma_dot_fields_nonempty(p);
            lemma_decimal_value_bound(dot_fields(p).last());
        }
        if c == '.' {
            if done.len() == 3 || cur_len == 0 || cur_val > 255 || (cur_len > 1 && cur_zero) {
                proof {
                    lemma_dot_fields_prefix(s@, i + 1);
                    let fs = dot_fields(s@);
                    let k = done.len() as int;
                    if fs.len() == 4 && done.len() < 3 {
                        assert(fs[k] == dot_fields(p)[k]);
                        assert(!is_octet_text(fs[k]));
                    }
                }
                return None;
            }
            done.push(cur_val as u8);
            cur_len = 0;
            cur_val = 0;
            cur_zero = false;
        } else if '0' <= c && c <= '9' {
            if cur_len == 3 {
                proof {
                    lemma_dot_fields_prefix(s@, i + 1);
                    let fs = dot_fields(s@);
                    let k = done.len() as int;
                    assert(dot_fields(q).last().len() == 4);
                    assert(!is_octet_text(fs[k]));
                }
                return None;
            }
            if cur_len == 0 {
                cur_zero = c == '0';
            }
            let dv: u16 = (c as u32 - '0' as u32) as u16;
            cur_val = cur_val * 10 + dv;
            cur_len = cur_len + 1;
            proof {
                let fp = dot_fields(p);
                let fq = dot_fields(q);
                assert(fq.last() == fp.last().push(c));
                assert(fq.last().drop_last() =~= fp.last());
                assert forall|m: int| 0 <= m < cur_len implies is_digit(#[trigger] fq.last()[m]) by {
                    if m < cur_len - 1 {
                        assert(fq.last()[m] == fp.last()[m]);
                    }
                }
            }
        } else {
            proof {
                lemma_dot_fields_prefix(s@, i + 1);
                let fs = dot_fields(s@);
                let k = done.len() as int;
                let fq = dot_fields(q);
                assert(fq.last()[cur_len as int] == c);
                assert(fs[k][cur_len as int] == c);
                assert(!is_octet_text(fs[k]));
            }
            return None;
        }
        i = i + 1;
    }
    assert(s@.take(n as int) =~= s@);
    if done.len() != 3 || cur_len == 0 || cur_val > 255 || (cur_len > 1 && cur_zero) {
        proof {
            let fs = dot_fields(s@);
            if fs.len() == 4 {
                assert(!is_octet_text(fs[3]));
            }
        }
        return None;
    }
    let r = Some((done[0], done[1], done[2], cur_val as u8));
    proof {
        let fs = dot_fields(s@);
        assert(is_octet_text(fs[0]) && is_octet_text(fs[1]) && is_octet_text(fs[2]));
        assert(is_octet_text(fs[3]));
    }
    r
}

} // verus!
