//! Dotted-quad IPv4 addresses of the device.
use vstd::prelude::*;
use crate::decimal::{all_digits, decimal_value, digit_value, is_digit};

verus! {

/// An IPv4 address `a.b.c.d`.
#[derive(Clone, Copy, Debug, PartialEq, Eq, Structural)]
pub struct Ipv4Address {
    pub a: u8,
    pub b: u8,
    pub c: u8,
    pub d: u8,
}

/// The fields of `s` between dots, in order; a string without dots is one field.
pub open spec fn dot_fields(s: Seq<char>) -> Seq<Seq<char>>
    decreases s.len(),
{
    if s.len() == 0 {
        seq![Seq::empty()]
    } else {
        let init = dot_fields(s.drop_last());
        if s.last() == '.' {
            init.push(Seq::empty())
        } else {
            init.update(init.len() - 1, init.last().push(s.last()))
        }
    }
}

/// One to three digits, no leading zero unless the field is `0`, at most 255.
pub open spec fn is_octet_text(f: Seq<char>) -> bool {
    &&& 1 <= f.len() <= 3
    &&& all_digits(f)
    &&& f.len() > 1 ==> f[0] != '0'
    &&& decimal_value(f) <= 255
}

/// The address that `s` spells, if it is exactly four octets joined by dots.
pub open spec fn ipv4_of(s: Seq<char>) -> Option<Ipv4Address> {
    let f = dot_fields(s);
    if f.len() == 4 && forall|i: int| 0 <= i < 4 ==> is_octet_text(#[trigger] f[i]) {
        Some(
            Ipv4Address {
                a: decimal_value(f[0]) as u8,
                b: decimal_value(f[1]) as u8,
                c: decimal_value(f[2]) as u8,
                d: decimal_value(f[3]) as u8,
            },
        )
    } else {
        None
    }
}

proof fn lemma_dot_fields_nonempty(s: Seq<char>)
    ensures
        dot_fields(s).len() >= 1,
    decreases s.len(),
{
    if s.len() > 0 {
        lemma_dot_fields_nonempty(s.drop_last());
    }
}

/// Parses a dotted-quad address; `None` when `s` is not one.
pub fn parse_ipv4(s: &str) -> (r: Option<Ipv4Address>)
    ensures
        r == ipv4_of(s@),
{
    let n = s.unicode_len();
    let mut done: Vec<u8> = Vec::new();
    let mut done_ok = true;
    let mut cur_len: usize = 0;
    let mut cur_val: u16 = 0;
    let mut cur_digits = true;
    let mut cur_zero_first = false;
    let mut i: usize = 0;
    proof {
        assert(s@.take(0) =~= Seq::<char>::empty());
    }
    while i < n
        invariant
            i <= n,
            n == s@.len(),
            cur_len <= i,
            cur_val <= 999,
            cur_len <= 2 ==> cur_val <= 99,
            cur_len <= 1 ==> cur_val <= 9,
            dot_fields(s@.take(i as int)).len() == done.len() + 1,
            done_ok == forall|j: int|
                0 <= j < done.len() ==> is_octet_text(#[trigger] dot_fields(s@.take(i as int))[j]),
            done_ok ==> forall|j: int|
                0 <= j < done.len() ==> done@[j] == decimal_value(
                    #[trigger] dot_fields(s@.take(i as int))[j],
                ),
            cur_len == dot_fields(s@.take(i as int)).last().len(),
            cur_digits == all_digits(dot_fields(s@.take(i as int)).last()),
            cur_digits && cur_len <= 3 ==> cur_val == decimal_value(
                dot_fields(s@.take(i as int)).last(),
            ),
            cur_len > 0 ==> cur_zero_first == (dot_fields(s@.take(i as int)).last()[0] == '0'),
        decreases n - i,
    {
        let c = s.get_char(i);
        let ghost old_f = dot_fields(s@.take(i as int));
        let ghost t = s@.take(i + 1);
        proof {
            assert(t.drop_last() =~= s@.take(i as int));
            assert(t.last() == c);
            lemma_dot_fields_nonempty(s@.take(i as int));
        }
        let ghost new_f = dot_fields(t);
        if c == '.' {
            let ok = 1 <= cur_len && cur_len <= 3 && cur_digits && !(cur_len > 1 && cur_zero_first)
                && cur_val <= 255;
            assert(new_f == old_f.push(Seq::empty()));
            assert(ok == is_octet_text(old_f.last()));
            done.push(if ok { cur_val as u8 } else { 0 });
            done_ok = done_ok && ok;
            cur_len = 0;
            cur_val = 0;
            cur_digits = true;
            cur_zero_first = false;
            proof {
                assert(new_f.last() =~= Seq::<char>::empty());
                assert forall|j: int| 0 <= j < done.len() - 1 implies new_f[j] == old_f[j] by {}
                assert(new_f[done.len() - 1] == old_f.last());
            }
        } else {
            let ghost cur = old_f.last();
            let ghost grown = cur.push(c);
            assert(new_f == old_f.update(old_f.len() - 1, grown));
            assert(grown.drop_last() =~= cur);
            assert forall|j: int| 0 <= j < done.len() implies new_f[j] == old_f[j] by {}
            let is_dig = '0' <= c && c <= '9';
            if cur_digits && is_dig && cur_len < 3 {
                cur_val = cur_val * 10 + (c as u32 - '0' as u32) as u16;
            }
            if cur_len == 0 {
                cur_zero_first = c == '0';
            }
            proof {
                if cur_digits && is_dig {
                    assert forall|k: int| 0 <= k < grown.len() implies is_digit(#[trigger] grown[k]) by {
                        if k < cur.len() {
                            assert(grown[k] == cur[k]);
                        }
                    }
                }
                if !is_dig {
                    assert(!is_digit(grown[grown.len() - 1]));
                }
                if !cur_digits {
                    let k = choose|k: int| 0 <= k < cur.len() && !is_digit(#[trigger] cur[k]);
                    assert(grown[k] == cur[k]);
                }
                if cur_len > 0 {
                    assert(grown[0] == cur[0]);
                }
            }
            cur_digits = cur_digits && is_dig;
            cur_len = cur_len + 1;
        }
        i = i + 1;
    }
    assert(s@.take(n as int) =~= s@);
    let last_ok = 1 <= cur_len && cur_len <= 3 && cur_digits && !(cur_len > 1 && cur_zero_first)
        && cur_val <= 255;
    if done_ok && last_ok && done.len() == 3 {
        let ghost f = dot_fields(s@);
        assert(f[3] == f.last());
        assert forall|k: int| 0 <= k < 4 implies is_octet_text(#[trigger] f[k]) by {
            if k < 3 {
                assert(is_octet_text(f[k]));
            }
        }
        Some(Ipv4Address { a: done[0], b: done[1], c: done[2], d: cur_val as u8 })
    } else {
        proof {
            let f = dot_fields(s@);
            if f.len() == 4 {
                assert(f[3] == f.last());
                if !done_ok {
                    let j = choose|j: int| 0 <= j < done.len() && !is_octet_text(#[trigger] f[j]);
                    assert(!is_octet_text(f[j]));
                } else {
                    assert(!is_octet_text(f[3]));
                }
            }
        }
        None
    }
}

} // verus!
