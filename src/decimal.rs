//! Decimal integer literals, as accepted for brightness, temperature and
//! brightness deltas.
use vstd::prelude::*;

verus! {

/// Magnitudes above this are all equally out of range for every caller.
pub const SATURATION: i64 = 10_000_000_000;

pub open spec fn is_digit(c: char) -> bool {
    '0' <= c && c <= '9'
}

pub open spec fn digit_value(c: char) -> nat {
    (c as nat - '0' as nat) as nat
}

pub open spec fn all_digits(s: Seq<char>) -> bool {
    forall|i: int| 0 <= i < s.len() ==> is_digit(#[trigger] s[i])
}

/// The value of a string of decimal digits, most significant first.
pub open spec fn decimal_value(s: Seq<char>) -> nat
    decreases s.len(),
{
    if s.len() == 0 {
        0
    } else {
        decimal_value(s.drop_last()) * 10 + digit_value(s.last())
    }
}

/// Length of the leading sign: `+` always, `-` only for signed literals.
pub open spec fn sign_len(s: Seq<char>, signed: bool) -> int {
    if s.len() > 0 && (s[0] == '+' || (signed && s[0] == '-')) {
        1
    } else {
        0
    }
}

/// The integer a literal denotes: an optional sign followed by one or more
/// ASCII digits; `None` for anything else.
pub open spec fn literal_value(s: Seq<char>, signed: bool) -> Option<int> {
    let digits = s.skip(sign_len(s, signed));
    if digits.len() > 0 && all_digits(digits) {
        if s[0] == '-' {
            Some(-decimal_value(digits))
        } else {
            Some(decimal_value(digits) as int)
        }
    } else {
        None
    }
}

pub open spec fn saturate(v: int) -> int {
    if v > SATURATION {
        SATURATION as int
    } else if v < -SATURATION {
        -SATURATION
    } else {
        v
    }
}

proof fn lemma_saturated_step(v: nat, d: nat)
    requires
        d < 10,
    ensures
        saturate(saturate(v as int) * 10 + d) == saturate((v * 10 + d) as int),
{
    if v > SATURATION {
        assert(v * 10 >= v) by (nonlinear_arith);
    }
}

/// Reads a literal, giving its value saturated to `±SATURATION`, or `None`
/// when it is not a literal.
pub fn read_literal(s: &str, signed: bool) -> (r: Option<i64>)
    ensures
        r == match literal_value(s@, signed) {
            Some(v) => Some(saturate(v) as i64),
            None => None::<i64>,
        },
{
    let n = s.unicode_len();
    let start: usize = if n > 0 && (s.get_char(0) == '+' || (signed && s.get_char(0) == '-')) {
        1
    } else {
        0
    };
    let ghost digits = s@.skip(start as int);
    if start >= n {
        return None;
    }
    let mut acc: i64 = 0;
    let mut i: usize = start;
    while i < n
        invariant
            start <= i <= n,
            n == s@.len(),
            start == sign_len(s@, signed),
            digits == s@.skip(start as int),
            all_digits(s@.subrange(start as int, i as int)),
            acc == saturate(decimal_value(s@.subrange(start as int, i as int)) as int),
        decreases n - i,
    {
        let c = s.get_char(i);
        if !('0' <= c && c <= '9') {
            assert(digits[i - start] == c);
            return None;
        }
        let d = (c as u32 - '0' as u32) as i64;
        let ghost prev = s@.subrange(start as int, i as int);
        let ghost next = s@.subrange(start as int, i + 1);
        assert(next.drop_last() =~= prev);
        proof {
            lemma_saturated_step(decimal_value(prev), d as nat);
        }
        let grown = acc * 10 + d;
        acc = if grown > SATURATION { SATURATION } else { grown };
        i = i + 1;
    }
    assert(s@.subrange(start as int, n as int) =~= digits);
    assert(is_digit(digits[0]));
    if start == 1 && s.get_char(0) == '-' {
        Some(-acc)
    } else {
        Some(acc)
    }
}

} // verus!
