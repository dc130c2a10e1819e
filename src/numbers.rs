//! Decimal integers: reading an `i32` and writing an integer.
use vstd::prelude::*;
use crate::units::{DIGIT_0, DIGIT_9, MINUS, PLUS};
use crate::utils::push_all;

verus! {

/// A decimal digit unit.
pub open spec fn is_digit(c: u16) -> bool {
    DIGIT_0 <= c <= DIGIT_9
}

/// The value of a run of decimal digits.
pub open spec fn digits_value(s: Seq<u16>) -> nat
    decreases s.len(),
{
    if s.len() == 0 {
        0
    } else {
        digits_value(s.drop_last()) * 10 + (s.last() - DIGIT_0) as nat
    }
}

/// Every unit of `d` is a digit.
pub open spec fn all_digits(d: Seq<u16>) -> bool {
    forall|j: int| 0 <= j < d.len() ==> is_digit(#[trigger] d[j])
}

/// `s` without a leading sign.
pub open spec fn unsigned_part(s: Seq<u16>) -> Seq<u16> {
    if s.len() > 0 && (s[0] == MINUS || s[0] == PLUS) {
        s.drop_first()
    } else {
        s
    }
}

/// The value that `s` writes, its sign included.
pub open spec fn signed_value(s: Seq<u16>) -> int {
    if s.len() > 0 && s[0] == MINUS {
        -digits_value(unsigned_part(s))
    } else {
        digits_value(unsigned_part(s)) as int
    }
}

/// An `i32` written in decimal: an optional `+` or `-`, then at least one
/// digit and nothing else, with a value in range.
pub open spec fn parsed_i32(s: Seq<u16>) -> Option<i32> {
    let d = unsigned_part(s);
    if d.len() > 0 && all_digits(d) && i32::MIN <= signed_value(s) <= i32::MAX {
        Some(signed_value(s) as i32)
    } else {
        None
    }
}

proof fn lemma_digits_grow(s: Seq<u16>, k: int)
    requires
        0 <= k <= s.len(),
        forall|j: int| 0 <= j < s.len() ==> is_digit(#[trigger] s[j]),
    ensures
        digits_value(s.subrange(0, k)) <= digits_value(s),
    decreases s.len() - k,
{
    if k < s.len() {
        lemma_digits_grow(s, k + 1);
        let t = s.subrange(0, k + 1);
        assert(t.drop_last() =~= s.subrange(0, k));
        assert(digits_value(t) == digits_value(s.subrange(0, k)) * 10 + (t.last() - DIGIT_0) as nat);
        assert(digits_value(s.subrange(0, k)) <= digits_value(t)) by (nonlinear_arith)
            requires
                digits_value(t) == digits_value(s.subrange(0, k)) * 10 + (t.last() - DIGIT_0) as nat,
        ;
    } else {
        assert(s.subrange(0, k) =~= s);
    }
}

/// Reads an `i32` in decimal, with an optional sign.
pub fn parse_i32(s: &[u16]) -> (r: Option<i32>)
    ensures
        r == parsed_i32(s@),
{
    let n = s.len();
    let neg = n > 0 && s[0] == MINUS;
    let start: usize = if n > 0 && (s[0] == MINUS || s[0] == PLUS) {
        1
    } else {
        0
    };
    let ghost d = s@.subrange(start as int, n as int);
    proof {
        assert(d =~= unsigned_part(s@));
        if start == 1 {
            assert(d =~= s@.drop_first());
        } else {
            assert(d =~= s@);
        }
    }
    if start == n {
        return None;
    }
    let mut v: u64 = 0;
    let mut i: usize = start;
    while i < n
        invariant
            n == s@.len(),
            start <= i <= n,
            d == s@.subrange(start as int, n as int),
            d == unsigned_part(s@),
            neg == (n > 0 && s@[0] == MINUS),
            forall|j: int| start <= j < i ==> is_digit(#[trigger] s@[j]),
            v as nat == digits_value(s@.subrange(start as int, i as int)),
            v <= 2147483648,
        decreases n - i,
    {
        let c = s[i];
        if c < DIGIT_0 || c > DIGIT_9 {
            proof {
                assert(d[i - start] == s@[i as int]);
                assert(!is_digit(d[i - start]));
                assert(!all_digits(d));
            }
            return None;
        }
        let next: u64 = v * 10 + (c - DIGIT_0) as u64;
        proof {
            let t = s@.subrange(start as int, i + 1);
            assert(t.drop_last() =~= s@.subrange(start as int, i as int));
        }
        if next > 2147483648 {
            proof {
                let t = s@.subrange(start as int, i + 1);
                assert(t.last() == c);
                assert(digits_value(t) == next as nat);
                assert(d.subrange(0, i + 1 - start) =~= t);
                if all_digits(d) {
                    lemma_digits_grow(d, i + 1 - start);
                }
            }
            return None;
        }
        v = next;
        i += 1;
    }
    proof {
        assert(s@.subrange(start as int, n as int) == d);
        assert forall|j: int| 0 <= j < d.len() implies is_digit(#[trigger] d[j]) by {
            assert(d[j] == s@[start + j]);
        };
        assert(all_digits(d));
    }
    if neg {
        let m: i64 = -(v as i64);
        if m < -2147483648 {
            return None;
        }
        Some(m as i32)
    } else {
        if v > 2147483647 {
            return None;
        }
        Some(v as i32)
    }
}

/// The decimal digits of `n`.
pub open spec fn decimal_digits(n: nat) -> Seq<u16>
    decreases n,
{
    if n < 10 {
        seq![(DIGIT_0 + n) as u16]
    } else {
        decimal_digits(n / 10).push((DIGIT_0 + n % 10) as u16)
    }
}

/// `n` in decimal, with a `-` when negative.
pub open spec fn decimal(n: int) -> Seq<u16> {
    if n < 0 {
        seq![MINUS] + decimal_digits((-n) as nat)
    } else {
        decimal_digits(n as nat)
    }
}

fn digits_units(n: u128) -> (r: Vec<u16>)
    ensures
        r@ == decimal_digits(n as nat),
    decreases n,
{
    if n < 10 {
        vec![DIGIT_0 + n as u16]
    } else {
        let mut r = digits_units(n / 10);
        r.push(DIGIT_0 + (n % 10) as u16);
        r
    }
}

/// Writes `n` in decimal.
pub fn decimal_units(n: i128) -> (r: Vec<u16>)
    requires
        n > i128::MIN,
    ensures
        r@ == decimal(n as int),
{
    if n < 0 {
        let mut r: Vec<u16> = vec![MINUS];
        let d = digits_units((-n) as u128);
        push_all(&mut r, &d);
        r
    } else {
        digits_units(n as u128)
    }
}

} // verus!
