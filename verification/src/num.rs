//! Decimal text to unsigned integers, for the typed columns of a row:
//! an optional leading `+`, then decimal digits, rejected on overflow.
use vstd::prelude::*;
use crate::date::{digit_of, digit_val, is_digit};

verus! {

/// The value of a run of decimal digits, most significant first.
pub open spec fn digits_val(s: Seq<char>) -> int
    decreases s.len(),
{
    if s.len() == 0 {
        0
    } else {
        10 * digits_val(s.drop_last()) + digit_val(s.last())
    }
}

pub open spec fn all_digits(s: Seq<char>) -> bool {
    forall|i: int| 0 <= i < s.len() ==> is_digit(s[i])
}

/// What parsing an unsigned decimal field yields: the digits' value when the
/// text is an optional `+` followed by digits and the value fits in 64 bits.
pub open spec fn spec_parse_u64(s: Seq<char>) -> Option<u64> {
    let t = if s.len() > 0 && s[0] == '+' {
        s.drop_first()
    } else {
        s
    };
    if t.len() > 0 && all_digits(t) && digits_val(t) <= u64::MAX {
        Some(digits_val(t) as u64)
    } else {
        None
    }
}

/// As `spec_parse_u64`, further bounded to 16 bits.
pub open spec fn spec_parse_u16(s: Seq<char>) -> Option<u16> {
    match spec_parse_u64(s) {
        Some(v) => if v <= u16::MAX {
            Some(v as u16)
        } else {
            None
        },
        None => None,
    }
}

proof fn lemma_digits_val_nonneg(s: Seq<char>)
    ensures
        digits_val(s) >= 0,
    decreases s.len(),
{
    if s.len() > 0 {
        lemma_digits_val_nonneg(s.drop_last());
    }
}

proof fn lemma_digits_val_prefix_le(s: Seq<char>, i: int)
    requires
        0 <= i <= s.len(),
    ensures
        digits_val(s.take(i)) <= digits_val(s),
    decreases s.len() - i,
{
    if i < s.len() {
        lemma_digits_val_prefix_le(s, i + 1);
        let p = s.take(i + 1);
        assert(p.drop_last() =~= s.take(i));
        lemma_digits_val_nonneg(s.take(i));
        assert(digits_val(s.take(i)) <= digits_val(p));
    } else {
        assert(s.take(i) =~= s);
    }
}

/// Parses an unsigned decimal field into 64 bits, rejecting any text that is
/// not an optional `+` followed by digits, and any value that does not fit.
pub fn parse_u64_text(s: &str) -> (r: Option<u64>)
    ensures
        r == spec_parse_u64(s@),
{
    let n = s.unicode_len();
    let start: usize = if n > 0 && s.get_char(0) == '+' {
        1
    } else {
        0
    };
    let ghost t = if start == 1 {
        s@.drop_first()
    } else {
        s@
    };
    if start >= n {
        return None;
    }
    let mut acc: u64 = 0;
    let mut i: usize = start;
    while i < n
        invariant
            start <= i <= n,
            all_digits(t.take(i - start)),
            acc == digits_val(t.take(i - start)),
        decreases n - i,
    {
        let c = s.get_char(i);
        let d = digit_of(c);
        proof {
            assert(t[i - start] == c);
        }
        if d > 9 {
            assert(!all_digits(t));
            return None;
        }
        let limit: u64 = (u64::MAX - (d as u64)) / 10;
        if acc > limit {
            proof {
                let pv = digits_val(t.take(i - start));
                let nv = digits_val(t.take(i - start + 1));
                assert(t.take(i - start + 1).drop_last() =~= t.take(i - start));
                assert(nv == 10 * pv + d);
                assert(10 * pv + d > u64::MAX) by (nonlinear_arith)
                    requires
                        pv > (u64::MAX - d) / 10,
                        0 <= d <= 9,
                        pv >= 0,
                {
                }
                lemma_digits_val_prefix_le(t, i - start + 1);
                assert(digits_val(t) > u64::MAX);
            }
            return None;
        }
        proof {
            let pv = acc as int;
            assert(10 * pv + d <= u64::MAX) by (nonlinear_arith)
                requires
                    pv <= (u64::MAX - d) / 10,
                    0 <= d <= 9,
                    pv >= 0,
            {
            }
            assert(t.take(i - start + 1).drop_last() =~= t.take(i - start));
        }
        acc = acc * 10 + (d as u64);
        i += 1;
    }
    proof {
        assert(t.take(n - start) =~= t);
    }
    Some(acc)
}

/// Parses an unsigned decimal field into 16 bits.
pub fn parse_u16_text(s: &str) -> (r: Option<u16>)
    ensures
        r == spec_parse_u16(s@),
{
    match parse_u64_text(s) {
        Some(v) => {
            if v <= 65535 {
                Some(v as u16)
            } else {
                None
            }
        },
        None => None,
    }
}

} // verus!
