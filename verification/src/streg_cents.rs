//! The fixed-point money type: an integer count of minor currency units
//! ("streg-cents") with overflow-checked arithmetic and a canonical
//! two-decimal text rendering.

use vstd::prelude::*;

use crate::digits::dec_digits;
use crate::text::chars_to_string;

verus! {

/// A currency value counted in minor units (hundredths of a whole unit).
#[derive(Clone, Copy, Debug, PartialEq, Eq, Structural)]
pub struct StregCents(pub i64);

/// The magnitude of `v`.
pub open spec fn abs_of(v: int) -> nat {
    if v < 0 {
        (-v) as nat
    } else {
        v as nat
    }
}

/// The canonical text form of a cent amount `v`: the whole units (the
/// quotient by 100, truncated toward zero), a dot, and the remaining cents
/// zero-padded to two digits, each part carrying a minus sign exactly when
/// `v` is negative and the part is non-zero.
pub open spec fn streg_cents_text(v: int) -> Seq<char> {
    let whole = abs_of(v) / 100;
    let cents = abs_of(v) % 100;
    (if v < 0 && whole > 0 {
        seq!['-'] + dec_digits(whole)
    } else {
        dec_digits(whole)
    }) + seq!['.'] + (if v < 0 && cents > 0 {
        seq!['-'] + dec_digits(cents)
    } else if cents < 10 {
        seq!['0'] + dec_digits(cents)
    } else {
        dec_digits(cents)
    })
}

/// Addition, or `None` on overflow.
pub open spec fn spec_checked_add(a: StregCents, b: StregCents) -> Option<StregCents> {
    if i64::MIN <= a.0 + b.0 <= i64::MAX {
        Some(StregCents((a.0 + b.0) as i64))
    } else {
        None
    }
}

/// Subtraction, or `None` on overflow.
pub open spec fn spec_checked_sub(a: StregCents, b: StregCents) -> Option<StregCents> {
    if i64::MIN <= a.0 - b.0 <= i64::MAX {
        Some(StregCents((a.0 - b.0) as i64))
    } else {
        None
    }
}

/// Multiplication by a unit count, or `None` on overflow.
pub open spec fn spec_checked_mul(a: StregCents, n: u32) -> Option<StregCents> {
    if i64::MIN <= a.0 * n <= i64::MAX {
        Some(StregCents((a.0 * n) as i64))
    } else {
        None
    }
}

/// The sum of a sequence of checked intermediate results, folded from the
/// left starting at zero: `None` as soon as an element is `None` or a
/// running total overflows, as [`stregcents_sum`] computes it.
pub open spec fn spec_sum(s: Seq<Option<StregCents>>) -> Option<StregCents>
    decreases s.len(),
{
    if s.len() == 0 {
        Some(StregCents(0))
    } else {
        match (spec_sum(s.drop_last()), s.last()) {
            (Some(a), Some(b)) => spec_checked_add(a, b),
            _ => None,
        }
    }
}

/// Once a prefix fails to sum, the whole sequence fails to sum.
pub proof fn lemma_spec_sum_none_extends(s: Seq<Option<StregCents>>, k: int)
    requires
        0 <= k <= s.len(),
        spec_sum(s.take(k)) is None,
    ensures
        spec_sum(s) is None,
    decreases s.len() - k,
{
    if k < s.len() {
        assert(s.take(k + 1).drop_last() =~= s.take(k));
        lemma_spec_sum_none_extends(s, k + 1);
    } else {
        assert(s.take(k) =~= s);
    }
}

impl StregCents {
    /// Checked addition: `None` instead of wrapping on overflow.
    pub fn checked_add(self, rhs: StregCents) -> (r: Option<StregCents>)
        ensures
            r == spec_checked_add(self, rhs),
    {
        match self.0.checked_add(rhs.0) {
            Some(v) => Some(StregCents(v)),
            None => None,
        }
    }

    /// Checked subtraction: `None` instead of wrapping on underflow.
    pub fn checked_sub(self, rhs: StregCents) -> (r: Option<StregCents>)
        ensures
            r == spec_checked_sub(self, rhs),
    {
        match self.0.checked_sub(rhs.0) {
            Some(v) => Some(StregCents(v)),
            None => None,
        }
    }

    /// Checked multiplication by a unit count.
    pub fn checked_mul(self, rhs: u32) -> (r: Option<StregCents>)
        ensures
            r == spec_checked_mul(self, rhs),
    {
        match self.0.checked_mul(rhs as i64) {
            Some(v) => Some(StregCents(v)),
            None => None,
        }
    }

    /// The canonical two-decimal text form, e.g. 725 renders as "7.25",
    /// 800 as "8.00" and 0 as "0.00".
    pub fn to_string(&self) -> (s: String)
        ensures
            s@ == streg_cents_text(self.0 as int),
    {
        let v = self.0;
        let m: u64 = if v >= 0 {
            v as u64
        } else {
            (-(v + 1)) as u64 + 1
        };
        assert(m == abs_of(v as int));
        let whole: u64 = m / 100;
        let cents: u64 = m % 100;
        let mut out: Vec<char> = Vec::new();
        if v < 0 && whole > 0 {
            out.push('-');
        }
        let mut whole_digits = crate::digits::u64_to_dec_chars(whole);
        out.append(&mut whole_digits);
        out.push('.');
        if v < 0 && cents > 0 {
            out.push('-');
        } else if cents < 10 {
            out.push('0');
        }
        let mut cent_digits = crate::digits::u64_to_dec_chars(cents);
        out.append(&mut cent_digits);
        assert(out@ =~= streg_cents_text(v as int));
        chars_to_string(&out)
    }
}

/// Sums checked intermediate results from the left, starting at zero and
/// short-circuiting to `None` on a failed element or an overflowing total.
pub fn stregcents_sum(items: &[Option<StregCents>]) -> (r: Option<StregCents>)
    ensures
        r == spec_sum(items@),
{
    let mut acc = StregCents(0);
    let mut i: usize = 0;
    while i < items.len()
        invariant
            0 <= i <= items@.len(),
            spec_sum(items@.take(i as int)) == Some(acc),
        decreases items@.len() - i,
    {
        proof {
            assert(items@.take(i + 1).drop_last() =~= items@.take(i as int));
            assert(items@.take(i + 1).last() == items@[i as int]);
        }
        let next = match items[i] {
            Some(b) => acc.checked_add(b),
            None => None,
        };
        match next {
            Some(a) => {
                acc = a;
            }
            None => {
                proof {
                    lemma_spec_sum_none_extends(items@, i as int + 1);
                }
                return None;
            }
        }
        i = i + 1;
    }
    assert(items@.take(i as int) =~= items@);
    Some(acc)
}

} // verus!
