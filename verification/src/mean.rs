//! Exact averages.
//!
//! An average is kept as the sum of its samples and their number, so that no
//! precision is lost before a value is shown. Rounding to two decimal places
//! happens in one place, [`Mean::rounded_hundredths`], which works on the
//! exact quotient.

use vstd::prelude::*;

verus! {

/// `num / den` rounded to the nearest integer, a tie going away from zero.
pub open spec fn round_half_away(num: int, den: int) -> int
    recommends
        den > 0,
{
    if num >= 0 {
        (2 * num + den) / (2 * den)
    } else {
        -((2 * (-num) + den) / (2 * den))
    }
}

/// The average of a non-empty collection of `i64` samples: their exact sum
/// and how many there were.
#[derive(Clone, Copy, Debug, PartialEq, Eq)]
pub struct Mean {
    sum: i128,
    count: u64,
}

impl Mean {
    /// A sum of `count` values of type `i64`: there is at least one, and the
    /// sum is within what that many values can reach.
    pub open spec fn is_sum_of(sum: int, count: int) -> bool {
        &&& count > 0
        &&& -(count * 0x8000_0000_0000_0000) <= sum <= count * 0x7fff_ffff_ffff_ffff
    }

    #[verifier::type_invariant]
    spec fn inv(self) -> bool {
        Self::is_sum_of(self.sum as int, self.count as int)
    }

    /// Sum of the samples.
    pub closed spec fn total(self) -> int {
        self.sum as int
    }

    /// Number of samples.
    pub closed spec fn samples(self) -> int {
        self.count as int
    }

    /// The mean of `count` samples that add up to `sum`, or `None` where no
    /// `count` values of type `i64` have that sum.
    pub fn new(sum: i128, count: u64) -> (r: Option<Mean>)
        ensures
            r is Some <==> Self::is_sum_of(sum as int, count as int),
            r matches Some(m) ==> m.total() == sum && m.samples() == count,
    {
        if count == 0 {
            return None;
        }
        let c: i128 = count as i128;
        if sum < -(c * 0x8000_0000_0000_0000) || sum > c * 0x7fff_ffff_ffff_ffff {
            return None;
        }
        Some(Mean { sum, count })
    }

    /// The mean of `count` samples that add up to `sum`.
    pub(crate) fn from_parts(sum: i128, count: u64) -> (m: Mean)
        requires
            Self::is_sum_of(sum as int, count as int),
        ensures
            m.total() == sum,
            m.samples() == count,
    {
        Mean { sum, count }
    }

    /// Two means of the same sum over the same number of samples are one value.
    pub proof fn lemma_equal_by_parts(a: Mean, b: Mean)
        requires
            a.total() == b.total(),
            a.samples() == b.samples(),
        ensures
            a == b,
    {
    }

    /// Sum of the samples.
    pub fn sum(&self) -> (r: i128)
        ensures
            r == self.total(),
            Self::is_sum_of(self.total(), self.samples()),
    {
        proof {
            use_type_invariant(self);
        }
        self.sum
    }

    /// Number of samples, never zero.
    pub fn count(&self) -> (r: u64)
        ensures
            r == self.samples(),
            r > 0,
    {
        proof {
            use_type_invariant(self);
        }
        self.count
    }

    /// The mean scaled down by ten and rounded to the nearest integer, a tie
    /// going away from zero. For samples in thousandths this is the mean in
    /// hundredths: the value with two decimal places.
    pub fn rounded_hundredths(&self) -> (r: i64)
        ensures
            r == round_half_away(self.total(), 10 * self.samples()),
    {
        proof {
            use_type_invariant(self);
        }
        let negative: bool = self.sum < 0;
        let mag: u128 = if negative {
            ((-(self.sum + 1)) as u128) + 1
        } else {
            self.sum as u128
        };
        let den: u128 = 10 * (self.count as u128);
        let q: u128 = mag / den;
        let rem: u128 = mag % den;
        let up: u128 = if 2 * rem >= den {
            1
        } else {
            0
        };
        proof {
            lemma_round_by_parts(mag as int, den as int, q as int, rem as int, up as int);
            lemma_quotient_bound(mag as int, self.count as int, q as int);
        }
        let nearest: u128 = q + up;
        if negative {
            -(nearest as i64)
        } else {
            nearest as i64
        }
    }
}

/// Rounding a non-negative quotient from its truncated quotient and remainder.
proof fn lemma_round_by_parts(mag: int, den: int, q: int, rem: int, up: int)
    requires
        mag >= 0,
        den > 0,
        q == mag / den,
        rem == mag % den,
        up == (if 2 * rem >= den { 1int } else { 0int }),
    ensures
        q + up == (2 * mag + den) / (2 * den),
{
    vstd::arithmetic::div_mod::lemma_fundamental_div_mod(mag, den);
    vstd::arithmetic::div_mod::lemma_mod_bound(mag, den);
    let r2 = if up == 1 { 2 * rem - den } else { 2 * rem + den };
    assert(2 * mag + den == (q + up) * (2 * den) + r2) by (nonlinear_arith)
        requires
            mag == den * q + rem,
            up == 0 || up == 1,
            r2 == (if up == 1 { 2 * rem - den } else { 2 * rem + den }),
    ;
    vstd::arithmetic::div_mod::lemma_fundamental_div_mod_converse(
        2 * mag + den,
        2 * den,
        q + up,
        r2,
    );
}

/// The truncated quotient of a sum of `count` samples by `10 * count` is far
/// below the top of `i64`.
proof fn lemma_quotient_bound(mag: int, count: int, q: int)
    requires
        count > 0,
        0 <= mag <= count * 0x8000_0000_0000_0000,
        q == mag / (10 * count),
    ensures
        0 <= q <= 0x0ccc_cccc_cccc_cccc,
{
    let den = 10 * count;
    vstd::arithmetic::div_mod::lemma_fundamental_div_mod(mag, den);
    vstd::arithmetic::div_mod::lemma_mod_bound(mag, den);
    assert(0 <= q <= 0x0ccc_cccc_cccc_cccc) by (nonlinear_arith)
        requires
            count > 0,
            den == 10 * count,
            mag == den * q + mag % den,
            0 <= mag % den < den,
            0 <= mag <= count * 0x8000_0000_0000_0000,
    ;
}

/// The rounded value is the integer nearest to the quotient: twice its
/// distance from `num / den`, measured in units of `1 / den`, is at most `den`.
pub proof fn lemma_round_is_nearest(num: int, den: int)
    requires
        den > 0,
    ensures
        -den <= 2 * (round_half_away(num, den) * den - num) <= den,
        num >= 0 ==> round_half_away(num, den) >= 0,
        num <= 0 ==> round_half_away(num, den) <= 0,
        round_half_away(-num, den) == -round_half_away(num, den),
{
    let a = if num >= 0 { num } else { -num };
    let x = 2 * a + den;
    let d = 2 * den;
    let q = x / d;
    vstd::arithmetic::div_mod::lemma_fundamental_div_mod(x, d);
    vstd::arithmetic::div_mod::lemma_mod_bound(x, d);
    assert(q >= 0 && -den <= 2 * (q * den - a) <= den) by (nonlinear_arith)
        requires
            x == d * q + x % d,
            0 <= x % d < d,
            x == 2 * a + den,
            d == 2 * den,
            a >= 0,
            den > 0,
    ;
    let r = round_half_away(num, den);
    if num >= 0 {
        assert(r == q);
    } else {
        assert(r == -q);
        assert(r * den == -(q * den)) by (nonlinear_arith)
            requires
                r == -q,
        ;
    }
    let opposite = round_half_away(-num, den);
    if num == 0 {
        vstd::arithmetic::div_mod::lemma_fundamental_div_mod_converse(den, 2 * den, 0, den);
    } else if num > 0 {
        assert(opposite == -q);
    } else if num < 0 {
        assert(opposite == q);
    }
}

} // verus!
