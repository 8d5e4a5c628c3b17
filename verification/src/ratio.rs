//! Ratios between zero and one, held as exact fractions of integers.

use vstd::prelude::*;

verus! {

/// The quotient `a / b` rounded up to a whole number.
pub open spec fn ceil_div(a: int, b: int) -> int
    recommends
        b > 0,
{
    (a + b - 1) / b
}

/// `ceil_div(a, b)` is the least integer `q` with `q * b >= a`.
pub proof fn lemma_ceil_div(a: int, b: int)
    requires
        0 <= a,
        0 < b,
    ensures
        ceil_div(a, b) * b >= a,
        (ceil_div(a, b) - 1) * b < a,
        0 <= ceil_div(a, b),
        a == 0 <==> ceil_div(a, b) == 0,
{
    let x = a + b - 1;
    let q = x / b;
    vstd::arithmetic::div_mod::lemma_fundamental_div_mod(x, b);
    vstd::arithmetic::div_mod::lemma_mod_bound(x, b);
    vstd::arithmetic::div_mod::lemma_div_pos_is_pos(x, b);
    assert(x == b * q + x % b);
    assert(b * q == q * b) by (nonlinear_arith);
    assert((q - 1) * b == q * b - b) by (nonlinear_arith);
    if a == 0 {
        assert(q <= 0) by (nonlinear_arith)
            requires
                (q - 1) * b < 0,
                0 < b,
        ;
    } else {
        assert(q >= 1) by (nonlinear_arith)
            requires
                q * b >= a,
                a > 0,
                0 < b,
        ;
    }
}

/// Rounding up keeps the order of the dividends.
pub proof fn lemma_ceil_div_monotonic(a: int, b: int, d: int)
    requires
        a <= b,
        0 < d,
    ensures
        ceil_div(a, d) <= ceil_div(b, d),
{
    vstd::arithmetic::div_mod::lemma_div_is_ordered(a + d - 1, b + d - 1, d);
}

/// A fraction `num / den` with `0 <= num <= den` and `den > 0`.
///
/// Every gauge of the dashboard is driven by such a value: a busy share of a
/// core, a used share of memory, a throughput scaled to the gauge's range.
#[derive(Clone, Copy, Debug)]
pub struct Ratio {
    num: u64,
    den: u64,
}

impl View for Ratio {
    type V = (nat, nat);

    /// The numerator and the denominator.
    closed spec fn view(&self) -> (nat, nat) {
        (self.num as nat, self.den as nat)
    }
}

impl Ratio {
    /// What holds of every `Ratio`: it lies between zero and one.
    #[verifier::type_invariant]
    pub open spec fn wf(self) -> bool {
        0 < self@.1 && self@.0 <= self@.1 && self@.1 <= u64::MAX
    }

    /// Builds `num / den`, or nothing where that is no ratio between zero and one.
    pub fn new(num: u64, den: u64) -> (r: Option<Ratio>)
        ensures
            r is Some <==> 0 < den && num <= den,
            r matches Some(x) ==> x@ == (num as nat, den as nat) && x.wf(),
    {
        if den > 0 && num <= den {
            Some(Ratio { num, den })
        } else {
            None
        }
    }

    /// The ratio zero.
    pub fn zero() -> (r: Ratio)
        ensures
            r@ == (0nat, 1nat),
            r.wf(),
    {
        Ratio { num: 0, den: 1 }
    }

    /// The ratio one.
    pub fn one() -> (r: Ratio)
        ensures
            r@ == (1nat, 1nat),
            r.wf(),
    {
        Ratio { num: 1, den: 1 }
    }

    /// The numerator.
    pub fn num(&self) -> (n: u64)
        ensures
            n == self@.0,
            self.wf(),
    {
        proof {
            use_type_invariant(self);
        }
        self.num
    }

    /// The denominator.
    pub fn den(&self) -> (d: u64)
        ensures
            d == self@.1,
            self.wf(),
    {
        proof {
            use_type_invariant(self);
        }
        self.den
    }
}

} // verus!
