//! An exponentially weighted moving average over integer samples.
//!
//! The smoothing factor is a rational `alpha_num / alpha_den` in
//! (0, 1]; each observation moves the value by that fraction of the
//! distance to the sample, rounding down. Used for round-trip times in
//! milliseconds, where integer precision is plenty.

use vstd::prelude::*;

verus! {

/// A smoothed value together with its rational smoothing factor.
#[derive(Debug, Clone, Copy, PartialEq, Eq, Structural)]
pub struct Ewma {
    alpha_num: u32,
    alpha_den: u32,
    value: u32,
}

impl Ewma {
    /// The current smoothed value.
    pub closed spec fn spec_value(self) -> u32 {
        self.value
    }

    /// The numerator of the smoothing factor.
    pub closed spec fn spec_alpha_num(self) -> u32 {
        self.alpha_num
    }

    /// The denominator of the smoothing factor.
    pub closed spec fn spec_alpha_den(self) -> u32 {
        self.alpha_den
    }

    /// The smoothing factor is a fraction in (0, 1].
    pub open spec fn wf(self) -> bool {
        0 < self.spec_alpha_num() <= self.spec_alpha_den()
    }

    /// The value after one sample folded into a fresh default average:
    /// one tenth of the sample, rounded down.
    pub open spec fn spec_default_observed(x: u32) -> int {
        (x as int) / 10
    }

    /// What one observation of `x` moves the value to:
    /// `alpha * x + (1 - alpha) * value`, rounded down.
    pub open spec fn spec_observed(self, x: u32) -> int {
        (self.spec_alpha_num() * x + (self.spec_alpha_den() - self.spec_alpha_num())
            * self.spec_value()) / self.spec_alpha_den() as int
    }

    pub fn new(alpha_num: u32, alpha_den: u32) -> (r: Self)
        requires
            0 < alpha_num <= alpha_den,
        ensures
            r.wf(),
            r.spec_value() == 0,
            r.spec_alpha_num() == alpha_num,
            r.spec_alpha_den() == alpha_den,
    {
        Ewma { alpha_num, alpha_den, value: 0 }
    }

    pub fn new_with_value(alpha_num: u32, alpha_den: u32, value: u32) -> (r: Self)
        requires
            0 < alpha_num <= alpha_den,
        ensures
            r.wf(),
            r.spec_value() == value,
            r.spec_alpha_num() == alpha_num,
            r.spec_alpha_den() == alpha_den,
    {
        Ewma { alpha_num, alpha_den, value }
    }

    /// A fresh average with the same smoothing factor, started at
    /// `value`.
    pub fn with_value(&self, value: u32) -> (r: Self)
        requires
            self.wf(),
        ensures
            r.wf(),
            r.spec_value() == value,
            r.spec_alpha_num() == self.spec_alpha_num(),
            r.spec_alpha_den() == self.spec_alpha_den(),
    {
        Ewma { alpha_num: self.alpha_num, alpha_den: self.alpha_den, value }
    }

    /// Fold one sample into the average.
    pub fn observe(&mut self, x: u32)
        requires
            old(self).wf(),
        ensures
            final(self).wf(),
            final(self).spec_value() == old(self).spec_observed(x),
            final(self).spec_alpha_num() == old(self).spec_alpha_num(),
            final(self).spec_alpha_den() == old(self).spec_alpha_den(),
    {
        let num = self.alpha_num as u64;
        let den = self.alpha_den as u64;
        proof {
            assert((num as int) * (x as int) + ((den - num) as int) * (self.value as int) <= (
            den as int) * (u32::MAX as int)) by (nonlinear_arith)
                requires
                    0 < num <= den,
                    x <= u32::MAX,
                    self.value <= u32::MAX,
            ;
            assert((den as int) * (u32::MAX as int) <= (u32::MAX as int) * (u32::MAX as int))
                by (nonlinear_arith)
                requires
                    den <= u32::MAX,
            ;
        }
        let mixed = (num * (x as u64) + (den - num) * (self.value as u64)) / den;
        proof {
            let mixv = num * (x as u64) + (den - num) * (self.value as u64);
            assert((mixv as int) / (den as int) <= u32::MAX) by (nonlinear_arith)
                requires
                    0 < den,
                    mixv <= (den as int) * (u32::MAX as int),
            ;
        }
        self.value = mixed as u32;
    }

    /// Replace the value outright.
    pub fn set(&mut self, x: u32)
        ensures
            final(self).spec_value() == x,
            final(self).spec_alpha_num() == old(self).spec_alpha_num(),
            final(self).spec_alpha_den() == old(self).spec_alpha_den(),
    {
        self.value = x;
    }

    /// Replace the smoothing factor.
    pub fn set_exp(&mut self, alpha_num: u32, alpha_den: u32)
        requires
            0 < alpha_num <= alpha_den,
        ensures
            final(self).wf(),
            final(self).spec_value() == old(self).spec_value(),
            final(self).spec_alpha_num() == alpha_num,
            final(self).spec_alpha_den() == alpha_den,
    {
        self.alpha_num = alpha_num;
        self.alpha_den = alpha_den;
    }

    /// The current smoothed value.
    pub fn value(&self) -> (r: u32)
        ensures
            r == self.spec_value(),
    {
        self.value
    }
}

impl Default for Ewma {
    /// The default smoothing factor is one tenth, starting from zero.
    fn default() -> (r: Self)
        ensures
            r.wf(),
            r.spec_value() == 0,
            r.spec_alpha_num() == 1,
            r.spec_alpha_den() == 10,
    {
        Ewma { alpha_num: 1, alpha_den: 10, value: 0 }
    }
}

} // verus!
