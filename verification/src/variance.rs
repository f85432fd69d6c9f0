//! Running variance over a stream of exact rational values.
//!
//! The accumulator owns a `MeanIncrementor` and combines its own
//! recurrence with the mean's statistics: with `n` values already absorbed
//! and pre-update mean `m`, adding `v` rescales the old variance by
//! `(n-1)/n` and adds `(v - m)^2 / (n+1)`. The stored variance is exactly
//! `var_spec` of the sequence absorbed so far.

use vstd::prelude::*;
use crate::frac::Frac;
use crate::frac::Ratio;
use crate::frac::fzero;
use crate::frac::fadd;
use crate::frac::fsub;
use crate::frac::fmul;
use crate::frac::i128_ok;
use crate::mean::MeanIncrementor;
use crate::mean::mean_spec;
use crate::mean::mean_add_in_range;

verus! {

/// The exact value of the incremental-variance recurrence on the values
/// `s`: zero while at most one value was absorbed; each later value `v`,
/// arriving when `n` values were already absorbed with pre-update mean
/// `m`, turns the variance `p` into `(n-1)/n * p + (v - m)^2 / (n+1)`.
pub open spec fn var_spec(s: Seq<Frac>) -> Frac
    decreases s.len(),
{
    if s.len() <= 1 {
        fzero()
    } else {
        let n = s.len() as int - 1;
        let v = s.last();
        let pm = mean_spec(s.drop_last());
        let pv = var_spec(s.drop_last());
        let d = fsub(v, pm);
        let dd = fmul(d, d);
        let t1 = Frac { num: (n - 1) * pv.num, den: n * pv.den };
        let t2 = Frac { num: dd.num, den: dd.den * (n + 1) };
        fadd(t1, t2)
    }
}

/// Machine limits for one more addition: the exact numerator and
/// denominator of the updated variance, and each intermediate product,
/// fit in an `i128`; likewise for the owned mean's update.
pub open spec fn var_add_in_range(s: Seq<Frac>, v: Frac) -> bool {
    &&& mean_add_in_range(s, v)
    &&& (s.len() == 0 || {
        let n = s.len() as int;
        let pm = mean_spec(s);
        let pv = var_spec(s);
        let dnum = v.num * pm.den - pm.num * v.den;
        let dden = v.den * pm.den;
        &&& i128_ok(v.num * pm.den)
        &&& i128_ok(pm.num * v.den)
        &&& i128_ok(dnum)
        &&& i128_ok(dden)
        &&& i128_ok(dnum * dnum)
        &&& i128_ok(dden * dden)
        &&& i128_ok((n - 1) * pv.num)
        &&& i128_ok(n * pv.den)
        &&& i128_ok(dden * dden * (n + 1))
        &&& i128_ok((n - 1) * pv.num * (dden * dden * (n + 1)))
        &&& i128_ok(dnum * dnum * (n * pv.den))
        &&& i128_ok((n - 1) * pv.num * (dden * dden * (n + 1)) + dnum * dnum * (n * pv.den))
        &&& i128_ok(n * pv.den * (dden * dden * (n + 1)))
    })
}

/// Stores a variance and the state needed to update it with additional
/// values, an owned mean accumulator included.
#[derive(Copy, Clone)]
pub struct VarianceIncrementor {
    pub variance: Ratio,
    pub mean_incrementor: MeanIncrementor,
}

impl View for VarianceIncrementor {
    type V = Seq<Frac>;

    open spec fn view(&self) -> Seq<Frac> {
        self.mean_incrementor@
    }
}

impl VarianceIncrementor {
    /// The owned mean accumulator is well formed and the stored variance
    /// is exactly the recurrence's value on the values absorbed so far.
    pub open spec fn wf(self) -> bool {
        &&& self.mean_incrementor.wf()
        &&& self.variance@ == var_spec(self.mean_incrementor@)
        &&& self.variance.den > 0
    }

    /// Construct the zero state with a fresh owned mean accumulator.
    pub fn new() -> (r: VarianceIncrementor)
        ensures
            r.wf(),
            r@ == Seq::<Frac>::empty(),
    {
        VarianceIncrementor {
            variance: Ratio { num: 0, den: 1 },
            mean_incrementor: MeanIncrementor::new(),
        }
    }

    /// Update the variance and the owned mean with another value. The
    /// recurrence reads the mean and count as they were before the mean
    /// absorbs the value.
    pub fn add(&mut self, value: Ratio)
        requires
            old(self).wf(),
            value.wf(),
            var_add_in_range(old(self)@, value@),
        ensures
            final(self).wf(),
            final(self)@ == old(self)@.push(value@),
    {
        let ghost old_seq = self.mean_incrementor@;
        let n32 = self.mean_incrementor.count();
        let previous_mean = self.mean_incrementor.mean();
        self.mean_incrementor.add(value);
        if n32 == 0 {
            self.variance = Ratio { num: 0, den: 1 };
        } else {
            let n: i128 = n32 as i128;
            let dnum: i128 = value.num * previous_mean.den - previous_mean.num * value.den;
            let dden: i128 = value.den * previous_mean.den;
            let sqnum: i128 = dnum * dnum;
            let sqden: i128 = dden * dden;
            let t1num: i128 = (n - 1) * self.variance.num;
            let t1den: i128 = n * self.variance.den;
            let t2den: i128 = sqden * (n + 1);
            let vnum: i128 = t1num * t2den + sqnum * t1den;
            let vden: i128 = t1den * t2den;
            self.variance = Ratio { num: vnum, den: vden };
        }
        proof {
            assert(self.mean_incrementor@.drop_last() =~= old_seq);
            if old_seq.len() == 0 {
                assert(self.variance@ == var_spec(self.mean_incrementor@));
            } else {
                let n = old_seq.len() as int;
                let pm = mean_spec(old_seq);
                let pv = var_spec(old_seq);
                let dd = fmul(fsub(value@, pm), fsub(value@, pm));
                assert(self.variance.den as int > 0) by (nonlinear_arith)
                    requires
                        self.variance.den as int == n * pv.den * (dd.den * (n + 1)),
                        self.variance.den as int == n * pv.den * ((value@.den * pm.den) * (
                        value@.den * pm.den) * (n + 1)),
                        pv.den > 0,
                        pm.den > 0,
                        value@.den > 0,
                        n >= 1,
                ;
                assert(self.variance@ == var_spec(self.mean_incrementor@));
            }
        }
    }

    /// The current variance: `0` while at most one value was absorbed,
    /// else the exact value of the incremental-variance recurrence on the
    /// values absorbed so far.
    pub fn variance(&self) -> (r: Ratio)
        requires
            self.wf(),
        ensures
            r.wf(),
            r@ == var_spec(self@),
    {
        self.variance
    }

    /// The current mean, delegated to the owned mean accumulator.
    pub fn mean(&self) -> (r: Ratio)
        requires
            self.wf(),
        ensures
            r.wf(),
            r@ == mean_spec(self@),
    {
        self.mean_incrementor.mean()
    }

    /// The number of values absorbed so far, delegated to the owned mean
    /// accumulator.
    pub fn count(&self) -> (r: u32)
        requires
            self.wf(),
        ensures
            r as int == self@.len(),
    {
        self.mean_incrementor.count()
    }
}

} // verus!
