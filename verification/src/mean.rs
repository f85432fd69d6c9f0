//! Running arithmetic mean over a stream of exact rational values.
//!
//! The accumulator keeps only the current mean and the count. Its abstract
//! state (the view) is the sequence of values absorbed so far, and the
//! stored mean is exactly `mean_spec` of that sequence: the fraction the
//! online-mean recurrence produces when evaluated in exact arithmetic.

use vstd::prelude::*;
use crate::frac::Frac;
use crate::frac::Ratio;
use crate::frac::fzero;
use crate::frac::wf_seq;
use crate::frac::i128_ok;

verus! {

/// The exact value of the online-mean recurrence on the values `s`:
/// the first value defines the mean; each later value `v`, arriving when
/// `n` values were already absorbed, blends the old mean with weight
/// `n/(n+1)` and `v` with weight `1/(n+1)`.
pub open spec fn mean_spec(s: Seq<Frac>) -> Frac
    decreases s.len(),
{
    if s.len() == 0 {
        fzero()
    } else if s.len() == 1 {
        s[0]
    } else {
        let prev = mean_spec(s.drop_last());
        let n = s.len() as int - 1;
        let v = s.last();
        Frac {
            num: prev.num * n * v.den + v.num * prev.den,
            den: prev.den * (n + 1) * v.den,
        }
    }
}

/// Machine limits for one more addition: the exact numerator and
/// denominator of the updated mean, and each intermediate product, fit in
/// an `i128`, and the count fits in a `u32`.
pub open spec fn mean_add_in_range(s: Seq<Frac>, v: Frac) -> bool {
    &&& s.len() + 1 <= u32::MAX as nat
    &&& (s.len() == 0 || {
        let n = s.len() as int;
        let m = mean_spec(s);
        &&& i128_ok(m.num * n)
        &&& i128_ok(m.num * n * v.den)
        &&& i128_ok(v.num * m.den)
        &&& i128_ok(m.num * n * v.den + v.num * m.den)
        &&& i128_ok(m.den * (n + 1))
        &&& i128_ok(m.den * (n + 1) * v.den)
    })
}

/// Stores a mean and the state needed to update it with additional values.
#[derive(Copy, Clone)]
pub struct MeanIncrementor {
    pub mean: Ratio,
    pub count: u32,
    pub values: Ghost<Seq<Frac>>,
}

impl View for MeanIncrementor {
    type V = Seq<Frac>;

    open spec fn view(&self) -> Seq<Frac> {
        self.values@
    }
}

impl MeanIncrementor {
    /// The count matches the number of values absorbed, every absorbed
    /// value is a well-formed fraction, and the stored mean is exactly the
    /// recurrence's value on those values.
    pub open spec fn wf(self) -> bool {
        &&& self.count as int == self.values@.len()
        &&& wf_seq(self.values@)
        &&& self.mean@ == mean_spec(self.values@)
        &&& self.mean.den > 0
    }

    /// Construct the zero state: mean `0`, count `0`, nothing absorbed.
    pub fn new() -> (r: MeanIncrementor)
        ensures
            r.wf(),
            r@ == Seq::<Frac>::empty(),
    {
        MeanIncrementor { mean: Ratio { num: 0, den: 1 }, count: 0, values: Ghost(Seq::empty()) }
    }

    /// Update the mean with another value whose weight is determined by the
    /// number of previously added values.
    pub fn add(&mut self, value: Ratio)
        requires
            old(self).wf(),
            value.wf(),
            mean_add_in_range(old(self)@, value@),
        ensures
            final(self).wf(),
            final(self)@ == old(self)@.push(value@),
    {
        let ghost old_seq = self.values@;
        if self.count == 0 {
            self.mean = value;
        } else {
            let n: i128 = self.count as i128;
            let t1: i128 = self.mean.num * n;
            let t2: i128 = t1 * value.den;
            let t3: i128 = value.num * self.mean.den;
            let num: i128 = t2 + t3;
            let d1: i128 = self.mean.den * (n + 1);
            let den: i128 = d1 * value.den;
            self.mean = Ratio { num, den };
        }
        self.count = self.count + 1;
        self.values = Ghost(old_seq.push(value@));
        proof {
            assert(self.values@.drop_last() =~= old_seq);
            if old_seq.len() == 0 {
                assert(self.mean@ == mean_spec(self.values@));
            } else {
                assert(self.mean.den as int > 0) by (nonlinear_arith)
                    requires
                        self.mean.den as int == mean_spec(old_seq).den * (old_seq.len() as int + 1)
                            * (value.den as int),
                        mean_spec(old_seq).den > 0,
                        old_seq.len() as int >= 1,
                        value.den > 0,
                ;
                assert(self.mean@ == mean_spec(self.values@));
            }
            assert forall|i: int| 0 <= i < self.values@.len() implies (
            #[trigger] self.values@[i]).den > 0 by {
                if i < old_seq.len() {
                    assert(self.values@[i] == old_seq[i]);
                }
            }
        }
    }

    /// The current mean: `0` before any value is added, else the exact
    /// value of the online-mean recurrence on the values absorbed so far.
    pub fn mean(&self) -> (r: Ratio)
        requires
            self.wf(),
        ensures
            r.wf(),
            r@ == mean_spec(self@),
    {
        self.mean
    }

    /// The number of values absorbed so far.
    pub fn count(&self) -> (r: u32)
        requires
            self.wf(),
        ensures
            r as int == self@.len(),
    {
        self.count
    }
}

} // verus!
