//! Exact rational values.
//!
//! The mathematical model of a scalar is `Frac`, a ghost pair of integers
//! with a positive denominator. The executable counterpart is `Ratio`, a
//! pair of `i128`. Two fractions are equal as numbers when they agree under
//! cross multiplication (`feq`); the representation is never normalised, so
//! structural equality of pairs is finer than numeric equality.

use vstd::prelude::*;

verus! {

/// Mathematical (ghost) fraction: `num / den`.
pub struct Frac {
    pub num: int,
    pub den: int,
}

/// The fraction zero.
pub open spec fn fzero() -> Frac {
    Frac { num: 0, den: 1 }
}

/// The integer `n` as a fraction.
pub open spec fn fint(n: int) -> Frac {
    Frac { num: n, den: 1 }
}

/// Sum of two fractions.
pub open spec fn fadd(a: Frac, b: Frac) -> Frac {
    Frac { num: a.num * b.den + b.num * a.den, den: a.den * b.den }
}

/// Difference of two fractions.
pub open spec fn fsub(a: Frac, b: Frac) -> Frac {
    Frac { num: a.num * b.den - b.num * a.den, den: a.den * b.den }
}

/// Product of two fractions.
pub open spec fn fmul(a: Frac, b: Frac) -> Frac {
    Frac { num: a.num * b.num, den: a.den * b.den }
}

/// Numeric equality of fractions, by cross multiplication.
/// Meaningful only when both denominators are nonzero.
pub open spec fn feq(a: Frac, b: Frac) -> bool {
    a.num * b.den == b.num * a.den
}

/// Every fraction in the sequence has a positive denominator.
pub open spec fn wf_seq(s: Seq<Frac>) -> bool {
    forall|i: int| 0 <= i < s.len() ==> (#[trigger] s[i]).den > 0
}

/// `x` fits in an `i128`.
pub open spec fn i128_ok(x: int) -> bool {
    i128::MIN as int <= x && x <= i128::MAX as int
}

/// `feq` is transitive when the middle fraction's denominator is nonzero.
pub proof fn lemma_feq_trans(a: Frac, b: Frac, c: Frac)
    requires
        feq(a, b),
        feq(b, c),
        b.den != 0,
    ensures
        feq(a, c),
{
    assert((a.num * b.den) * c.den == (b.num * a.den) * c.den);
    assert((a.num * b.den) * c.den == (a.num * c.den) * b.den) by (nonlinear_arith);
    assert((b.num * a.den) * c.den == (b.num * c.den) * a.den) by (nonlinear_arith);
    assert((b.num * c.den) * a.den == (c.num * b.den) * a.den);
    assert((c.num * b.den) * a.den == (c.num * a.den) * b.den) by (nonlinear_arith);
    assert(a.num * c.den == c.num * a.den) by (nonlinear_arith)
        requires
            (a.num * c.den) * b.den == (c.num * a.den) * b.den,
            b.den != 0,
    ;
}

/// `fadd` respects `feq` in both arguments.
pub proof fn lemma_fadd_cong(a: Frac, a2: Frac, b: Frac, b2: Frac)
    requires
        feq(a, a2),
        feq(b, b2),
    ensures
        feq(fadd(a, b), fadd(a2, b2)),
{
    let x1 = a.num * b.den;
    let x2 = b.num * a.den;
    let y1 = a2.num * b2.den;
    let y2 = b2.num * a2.den;
    let za = a2.den * b2.den;
    let zb = a.den * b.den;
    assert((x1 + x2) * za == x1 * za + x2 * za) by (nonlinear_arith);
    assert((y1 + y2) * zb == y1 * zb + y2 * zb) by (nonlinear_arith);
    assert((a.num * b.den) * (a2.den * b2.den) == (a.num * a2.den) * (b.den * b2.den))
        by (nonlinear_arith);
    assert((a.num * a2.den) * (b.den * b2.den) == (a2.num * a.den) * (b.den * b2.den));
    assert((a2.num * a.den) * (b.den * b2.den) == (a2.num * b2.den) * (a.den * b.den))
        by (nonlinear_arith);
    assert((b.num * a.den) * (a2.den * b2.den) == (b.num * b2.den) * (a.den * a2.den))
        by (nonlinear_arith);
    assert((b.num * b2.den) * (a.den * a2.den) == (b2.num * b.den) * (a.den * a2.den));
    assert((b2.num * b.den) * (a.den * a2.den) == (b2.num * a2.den) * (a.den * b.den))
        by (nonlinear_arith);
}

/// `fsub` respects `feq` in both arguments.
pub proof fn lemma_fsub_cong(a: Frac, a2: Frac, b: Frac, b2: Frac)
    requires
        feq(a, a2),
        feq(b, b2),
    ensures
        feq(fsub(a, b), fsub(a2, b2)),
{
    let x1 = a.num * b.den;
    let x2 = b.num * a.den;
    let y1 = a2.num * b2.den;
    let y2 = b2.num * a2.den;
    let za = a2.den * b2.den;
    let zb = a.den * b.den;
    assert((x1 - x2) * za == x1 * za - x2 * za) by (nonlinear_arith);
    assert((y1 - y2) * zb == y1 * zb - y2 * zb) by (nonlinear_arith);
    assert((a.num * b.den) * (a2.den * b2.den) == (a.num * a2.den) * (b.den * b2.den))
        by (nonlinear_arith);
    assert((a.num * a2.den) * (b.den * b2.den) == (a2.num * a.den) * (b.den * b2.den));
    assert((a2.num * a.den) * (b.den * b2.den) == (a2.num * b2.den) * (a.den * b.den))
        by (nonlinear_arith);
    assert((b.num * a.den) * (a2.den * b2.den) == (b.num * b2.den) * (a.den * a2.den))
        by (nonlinear_arith);
    assert((b.num * b2.den) * (a.den * a2.den) == (b2.num * b.den) * (a.den * a2.den));
    assert((b2.num * b.den) * (a.den * a2.den) == (b2.num * a2.den) * (a.den * b.den))
        by (nonlinear_arith);
}

/// `fmul` respects `feq` in both arguments.
pub proof fn lemma_fmul_cong(a: Frac, a2: Frac, b: Frac, b2: Frac)
    requires
        feq(a, a2),
        feq(b, b2),
    ensures
        feq(fmul(a, b), fmul(a2, b2)),
{
    assert((a.num * b.num) * (a2.den * b2.den) == (a.num * a2.den) * (b.num * b2.den))
        by (nonlinear_arith);
    assert((a.num * a2.den) * (b.num * b2.den) == (a2.num * a.den) * (b2.num * b.den));
    assert((a2.num * a.den) * (b2.num * b.den) == (a2.num * b2.num) * (a.den * b.den))
        by (nonlinear_arith);
}

/// Scaling the numerator by `k` and the denominator by `m` respects `feq`.
pub proof fn lemma_scale_cong(k: int, m: int, a: Frac, b: Frac)
    requires
        feq(a, b),
    ensures
        feq((Frac { num: k * a.num, den: m * a.den }), (Frac { num: k * b.num, den: m * b.den })),
{
    assert((k * a.num) * (m * b.den) == (k * m) * (a.num * b.den)) by (nonlinear_arith);
    assert((k * m) * (a.num * b.den) == (k * m) * (b.num * a.den));
    assert((k * m) * (b.num * a.den) == (k * b.num) * (m * a.den)) by (nonlinear_arith);
}

/// Executable exact fraction: `num / den` with `den > 0`.
#[derive(Copy, Clone)]
pub struct Ratio {
    pub num: i128,
    pub den: i128,
}

impl View for Ratio {
    type V = Frac;

    open spec fn view(&self) -> Frac {
        Frac { num: self.num as int, den: self.den as int }
    }
}

impl Ratio {
    /// The denominator is positive.
    pub open spec fn wf(self) -> bool {
        self.den > 0
    }

    /// Build the fraction `num / den`.
    pub fn new(num: i64, den: i64) -> (r: Ratio)
        requires
            den > 0,
        ensures
            r.wf(),
            r@ == (Frac { num: num as int, den: den as int }),
    {
        Ratio { num: num as i128, den: den as i128 }
    }

    /// The integer `v` as a fraction.
    pub fn from_int(v: i64) -> (r: Ratio)
        ensures
            r.wf(),
            r@ == fint(v as int),
    {
        Ratio { num: v as i128, den: 1 }
    }

    /// Numeric equality test, by cross multiplication.
    pub fn eq_frac(&self, other: &Ratio) -> (r: bool)
        requires
            self.wf(),
            other.wf(),
            i128_ok(self.num * other.den),
            i128_ok(other.num * self.den),
        ensures
            r == feq(self@, other@),
    {
        self.num * other.den == other.num * self.den
    }
}

} // verus!
