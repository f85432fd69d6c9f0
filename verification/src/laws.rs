//! The laws the accumulators obey, stated against batch formulas.
//!
//! The accumulators' contracts pin their state to the recurrences
//! (`mean_spec`, `var_spec`). This module relates those recurrences to
//! recompute-from-scratch formulas over the whole sequence: the mean
//! equals the arithmetic mean `sum / count`, and the variance recurrence
//! equals the corrected (divide-by-`n-1`) batch variance once two or more
//! values are in. Both statistics depend only on the multiset of values.

use vstd::prelude::*;
use vstd::seq_lib::commutative_foldl;
use vstd::seq_lib::lemma_fold_left_permutation;
use vstd::seq_lib::group_to_multiset_ensures;
use crate::frac::Frac;
use crate::frac::fzero;
use crate::frac::fadd;
use crate::frac::fsub;
use crate::frac::fmul;
use crate::frac::feq;
use crate::frac::wf_seq;
use crate::frac::lemma_feq_trans;
use crate::frac::lemma_fadd_cong;
use crate::frac::lemma_fsub_cong;
use crate::frac::lemma_fmul_cong;
use crate::frac::lemma_scale_cong;
use crate::mean::mean_spec;
use crate::variance::var_spec;

verus! {

/// The fold step that adds one value to a running sum.
pub open spec fn fadd_step() -> spec_fn(Frac, Frac) -> Frac {
    |acc: Frac, x: Frac| fadd(acc, x)
}

/// The fold step that adds one squared value to a running sum.
pub open spec fn sq_step() -> spec_fn(Frac, Frac) -> Frac {
    |acc: Frac, x: Frac| fadd(acc, fmul(x, x))
}

/// The sum of the values of `s`.
pub open spec fn sum_spec(s: Seq<Frac>) -> Frac {
    s.fold_left(fzero(), fadd_step())
}

/// The sum of the squares of the values of `s`.
pub open spec fn sumsq_spec(s: Seq<Frac>) -> Frac {
    s.fold_left(fzero(), sq_step())
}

/// The batch arithmetic mean of `s`: its sum divided by its length.
pub open spec fn favg(s: Seq<Frac>) -> Frac {
    Frac { num: sum_spec(s).num, den: sum_spec(s).den * (s.len() as int) }
}

/// The batch corrected (divide-by-`n-1`) variance of `s`, written over
/// the sum `S` and the sum of squares `Q`: `(n*Q - S^2) / (n*(n-1))`.
pub open spec fn sample_var(s: Seq<Frac>) -> Frac {
    let n = s.len() as int;
    let sv = sum_spec(s);
    let q = sumsq_spec(s);
    Frac {
        num: n * q.num * sv.den * sv.den - sv.num * sv.num * q.den,
        den: q.den * sv.den * sv.den * n * (n - 1),
    }
}

/// The batch population (divide-by-`n`) variance of `s`:
/// `(n*Q - S^2) / (n*n)`.
pub open spec fn pop_var(s: Seq<Frac>) -> Frac {
    let n = s.len() as int;
    let sv = sum_spec(s);
    let q = sumsq_spec(s);
    Frac {
        num: n * q.num * sv.den * sv.den - sv.num * sv.num * q.den,
        den: q.den * sv.den * sv.den * n * n,
    }
}

/// Unfolding the sum of a nonempty sequence at its last element.
pub proof fn lemma_sum_push_last(s: Seq<Frac>)
    requires
        s.len() >= 1,
    ensures
        sum_spec(s) == fadd(sum_spec(s.drop_last()), s.last()),
{
    assert(sum_spec(s) == fadd_step()(s.drop_last().fold_left(fzero(), fadd_step()), s.last()));
    assert(fadd_step()(sum_spec(s.drop_last()), s.last()) == fadd(sum_spec(s.drop_last()), s.last()));
}

/// Unfolding the sum of squares of a nonempty sequence at its last
/// element.
pub proof fn lemma_sumsq_push_last(s: Seq<Frac>)
    requires
        s.len() >= 1,
    ensures
        sumsq_spec(s) == fadd(sumsq_spec(s.drop_last()), fmul(s.last(), s.last())),
{
    assert(sumsq_spec(s) == sq_step()(s.drop_last().fold_left(fzero(), sq_step()), s.last()));
    assert(sq_step()(sumsq_spec(s.drop_last()), s.last()) == fadd(
        sumsq_spec(s.drop_last()),
        fmul(s.last(), s.last()),
    ));
}

/// Dropping the last value keeps every denominator positive.
proof fn lemma_wf_seq_drop_last(s: Seq<Frac>)
    requires
        wf_seq(s),
        s.len() >= 1,
    ensures
        wf_seq(s.drop_last()),
{
    assert forall|i: int| 0 <= i < s.drop_last().len() implies (
    #[trigger] s.drop_last()[i]).den > 0 by {
        assert(s.drop_last()[i] == s[i]);
    }
}

/// The sum of a sequence of well-formed fractions has a positive
/// denominator.
pub proof fn lemma_sum_den_pos(s: Seq<Frac>)
    requires
        wf_seq(s),
    ensures
        sum_spec(s).den > 0,
    decreases s.len(),
{
    if s.len() == 0 {
    } else {
        lemma_wf_seq_drop_last(s);
        lemma_sum_den_pos(s.drop_last());
        lemma_sum_push_last(s);
        let sd = sum_spec(s.drop_last()).den;
        let vd = s.last().den;
        assert(s[s.len() - 1].den > 0);
        assert(sum_spec(s).den == sd * vd);
        assert(sd * vd > 0) by (nonlinear_arith)
            requires
                sd > 0,
                vd > 0,
        ;
    }
}

/// The sum of squares of a sequence of well-formed fractions has a
/// positive denominator.
pub proof fn lemma_sumsq_den_pos(s: Seq<Frac>)
    requires
        wf_seq(s),
    ensures
        sumsq_spec(s).den > 0,
    decreases s.len(),
{
    if s.len() == 0 {
    } else {
        lemma_wf_seq_drop_last(s);
        lemma_sumsq_den_pos(s.drop_last());
        lemma_sumsq_push_last(s);
        let sd = sumsq_spec(s.drop_last()).den;
        let vd = s.last().den;
        assert(s[s.len() - 1].den > 0);
        assert(sumsq_spec(s).den == sd * (vd * vd));
        assert(sd * (vd * vd) > 0) by (nonlinear_arith)
            requires
                sd > 0,
                vd > 0,
        ;
    }
}

/// One step of the mean recurrence keeps the running mean equal to the
/// arithmetic mean, stated over raw numerators and denominators.
proof fn lemma_mean_step_feq(mn: int, md: int, p: int, q: int, vn: int, vd: int, n0: int)
    requires
        mn * (q * n0) == p * md,
    ensures
        (mn * n0 * vd + vn * md) * ((q * vd) * (n0 + 1)) == (p * vd + vn * q) * (md * (n0 + 1)
            * vd),
{
    let k = vd * (n0 + 1);
    let a1 = mn * n0 * vd;
    let a2 = vn * md;
    let b1 = p * vd;
    let b2 = vn * q;
    assert((q * vd) * (n0 + 1) == q * k) by (nonlinear_arith)
        requires
            k == vd * (n0 + 1),
    ;
    assert((md * (n0 + 1)) * vd == md * k) by (nonlinear_arith)
        requires
            k == vd * (n0 + 1),
    ;
    assert((a1 + a2) * (q * k) == ((a1 + a2) * q) * k) by (nonlinear_arith);
    assert((b1 + b2) * (md * k) == ((b1 + b2) * md) * k) by (nonlinear_arith);
    assert((a1 + a2) * q == a1 * q + a2 * q) by (nonlinear_arith);
    assert((b1 + b2) * md == b1 * md + b2 * md) by (nonlinear_arith);
    assert((mn * n0) * q == p * md) by (nonlinear_arith)
        requires
            mn * (q * n0) == p * md,
    ;
    assert(a1 * q == ((mn * n0) * q) * vd) by (nonlinear_arith)
        requires
            a1 == mn * n0 * vd,
    ;
    assert(b1 * md == (p * md) * vd) by (nonlinear_arith)
        requires
            b1 == p * vd,
    ;
    assert(a2 * q == b2 * md) by (nonlinear_arith)
        requires
            a2 == vn * md,
            b2 == vn * q,
    ;
}

/// One step of the variance recurrence, taken at the batch closed form:
/// rescaling the closed form of `n` values (sum `sv`, sum of squares
/// `qq`) by `(n-1)/n` and adding the squared deviation of the new value
/// `v` from the old mean, divided by `n+1`, is `feq` to the closed form
/// of the extended data.
proof fn lemma_var_step_identity(sv: Frac, qq: Frac, v: Frac, n: int)
    requires
        n >= 1,
    ensures
        ({
            let cf0 = Frac {
                num: n * qq.num * sv.den * sv.den - sv.num * sv.num * qq.den,
                den: qq.den * sv.den * sv.den * n * (n - 1),
            };
            let aa = Frac { num: sv.num, den: sv.den * n };
            let dp = fsub(v, aa);
            let ddp = fmul(dp, dp);
            let t1p = Frac { num: (n - 1) * cf0.num, den: n * cf0.den };
            let t2p = Frac { num: ddp.num, den: ddp.den * (n + 1) };
            let sp = fadd(sv, v);
            let qp = fadd(qq, fmul(v, v));
            let r = Frac {
                num: (n + 1) * qp.num * sp.den * sp.den - sp.num * sp.num * qp.den,
                den: qp.den * sp.den * sp.den * (n + 1) * n,
            };
            feq(fadd(t1p, t2p), r)
        }),
{
    let p = sv.num;
    let q = sv.den;
    let u = qq.num;
    let w = qq.den;
    let a = v.num;
    let b = v.den;
    let c0 = n * u * q * q - p * p * w;
    let e0 = w * q * q * n * (n - 1);
    let dn = a * (q * n) - p * b;
    let dv = b * (q * n);
    let dn2 = dn * dn;
    let dv2 = dv * dv;
    let b2 = b * b;
    let q2 = q * q;
    let n2 = n * n;
    let lnum = ((n - 1) * c0) * (dv2 * (n + 1)) + dn2 * (n * e0);
    let lden = (n * e0) * (dv2 * (n + 1));
    let spn = p * b + a * q;
    let spd = q * b;
    let qpn = u * b2 + (a * a) * w;
    let qpd = w * b2;
    let rnum = ((n + 1) * qpn) * spd * spd - (spn * spn) * qpd;
    let rden = qpd * spd * spd * (n + 1) * n;
    let k1 = q2 * (n2 * (n - 1));
    let a0 = c0 * (b2 * (n + 1)) + dn2 * w;
    let t = (n + 1) * qpn;
    let b0 = t * q2 - (spn * spn) * w;
    assert(dv2 == b2 * (q2 * n2)) by (nonlinear_arith)
        requires
            dv == b * (q * n),
            dv2 == dv * dv,
            b2 == b * b,
            q2 == q * q,
            n2 == n * n,
    ;
    let m1 = b2 * (n + 1);
    assert(dv2 * (n + 1) == m1 * (q2 * n2)) by (nonlinear_arith)
        requires
            dv2 == b2 * (q2 * n2),
            m1 == b2 * (n + 1),
    ;
    assert(((n - 1) * c0) * (m1 * (q2 * n2)) == (q2 * (n2 * (n - 1))) * (c0 * m1))
        by (nonlinear_arith);
    assert(((n - 1) * c0) * (dv2 * (n + 1)) == k1 * (c0 * (b2 * (n + 1))));
    assert(dn2 * (n * e0) == k1 * (dn2 * w)) by (nonlinear_arith)
        requires
            e0 == w * q * q * n * (n - 1),
            k1 == q2 * (n2 * (n - 1)),
            q2 == q * q,
            n2 == n * n,
    ;
    assert(k1 * a0 == k1 * (c0 * (b2 * (n + 1))) + k1 * (dn2 * w)) by (nonlinear_arith)
        requires
            a0 == c0 * (b2 * (n + 1)) + dn2 * w,
    ;
    assert(lnum == k1 * a0);
    assert((t * spd) * spd == (t * q2) * b2) by (nonlinear_arith)
        requires
            spd == q * b,
            q2 == q * q,
            b2 == b * b,
    ;
    assert((spn * spn) * qpd == ((spn * spn) * w) * b2) by (nonlinear_arith)
        requires
            qpd == w * b2,
    ;
    assert((t * q2) * b2 - ((spn * spn) * w) * b2 == b0 * b2) by (nonlinear_arith)
        requires
            b0 == t * q2 - (spn * spn) * w,
    ;
    assert(rnum == b0 * b2);
    let qn = q * n;
    assert(dn == a * qn - p * b);
    let dn2e1 = (a * a) * (qn * qn);
    let dn2e2 = ((2 * a) * p) * (qn * b);
    let dn2e3 = (p * p) * (b * b);
    let aqn = a * qn;
    let pb = p * b;
    assert(dn2 == aqn * aqn - 2 * (aqn * pb) + pb * pb) by (nonlinear_arith)
        requires
            dn2 == dn * dn,
            dn == aqn - pb,
    ;
    assert(aqn * aqn == dn2e1) by (nonlinear_arith)
        requires
            dn2e1 == (a * a) * (qn * qn),
            aqn == a * qn,
    ;
    assert(2 * (aqn * pb) == dn2e2) by (nonlinear_arith)
        requires
            dn2e2 == ((2 * a) * p) * (qn * b),
            aqn == a * qn,
            pb == p * b,
    ;
    assert(pb * pb == dn2e3) by (nonlinear_arith)
        requires
            dn2e3 == (p * p) * (b * b),
            pb == p * b,
    ;
    assert(dn2 == dn2e1 - dn2e2 + dn2e3);
    let spn2 = spn * spn;
    let sp2e1 = (p * p) * (b * b);
    let sp2e2 = ((2 * a) * p) * (q * b);
    let sp2e3 = (a * a) * (q * q);
    let aq = a * q;
    assert(spn2 == pb * pb + 2 * (pb * aq) + aq * aq) by (nonlinear_arith)
        requires
            spn2 == spn * spn,
            spn == pb + aq,
    ;
    assert(2 * (pb * aq) == sp2e2) by (nonlinear_arith)
        requires
            sp2e2 == ((2 * a) * p) * (q * b),
            pb == p * b,
            aq == a * q,
    ;
    assert(aq * aq == sp2e3) by (nonlinear_arith)
        requires
            sp2e3 == (a * a) * (q * q),
            aq == a * q,
    ;
    assert(spn2 == sp2e1 + sp2e2 + sp2e3);
    let g1 = (n * (n + 1)) * ((u * b2) * q2);
    let g2 = (p * p) * (b2 * w);
    let g3 = (a * a) * (q2 * w);
    let g4 = ((2 * a) * p) * ((q * b) * w);
    assert(c0 * m1 == (n * u * q * q) * m1 - (p * p * w) * m1) by (nonlinear_arith)
        requires
            c0 == n * u * q * q - p * p * w,
    ;
    assert((n * u * q * q) * m1 == g1) by (nonlinear_arith)
        requires
            m1 == b2 * (n + 1),
            g1 == (n * (n + 1)) * ((u * b2) * q2),
            q2 == q * q,
    ;
    assert((p * p * w) * m1 == g2 * (n + 1)) by (nonlinear_arith)
        requires
            m1 == b2 * (n + 1),
            g2 == (p * p) * (b2 * w),
    ;
    assert(dn2 * w == dn2e1 * w - dn2e2 * w + dn2e3 * w) by (nonlinear_arith)
        requires
            dn2 == dn2e1 - dn2e2 + dn2e3,
    ;
    assert(dn2e1 * w == g3 * n2) by (nonlinear_arith)
        requires
            dn2e1 == (a * a) * (qn * qn),
            qn == q * n,
            g3 == (a * a) * (q2 * w),
            q2 == q * q,
            n2 == n * n,
    ;
    assert(dn2e2 * w == g4 * n) by (nonlinear_arith)
        requires
            dn2e2 == ((2 * a) * p) * (qn * b),
            qn == q * n,
            g4 == ((2 * a) * p) * ((q * b) * w),
    ;
    assert(dn2e3 * w == g2) by (nonlinear_arith)
        requires
            dn2e3 == (p * p) * (b * b),
            g2 == (p * p) * (b2 * w),
            b2 == b * b,
    ;
    assert(a0 == g1 - g2 * (n + 1) + (g3 * n2 - g4 * n + g2));
    assert(n * b0 == n * (t * q2) - n * (spn2 * w)) by (nonlinear_arith)
        requires
            b0 == t * q2 - (spn * spn) * w,
            spn2 == spn * spn,
    ;
    assert(t * q2 == ((n + 1) * (u * b2)) * q2 + ((n + 1) * ((a * a) * w)) * q2)
        by (nonlinear_arith)
        requires
            t == (n + 1) * qpn,
            qpn == u * b2 + (a * a) * w,
    ;
    assert(n * (((n + 1) * (u * b2)) * q2) == g1) by (nonlinear_arith)
        requires
            g1 == (n * (n + 1)) * ((u * b2) * q2),
    ;
    assert(n * (((n + 1) * ((a * a) * w)) * q2) == g3 * (n * (n + 1))) by (nonlinear_arith)
        requires
            g3 == (a * a) * (q2 * w),
    ;
    assert(n * (t * q2) == g1 + g3 * (n * (n + 1))) by (nonlinear_arith)
        requires
            t * q2 == ((n + 1) * (u * b2)) * q2 + ((n + 1) * ((a * a) * w)) * q2,
            n * (((n + 1) * (u * b2)) * q2) == g1,
            n * (((n + 1) * ((a * a) * w)) * q2) == g3 * (n * (n + 1)),
    ;
    assert(spn2 * w == sp2e1 * w + sp2e2 * w + sp2e3 * w) by (nonlinear_arith)
        requires
            spn2 == sp2e1 + sp2e2 + sp2e3,
    ;
    assert(sp2e1 * w == g2) by (nonlinear_arith)
        requires
            sp2e1 == (p * p) * (b * b),
            g2 == (p * p) * (b2 * w),
            b2 == b * b,
    ;
    assert(sp2e2 * w == g4) by (nonlinear_arith)
        requires
            sp2e2 == ((2 * a) * p) * (q * b),
            g4 == ((2 * a) * p) * ((q * b) * w),
    ;
    assert(sp2e3 * w == g3) by (nonlinear_arith)
        requires
            sp2e3 == (a * a) * (q * q),
            g3 == (a * a) * (q2 * w),
            q2 == q * q,
    ;
    assert(n * (spn2 * w) == g2 * n + g4 * n + g3 * n) by (nonlinear_arith)
        requires
            spn2 * w == g2 + g4 + g3,
    ;
    assert(g3 * n2 == g3 * (n * (n + 1)) - g3 * n) by (nonlinear_arith)
        requires
            n2 == n * n,
    ;
    assert(g2 - g2 * (n + 1) == -(g2 * n)) by (nonlinear_arith);
    assert(a0 == n * b0);
    let h = w * (q2 * (b2 * (n * (n + 1))));
    assert(rden == h * b2) by (nonlinear_arith)
        requires
            rden == qpd * spd * spd * (n + 1) * n,
            qpd == w * b2,
            spd == q * b,
            h == w * (q2 * (b2 * (n * (n + 1)))),
            q2 == q * q,
            b2 == b * b,
    ;
    let ne0 = n * e0;
    assert(ne0 == (w * q2) * (n2 * (n - 1))) by (nonlinear_arith)
        requires
            ne0 == n * e0,
            e0 == w * q * q * n * (n - 1),
            q2 == q * q,
            n2 == n * n,
    ;
    assert(lden == ne0 * (dv2 * (n + 1)));
    let wq = w * q2;
    let k3 = n2 * (n - 1);
    assert(ne0 == wq * k3);
    assert(h == wq * (m1 * n)) by (nonlinear_arith)
        requires
            h == w * (q2 * (b2 * (n * (n + 1)))),
            m1 == b2 * (n + 1),
            wq == w * q2,
    ;
    assert((wq * (m1 * n)) * (q2 * k3) == ((wq * k3) * (m1 * q2)) * n) by (nonlinear_arith);
    assert((((wq * k3) * (m1 * q2)) * n) * n == (wq * k3) * ((m1 * q2) * (n * n)))
        by (nonlinear_arith);
    assert(m1 * (q2 * (n * n)) == (m1 * q2) * (n * n)) by (nonlinear_arith);
    assert((wq * k3) * (m1 * (q2 * n2)) == ((wq * (m1 * n)) * (q2 * k3)) * n);
    assert(k1 == q2 * k3);
    assert(ne0 * (dv2 * (n + 1)) == (h * k1) * n);
    assert(lden == (h * k1) * n);
    assert((k1 * a0) * (h * b2) == (b0 * b2) * ((h * k1) * n)) by (nonlinear_arith)
        requires
            a0 == n * b0,
    ;
    assert(lnum * rden == rnum * lden);
}

/// The variance recurrence computes the corrected (divide-by-`n-1`)
/// batch variance: after any well-formed sequence of two or more
/// additions, the running variance equals `(n*Q - S^2) / (n*(n-1))`,
/// where `S` is the sum and `Q` the sum of squares of all values.
pub proof fn lemma_variance_matches_batch(s: Seq<Frac>)
    requires
        wf_seq(s),
        s.len() >= 2,
    ensures
        feq(var_spec(s), sample_var(s)),
    decreases s.len(),
{
    let s0 = s.drop_last();
    let v = s.last();
    let n = s0.len() as int;
    lemma_wf_seq_drop_last(s);
    lemma_sum_den_pos(s0);
    lemma_sumsq_den_pos(s0);
    lemma_sum_push_last(s);
    lemma_sumsq_push_last(s);
    assert(s[s.len() - 1].den > 0);
    let sv = sum_spec(s0);
    let qq = sumsq_spec(s0);
    let pm = mean_spec(s0);
    let pv = var_spec(s0);
    let d = fsub(v, pm);
    let dd = fmul(d, d);
    let t1 = Frac { num: (n - 1) * pv.num, den: n * pv.den };
    let t2 = Frac { num: dd.num, den: dd.den * (n + 1) };
    assert(var_spec(s) == fadd(t1, t2));
    let sp = fadd(sv, v);
    let qp = fadd(qq, fmul(v, v));
    assert(sum_spec(s) == sp);
    assert(sumsq_spec(s) == qp);
    if n == 1 {
        let x = s[0];
        assert(s0[0] == x);
        assert(pm == x);
        assert(pv == fzero());
        lemma_sum_push_last(s0);
        lemma_sumsq_push_last(s0);
        assert(s0.drop_last().len() == 0);
        assert(sum_spec(s0.drop_last()) == fzero());
        assert(sumsq_spec(s0.drop_last()) == fzero());
        assert(s0.last() == x);
        assert(sv == fadd(fzero(), x));
        assert(qq == fadd(fzero(), fmul(x, x)));
        let xn = x.num;
        let xd = x.den;
        let yn = v.num;
        let yd = v.den;
        assert(sv.num == 0 * xd + xn * 1);
        assert(sv.den == 1 * xd);
        assert(sv.num == xn) by (nonlinear_arith)
            requires
                sv.num == 0 * xd + xn * 1,
        ;
        assert(sv.den == xd) by (nonlinear_arith)
            requires
                sv.den == 1 * xd,
        ;
        assert(qq.num == 0 * (xd * xd) + (xn * xn) * 1);
        assert(qq.den == 1 * (xd * xd));
        assert(qq.num == xn * xn) by (nonlinear_arith)
            requires
                qq.num == 0 * (xd * xd) + (xn * xn) * 1,
        ;
        assert(qq.den == xd * xd) by (nonlinear_arith)
            requires
                qq.den == 1 * (xd * xd),
        ;
        let sn = sp.num;
        let sd = sp.den;
        let qn2 = qp.num;
        let qd = qp.den;
        let e1 = xn * yd;
        let e2 = yn * xd;
        assert(sn == e1 + e2);
        assert(sd == xd * yd);
        assert(qd == (xd * xd) * (yd * yd));
        let dnv = yn * xd - xn * yd;
        assert(d.num == dnv);
        assert(d.den == yd * xd);
        assert(sn * sn == e1 * e1 + 2 * (e1 * e2) + e2 * e2) by (nonlinear_arith)
            requires
                sn == e1 + e2,
        ;
        assert(dnv * dnv == e2 * e2 - 2 * (e2 * e1) + e1 * e1) by (nonlinear_arith)
            requires
                dnv == e2 - e1,
        ;
        assert(e2 * e1 == e1 * e2) by (nonlinear_arith);
        assert(e1 * e1 == (xn * xn) * (yd * yd)) by (nonlinear_arith)
            requires
                e1 == xn * yd,
        ;
        assert(e2 * e2 == (yn * yn) * (xd * xd)) by (nonlinear_arith)
            requires
                e2 == yn * xd,
        ;
        assert(qn2 == e1 * e1 + e2 * e2);
        assert(2 * qn2 - sn * sn == dnv * dnv);
        assert((yd * xd) * (yd * xd) == sd * sd) by (nonlinear_arith)
            requires
                sd == xd * yd,
        ;
        assert(dd.num == dnv * dnv);
        assert(dd.den == sd * sd);
        let l = fadd(t1, t2);
        assert(t1.num == 0) by (nonlinear_arith)
            requires
                t1.num == (n - 1) * pv.num,
                n == 1,
                pv.num == 0,
        ;
        assert(t1.den == 1) by (nonlinear_arith)
            requires
                t1.den == n * pv.den,
                n == 1,
                pv.den == 1,
        ;
        assert(l.num == dd.num) by (nonlinear_arith)
            requires
                l.num == t1.num * t2.den + t2.num * t1.den,
                t1.num == 0,
                t1.den == 1,
                t2.num == dd.num,
        ;
        assert(l.den == dd.den * 2) by (nonlinear_arith)
            requires
                l.den == t1.den * t2.den,
                t1.den == 1,
                t2.den == dd.den * (n + 1),
                n == 1,
        ;
        assert((xd * xd) * (yd * yd) == sd * sd) by (nonlinear_arith)
            requires
                sd == xd * yd,
        ;
        assert(qd == sd * sd);
        assert(sample_var(s).num == 2 * qn2 * sd * sd - sn * sn * qd);
        assert(sample_var(s).den == qd * sd * sd * 2 * 1);
        assert(2 * qn2 * sd * sd == (2 * qn2) * (sd * sd)) by (nonlinear_arith);
        assert(sn * sn * qd == (sn * sn) * qd);
        assert((sn * sn) * qd == (sn * sn) * (sd * sd));
        assert((2 * qn2) * (sd * sd) - (sn * sn) * (sd * sd) == (2 * qn2 - sn * sn) * (sd * sd))
            by (nonlinear_arith);
        assert(sample_var(s).num == (dnv * dnv) * (sd * sd));
        assert(qd * sd * sd * 2 * 1 == ((sd * sd) * (sd * sd)) * 2) by (nonlinear_arith)
            requires
                qd == sd * sd,
        ;
        assert((dnv * dnv) * (((sd * sd) * (sd * sd)) * 2) == ((dnv * dnv) * (sd * sd)) * ((sd * sd)
            * 2)) by (nonlinear_arith);
        assert(feq(var_spec(s), sample_var(s)));
    } else {
        let cf0 = Frac {
            num: n * qq.num * sv.den * sv.den - sv.num * sv.num * qq.den,
            den: qq.den * sv.den * sv.den * n * (n - 1),
        };
        let aa = Frac { num: sv.num, den: sv.den * n };
        lemma_mean_is_arithmetic_mean(s0);
        assert(favg(s0) == aa);
        assert(feq(pm, aa));
        lemma_variance_matches_batch(s0);
        assert(sample_var(s0) == cf0);
        assert(feq(pv, cf0));
        lemma_scale_cong(n - 1, n, pv, cf0);
        let t1p = Frac { num: (n - 1) * cf0.num, den: n * cf0.den };
        assert(feq(t1, t1p));
        assert(feq(v, v));
        lemma_fsub_cong(v, v, pm, aa);
        let dp = fsub(v, aa);
        assert(feq(d, dp));
        lemma_fmul_cong(d, dp, d, dp);
        let ddp = fmul(dp, dp);
        assert(feq(dd, ddp));
        lemma_scale_cong(1, n + 1, dd, ddp);
        let t2p = Frac { num: ddp.num, den: ddp.den * (n + 1) };
        assert(dd.den * (n + 1) == (n + 1) * dd.den) by (nonlinear_arith);
        assert(ddp.den * (n + 1) == (n + 1) * ddp.den) by (nonlinear_arith);
        assert(t2 == (Frac { num: 1 * dd.num, den: (n + 1) * dd.den }));
        assert(t2p == (Frac { num: 1 * ddp.num, den: (n + 1) * ddp.den }));
        assert(feq(t2, t2p));
        lemma_fadd_cong(t1, t1p, t2, t2p);
        let lp = fadd(t1p, t2p);
        assert(feq(fadd(t1, t2), lp));
        lemma_var_step_identity(sv, qq, v, n);
        let rr = Frac {
            num: (n + 1) * qp.num * sp.den * sp.den - sp.num * sp.num * qp.den,
            den: qp.den * sp.den * sp.den * (n + 1) * n,
        };
        assert(feq(lp, rr));
        assert(sample_var(s) == rr);
        assert(cf0.den > 0) by (nonlinear_arith)
            requires
                cf0.den == qq.den * sv.den * sv.den * n * (n - 1),
                qq.den > 0,
                sv.den > 0,
                n >= 2,
        ;
        assert(dp.den == v.den * (sv.den * n));
        assert(ddp.den > 0) by (nonlinear_arith)
            requires
                ddp.den == (v.den * (sv.den * n)) * (v.den * (sv.den * n)),
                v.den > 0,
                sv.den > 0,
                n >= 2,
        ;
        assert(lp.den != 0) by (nonlinear_arith)
            requires
                lp.den == (n * cf0.den) * (ddp.den * (n + 1)),
                cf0.den > 0,
                ddp.den > 0,
                n >= 2,
        ;
        lemma_feq_trans(fadd(t1, t2), lp, rr);
        assert(feq(var_spec(s), sample_var(s)));
    }
}

/// The mean recurrence computes the arithmetic mean: after any nonempty
/// well-formed sequence of additions, the running mean equals the sum of
/// the values divided by their number.
pub proof fn lemma_mean_is_arithmetic_mean(s: Seq<Frac>)
    requires
        wf_seq(s),
        s.len() >= 1,
    ensures
        feq(mean_spec(s), favg(s)),
    decreases s.len(),
{
    if s.len() == 1 {
        lemma_sum_push_last(s);
        assert(s.drop_last().len() == 0);
        assert(sum_spec(s.drop_last()) == fzero());
        assert(s.last() == s[0]);
        assert(sum_spec(s) == fadd(fzero(), s[0]));
        assert(mean_spec(s) == s[0]);
        assert(favg(s).num == 0 * s[0].den + s[0].num * 1);
        assert(favg(s).den == (1 * s[0].den) * 1);
        assert(feq(mean_spec(s), favg(s)));
    } else {
        let s0 = s.drop_last();
        let v = s.last();
        let n0 = s0.len() as int;
        lemma_wf_seq_drop_last(s);
        lemma_mean_is_arithmetic_mean(s0);
        lemma_sum_push_last(s);
        let m = mean_spec(s0);
        let sv = sum_spec(s0);
        assert(s[s.len() - 1].den > 0);
        assert(sum_spec(s) == fadd(sv, v));
        lemma_mean_step_feq(m.num, m.den, sv.num, sv.den, v.num, v.den, n0);
        assert(mean_spec(s).num == m.num * n0 * v.den + v.num * m.den);
        assert(mean_spec(s).den == m.den * (n0 + 1) * v.den);
        assert(favg(s).num == sv.num * v.den + v.num * sv.den);
        assert(favg(s).den == (sv.den * v.den) * (n0 + 1));
    }
}

/// With exactly one value absorbed the variance is zero, and zero is
/// also the population (divide-by-`n`) variance of that single value.
pub proof fn lemma_variance_population_single(s: Seq<Frac>)
    requires
        wf_seq(s),
        s.len() == 1,
    ensures
        var_spec(s) == fzero(),
        feq(var_spec(s), pop_var(s)),
{
    let x = s[0];
    lemma_sum_push_last(s);
    lemma_sumsq_push_last(s);
    assert(s.drop_last().len() == 0);
    assert(sum_spec(s.drop_last()) == fzero());
    assert(sumsq_spec(s.drop_last()) == fzero());
    assert(s.last() == x);
    let sv = sum_spec(s);
    let qq = sumsq_spec(s);
    assert(sv == fadd(fzero(), x));
    assert(qq == fadd(fzero(), fmul(x, x)));
    let xn = x.num;
    let xd = x.den;
    assert(sv.num == 0 * xd + xn * 1);
    assert(sv.den == 1 * xd);
    assert(qq.num == 0 * (xd * xd) + (xn * xn) * 1);
    assert(qq.den == 1 * (xd * xd));
    assert(sv.num == xn) by (nonlinear_arith)
        requires
            sv.num == 0 * xd + xn * 1,
    ;
    assert(sv.den == xd) by (nonlinear_arith)
        requires
            sv.den == 1 * xd,
    ;
    assert(qq.num == xn * xn) by (nonlinear_arith)
        requires
            qq.num == 0 * (xd * xd) + (xn * xn) * 1,
    ;
    assert(qq.den == xd * xd) by (nonlinear_arith)
        requires
            qq.den == 1 * (xd * xd),
    ;
    assert(pop_var(s).num == 1 * (xn * xn) * xd * xd - xn * xn * (xd * xd));
    assert(pop_var(s).num == 0) by (nonlinear_arith)
        requires
            pop_var(s).num == 1 * (xn * xn) * xd * xd - xn * xn * (xd * xd),
    ;
    assert(0 * pop_var(s).den == pop_var(s).num * 1) by (nonlinear_arith)
        requires
            pop_var(s).num == 0,
    ;
    assert(feq(var_spec(s), pop_var(s)));
}

/// A single absorbed value: the mean is that value and the variance is
/// zero.
pub proof fn lemma_single_value(v: Frac)
    requires
        v.den > 0,
    ensures
        mean_spec(seq![v]) == v,
        var_spec(seq![v]) == fzero(),
{
    assert(seq![v].len() == 1);
    assert(seq![v][0] == v);
}

/// Adding one value and then another leaves the same sum as the other
/// order.
proof fn lemma_fadd_two_orders(acc: Frac, x: Frac, y: Frac)
    ensures
        fadd(fadd(acc, x), y) == fadd(fadd(acc, y), x),
{
    let l = fadd(fadd(acc, x), y);
    let r = fadd(fadd(acc, y), x);
    assert((acc.num * x.den + x.num * acc.den) * y.den == (acc.num * x.den) * y.den + (x.num
        * acc.den) * y.den) by (nonlinear_arith);
    assert((acc.num * y.den + y.num * acc.den) * x.den == (acc.num * y.den) * x.den + (y.num
        * acc.den) * x.den) by (nonlinear_arith);
    assert((acc.num * x.den) * y.den == (acc.num * y.den) * x.den) by (nonlinear_arith);
    assert((x.num * acc.den) * y.den == x.num * (acc.den * y.den)) by (nonlinear_arith);
    assert(y.num * (acc.den * x.den) == (y.num * acc.den) * x.den) by (nonlinear_arith);
    assert(l.num == r.num);
    assert((acc.den * x.den) * y.den == (acc.den * y.den) * x.den) by (nonlinear_arith);
    assert(l.den == r.den);
}

/// Both statistics depend only on the multiset of values absorbed:
/// feeding the accumulators any two orderings of the same values gives
/// numerically equal means, and numerically equal variances.
pub proof fn lemma_permutation_invariant(s1: Seq<Frac>, s2: Seq<Frac>)
    requires
        wf_seq(s1),
        wf_seq(s2),
        s1.to_multiset() == s2.to_multiset(),
        s1.len() >= 1,
    ensures
        feq(mean_spec(s1), mean_spec(s2)),
        feq(var_spec(s1), var_spec(s2)),
{
    broadcast use group_to_multiset_ensures;

    assert(s1.to_multiset().len() == s1.len());
    assert(s2.to_multiset().len() == s2.len());
    assert(s1.len() == s2.len());
    assert(commutative_foldl(fadd_step())) by {
        assert forall|x: Frac, y: Frac, acc: Frac| #[trigger] fadd_step()(
            fadd_step()(acc, x),
            y,
        ) == fadd_step()(fadd_step()(acc, y), x) by {
            lemma_fadd_two_orders(acc, x, y);
        }
    }
    assert(commutative_foldl(sq_step())) by {
        assert forall|x: Frac, y: Frac, acc: Frac| #[trigger] sq_step()(sq_step()(acc, x), y)
            == sq_step()(sq_step()(acc, y), x) by {
            lemma_fadd_two_orders(acc, fmul(x, x), fmul(y, y));
        }
    }
    lemma_fold_left_permutation(s1, s2, fadd_step(), fzero());
    lemma_fold_left_permutation(s1, s2, sq_step(), fzero());
    assert(sum_spec(s1) == sum_spec(s2));
    assert(sumsq_spec(s1) == sumsq_spec(s2));
    lemma_mean_is_arithmetic_mean(s1);
    lemma_mean_is_arithmetic_mean(s2);
    assert(favg(s1) == favg(s2));
    lemma_sum_den_pos(s1);
    assert(favg(s1).den != 0) by (nonlinear_arith)
        requires
            favg(s1).den == sum_spec(s1).den * (s1.len() as int),
            sum_spec(s1).den > 0,
            s1.len() as int >= 1,
    ;
    lemma_feq_trans(mean_spec(s1), favg(s1), mean_spec(s2));
    if s1.len() == 1 {
        assert(var_spec(s1) == fzero());
        assert(var_spec(s2) == fzero());
        assert(feq(var_spec(s1), var_spec(s2)));
    } else {
        lemma_variance_matches_batch(s1);
        lemma_variance_matches_batch(s2);
        assert(sample_var(s1) == sample_var(s2));
        lemma_sumsq_den_pos(s1);
        assert(sample_var(s1).den != 0) by (nonlinear_arith)
            requires
                sample_var(s1).den == sumsq_spec(s1).den * sum_spec(s1).den * sum_spec(s1).den * (
                s1.len() as int) * ((s1.len() as int) - 1),
                sumsq_spec(s1).den > 0,
                sum_spec(s1).den > 0,
                s1.len() as int >= 2,
        ;
        lemma_feq_trans(var_spec(s1), sample_var(s1), var_spec(s2));
    }
}

} // verus!

