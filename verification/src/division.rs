//! Division with remainder on coefficient sequences: what a quotient and a
//! remainder are, the step that long division repeats, and why the result
//! is unique.

use crate::field::{
    lemma_add_cancel, lemma_add_neg, lemma_four_swap, lemma_mul_zero, lemma_neg_wf,
    lemma_neg_zero, lemma_zero_add, neg, Field,
};
use crate::model::{
    coeff, is_poly, lemma_coeff_wf, lemma_monomial, lemma_poly_add, lemma_poly_ext,
    lemma_poly_sub, monomial, poly_add, poly_sub, zero_poly,
};
use crate::product::{
    conv, lemma_conv_add_left, lemma_conv_single, lemma_conv_wf, lemma_nonzero_last,
    lemma_poly_mul, lemma_poly_mul_nonzero, poly_mul,
};
use vstd::prelude::*;

verus! {

/// Whether `q` and `r` are a quotient and a remainder of `f` by `g`:
/// `f = q * g + r`, with `r` zero or of lower degree than `g`.
pub open spec fn is_division<T: Field>(f: Seq<T>, g: Seq<T>, q: Seq<T>, r: Seq<T>) -> bool {
    &&& is_poly(q)
    &&& is_poly(r)
    &&& f == poly_add(poly_mul(q, g), r)
    &&& (r == zero_poly::<T>() || r.len() < g.len())
}

/// The monomial that long division takes off next: the leading term of `r`
/// divided by the leading term of `g`.
pub open spec fn quotient_term<T: Field>(r: Seq<T>, g: Seq<T>) -> Seq<T> {
    monomial(r.last().div_spec(g.last()), (r.len() - g.len()) as nat)
}

/// What is left to do in a division: nothing once the remainder is zero,
/// else the number of its coefficients.
pub open spec fn remaining<T: Field>(r: Seq<T>) -> nat {
    if r == zero_poly::<T>() {
        0
    } else {
        r.len()
    }
}

/// One step of long division. Moving the quotient term from the remainder
/// to the quotient keeps `q * g + r` what it was, and leaves a remainder
/// that is zero or shorter than before.
pub proof fn lemma_div_step<T: Field>(q: Seq<T>, r: Seq<T>, g: Seq<T>)
    requires
        is_poly(q),
        is_poly(r),
        is_poly(g),
        g != zero_poly::<T>(),
        r != zero_poly::<T>(),
        r.len() >= g.len(),
    ensures
        ({
            let t = quotient_term(r, g);
            let q2 = poly_add(q, t);
            let r2 = poly_sub(r, poly_mul(t, g));
            &&& is_poly(t)
            &&& is_poly(poly_mul(t, g))
            &&& is_poly(q2)
            &&& is_poly(r2)
            &&& t.len() == r.len() - g.len() + 1
            &&& poly_add(poly_mul(q2, g), r2) == poly_add(poly_mul(q, g), r)
            &&& remaining(r2) < remaining(r)
        }),
{
    let zero = T::zero_spec();
    let d = r.len() - g.len();
    let c = r.last().div_spec(g.last());
    let t = quotient_term(r, g);
    let tg = poly_mul(t, g);
    let q2 = poly_add(q, t);
    let r2 = poly_sub(r, tg);
    let lhs = poly_add(poly_mul(q2, g), r2);
    let rhs = poly_add(poly_mul(q, g), r);

    T::lemma_identities_wf();
    lemma_nonzero_last(g);
    lemma_nonzero_last(r);
    T::lemma_closed(r.last(), g.last());
    T::lemma_div_mul(r.last(), g.last());
    lemma_mul_zero(g.last());
    assert(c != zero);
    lemma_monomial(c, d as nat);
    lemma_poly_mul(t, g);
    lemma_poly_add(q, t);
    lemma_poly_sub(r, tg);
    lemma_poly_mul(q2, g);
    lemma_poly_mul(q, g);
    lemma_poly_add(poly_mul(q2, g), r2);
    lemma_poly_add(poly_mul(q, g), r);
    lemma_coeff_wf(r);
    lemma_coeff_wf(g);

    assert forall|k: int| 0 <= k implies coeff(lhs, k) == coeff(rhs, k) by {
        let x = conv(q, g, k);
        let y = conv(t, g, k);
        let z = coeff(r, k);
        lemma_conv_wf(q, g, k);
        lemma_conv_wf(t, g, k);
        lemma_neg_wf(y);
        lemma_conv_add_left(q, t, q2, g, k);
        assert(coeff(poly_mul(q2, g), k) == x.add_spec(y));
        assert(coeff(tg, k) == y);
        assert(coeff(r2, k) == z.add_spec(neg(y)));
        lemma_four_swap(x, y, z, neg(y));
        lemma_add_neg(y);
        T::lemma_closed(x, z);
        T::lemma_add_zero(x.add_spec(z));
        assert(coeff(poly_mul(q, g), k) == x);
    }
    lemma_poly_ext(lhs, rhs);

    assert forall|k: int| k >= r.len() - 1 implies coeff(r2, k) == zero by {
        let y = conv(t, g, k);
        let z = coeff(r, k);
        lemma_conv_single(t, g, k, d);
        assert(coeff(tg, k) == y);
        assert(y == c.mul_spec(coeff(g, k - d)));
        assert(coeff(r2, k) == z.add_spec(neg(y)));
        if k == r.len() - 1 {
            assert(coeff(g, k - d) == g.last());
            assert(y == z);
            lemma_add_neg(z);
        } else {
            lemma_mul_zero(c);
            lemma_neg_zero::<T>();
            T::lemma_add_zero(zero);
        }
    }
    if r2.len() >= r.len() {
        assert(coeff(r2, r2.len() - 1) == zero);
        assert(r2 =~= zero_poly::<T>());
    }
}

/// Division with remainder has one result only: two pairs that both are a
/// quotient and a remainder of `f` by `g` are equal.
pub proof fn law_division_unique<T: Field>(
    f: Seq<T>,
    g: Seq<T>,
    q1: Seq<T>,
    r1: Seq<T>,
    q2: Seq<T>,
    r2: Seq<T>,
)
    requires
        is_poly(g),
        g != zero_poly::<T>(),
        is_division(f, g, q1, r1),
        is_division(f, g, q2, r2),
    ensures
        q1 == q2,
        r1 == r2,
{
    let zero = T::zero_spec();
    let dq = poly_sub(q1, q2);
    T::lemma_identities_wf();
    lemma_poly_sub(q1, q2);
    lemma_poly_mul(q1, g);
    lemma_poly_mul(q2, g);
    lemma_poly_mul(dq, g);
    lemma_poly_add(poly_mul(q1, g), r1);
    lemma_poly_add(poly_mul(q2, g), r2);
    lemma_coeff_wf(q1);
    lemma_coeff_wf(q2);
    lemma_coeff_wf(r1);
    lemma_coeff_wf(r2);

    // q1 is the difference plus q2, coefficient by coefficient
    assert forall|j: int| 0 <= j implies coeff(q1, j) == coeff(dq, j).add_spec(coeff(q2, j)) by {
        let a = coeff(q1, j);
        let b = coeff(q2, j);
        lemma_neg_wf(b);
        assert(coeff(dq, j) == a.add_spec(neg(b)));
        T::lemma_add_assoc(a, neg(b), b);
        lemma_add_neg(b);
        T::lemma_add_zero(a);
    }

    // from the degree of g on, the product of the difference with g vanishes
    assert forall|k: int| k >= g.len() - 1 implies conv(dq, g, k) == zero by {
        let x1 = conv(q1, g, k);
        let x2 = conv(q2, g, k);
        let y = conv(dq, g, k);
        lemma_conv_wf(q1, g, k);
        lemma_conv_wf(q2, g, k);
        lemma_conv_wf(dq, g, k);
        lemma_conv_add_left(dq, q2, q1, g, k);
        assert(coeff(r1, k) == zero);
        assert(coeff(r2, k) == zero);
        assert(coeff(f, k) == x1.add_spec(zero)) by {
            assert(coeff(poly_add(poly_mul(q1, g), r1), k) == coeff(poly_mul(q1, g), k).add_spec(
                coeff(r1, k),
            ));
        }
        assert(coeff(f, k) == x2.add_spec(zero)) by {
            assert(coeff(poly_add(poly_mul(q2, g), r2), k) == coeff(poly_mul(q2, g), k).add_spec(
                coeff(r2, k),
            ));
        }
        T::lemma_add_zero(x1);
        T::lemma_add_zero(x2);
        lemma_zero_add(x2);
        lemma_add_cancel(y, zero, x2);
    }

    if dq != zero_poly::<T>() {
        lemma_poly_mul_nonzero(dq, g);
        let top = dq.len() + g.len() - 2;
        assert(coeff(poly_mul(dq, g), top) == conv(dq, g, top));
        assert(false);
    }

    assert forall|j: int| 0 <= j implies coeff(q1, j) == coeff(q2, j) by {
        assert(coeff(dq, j) == zero);
        lemma_zero_add(coeff(q2, j));
    }
    lemma_poly_ext(q1, q2);

    assert forall|k: int| 0 <= k implies coeff(r1, k) == coeff(r2, k) by {
        let x = conv(q1, g, k);
        lemma_conv_wf(q1, g, k);
        assert(coeff(f, k) == x.add_spec(coeff(r1, k))) by {
            assert(coeff(poly_add(poly_mul(q1, g), r1), k) == coeff(poly_mul(q1, g), k).add_spec(
                coeff(r1, k),
            ));
        }
        assert(coeff(f, k) == x.add_spec(coeff(r2, k))) by {
            assert(coeff(poly_add(poly_mul(q2, g), r2), k) == coeff(poly_mul(q2, g), k).add_spec(
                coeff(r2, k),
            ));
        }
        T::lemma_add_comm(x, coeff(r1, k));
        T::lemma_add_comm(x, coeff(r2, k));
        lemma_add_cancel(coeff(r1, k), coeff(r2, k), x);
    }
    lemma_poly_ext(r1, r2);
}

} // verus!
