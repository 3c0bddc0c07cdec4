//! The laws of polynomial arithmetic: polynomials over a field form a
//! commutative ring in which degrees add under multiplication.

use crate::field::{lemma_add_neg, lemma_mul_zero, lemma_zero_add, Field};
use crate::model::{
    all_wf, coeff, degree, is_poly, lemma_coeff_wf, lemma_poly_add, lemma_poly_ext,
    lemma_poly_neg, lemma_zero_ext, one_poly, poly_add, poly_neg, poly_sub, zero_poly,
};
use crate::product::{
    conv, lemma_conv_add_right, lemma_conv_comm, lemma_conv_single, lemma_poly_mul,
    lemma_poly_mul_nonzero, poly_mul,
};
use vstd::prelude::*;

verus! {

/// Adding the zero polynomial changes nothing: `a + 0 = a` and `0 + a = a`.
pub proof fn law_add_zero<T: Field>(a: Seq<T>)
    requires
        is_poly(a),
    ensures
        poly_add(a, zero_poly::<T>()) == a,
        poly_add(zero_poly::<T>(), a) == a,
{
    let z = zero_poly::<T>();
    T::lemma_identities_wf();
    lemma_poly_add(a, z);
    lemma_poly_add(z, a);
    lemma_coeff_wf(a);
    assert forall|i: int| 0 <= i implies coeff(poly_add(a, z), i) == coeff(a, i) by {
        T::lemma_add_zero(coeff(a, i));
    }
    assert forall|i: int| 0 <= i implies coeff(poly_add(z, a), i) == coeff(a, i) by {
        lemma_zero_add(coeff(a, i));
    }
    lemma_poly_ext(poly_add(a, z), a);
    lemma_poly_ext(poly_add(z, a), a);
}

/// A polynomial and its negation cancel: `a + (-a) = 0`, and so `a - a = 0`.
pub proof fn law_add_neg<T: Field>(a: Seq<T>)
    requires
        all_wf(a),
    ensures
        poly_add(a, poly_neg(a)) == zero_poly::<T>(),
        poly_sub(a, a) == zero_poly::<T>(),
{
    lemma_poly_neg(a);
    lemma_poly_add(a, poly_neg(a));
    lemma_coeff_wf(a);
    assert forall|i: int| 0 <= i implies coeff(poly_add(a, poly_neg(a)), i)
        == T::zero_spec() by {
        lemma_add_neg(coeff(a, i));
    }
    lemma_zero_ext(poly_add(a, poly_neg(a)));
}

/// Addition is commutative: `a + b = b + a`.
pub proof fn law_add_comm<T: Field>(a: Seq<T>, b: Seq<T>)
    requires
        all_wf(a),
        all_wf(b),
    ensures
        poly_add(a, b) == poly_add(b, a),
{
    lemma_poly_add(a, b);
    lemma_poly_add(b, a);
    lemma_coeff_wf(a);
    lemma_coeff_wf(b);
    assert forall|i: int| 0 <= i implies coeff(poly_add(a, b), i) == coeff(poly_add(b, a), i) by {
        T::lemma_add_comm(coeff(a, i), coeff(b, i));
    }
    lemma_poly_ext(poly_add(a, b), poly_add(b, a));
}

/// Addition is associative: `(a + b) + c = a + (b + c)`.
pub proof fn law_add_assoc<T: Field>(a: Seq<T>, b: Seq<T>, c: Seq<T>)
    requires
        all_wf(a),
        all_wf(b),
        all_wf(c),
    ensures
        poly_add(poly_add(a, b), c) == poly_add(a, poly_add(b, c)),
{
    let l = poly_add(poly_add(a, b), c);
    let r = poly_add(a, poly_add(b, c));
    lemma_poly_add(a, b);
    lemma_poly_add(b, c);
    lemma_poly_add(poly_add(a, b), c);
    lemma_poly_add(a, poly_add(b, c));
    lemma_coeff_wf(a);
    lemma_coeff_wf(b);
    lemma_coeff_wf(c);
    assert forall|i: int| 0 <= i implies coeff(l, i) == coeff(r, i) by {
        assert(coeff(poly_add(a, b), i) == coeff(a, i).add_spec(coeff(b, i)));
        assert(coeff(poly_add(b, c), i) == coeff(b, i).add_spec(coeff(c, i)));
        T::lemma_add_assoc(coeff(a, i), coeff(b, i), coeff(c, i));
    }
    lemma_poly_ext(l, r);
}

/// Multiplying by the constant one changes nothing: `a * 1 = a` and
/// `1 * a = a`.
pub proof fn law_mul_one<T: Field>(a: Seq<T>)
    requires
        is_poly(a),
    ensures
        poly_mul(a, one_poly::<T>()) == a,
        poly_mul(one_poly::<T>(), a) == a,
{
    let one = one_poly::<T>();
    T::lemma_identities_wf();
    lemma_poly_mul(a, one);
    lemma_poly_mul(one, a);
    lemma_coeff_wf(a);
    assert forall|k: int| 0 <= k implies coeff(poly_mul(one, a), k) == coeff(a, k) by {
        lemma_conv_single(one, a, k, 0);
        T::lemma_mul_one(coeff(a, k));
        T::lemma_mul_comm(coeff(a, k), T::one_spec());
    }
    assert forall|k: int| 0 <= k implies coeff(poly_mul(a, one), k) == coeff(a, k) by {
        lemma_conv_comm(a, one, k);
        assert(coeff(poly_mul(one, a), k) == coeff(a, k));
    }
    lemma_poly_ext(poly_mul(a, one), a);
    lemma_poly_ext(poly_mul(one, a), a);
}

/// Multiplying by the zero polynomial gives the zero polynomial:
/// `a * 0 = 0` and `0 * a = 0`.
pub proof fn law_mul_zero<T: Field>(a: Seq<T>)
    requires
        all_wf(a),
    ensures
        poly_mul(a, zero_poly::<T>()) == zero_poly::<T>(),
        poly_mul(zero_poly::<T>(), a) == zero_poly::<T>(),
{
    let z = zero_poly::<T>();
    T::lemma_identities_wf();
    lemma_poly_mul(a, z);
    lemma_poly_mul(z, a);
    lemma_coeff_wf(a);
    assert forall|k: int| 0 <= k implies coeff(poly_mul(z, a), k) == T::zero_spec() by {
        lemma_conv_single(z, a, k, 0);
        lemma_mul_zero(coeff(a, k));
    }
    assert forall|k: int| 0 <= k implies coeff(poly_mul(a, z), k) == T::zero_spec() by {
        lemma_conv_comm(a, z, k);
        assert(coeff(poly_mul(z, a), k) == T::zero_spec());
    }
    lemma_zero_ext(poly_mul(a, z));
    lemma_zero_ext(poly_mul(z, a));
}

/// Multiplication is commutative: `a * b = b * a`.
pub proof fn law_mul_comm<T: Field>(a: Seq<T>, b: Seq<T>)
    requires
        all_wf(a),
        all_wf(b),
    ensures
        poly_mul(a, b) == poly_mul(b, a),
{
    lemma_poly_mul(a, b);
    lemma_poly_mul(b, a);
    assert forall|k: int| 0 <= k implies coeff(poly_mul(a, b), k) == coeff(poly_mul(b, a), k) by {
        lemma_conv_comm(a, b, k);
    }
    lemma_poly_ext(poly_mul(a, b), poly_mul(b, a));
}

/// Multiplication distributes over addition:
/// `a * (b + c) = a * b + a * c`.
pub proof fn law_distrib<T: Field>(a: Seq<T>, b: Seq<T>, c: Seq<T>)
    requires
        all_wf(a),
        all_wf(b),
        all_wf(c),
    ensures
        poly_mul(a, poly_add(b, c)) == poly_add(poly_mul(a, b), poly_mul(a, c)),
{
    let s = poly_add(b, c);
    let l = poly_mul(a, s);
    let r = poly_add(poly_mul(a, b), poly_mul(a, c));
    lemma_poly_add(b, c);
    lemma_poly_mul(a, s);
    lemma_poly_mul(a, b);
    lemma_poly_mul(a, c);
    lemma_poly_add(poly_mul(a, b), poly_mul(a, c));
    assert forall|k: int| 0 <= k implies coeff(l, k) == coeff(r, k) by {
        lemma_conv_add_right(a, b, c, s, k);
        assert(coeff(poly_mul(a, b), k) == conv(a, b, k));
        assert(coeff(poly_mul(a, c), k) == conv(a, c, k));
    }
    lemma_poly_ext(l, r);
}

/// Degrees add under multiplication: for `a` and `b` not zero,
/// `degree(a * b) = degree(a) + degree(b)`.
pub proof fn law_degree_mul<T: Field>(a: Seq<T>, b: Seq<T>)
    requires
        is_poly(a),
        is_poly(b),
        a != zero_poly::<T>(),
        b != zero_poly::<T>(),
    ensures
        degree(poly_mul(a, b)) == degree(a) + degree(b),
        poly_mul(a, b) != zero_poly::<T>(),
{
    lemma_poly_mul_nonzero(a, b);
}

} // verus!
