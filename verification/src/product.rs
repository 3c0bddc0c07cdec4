//! The product of two coefficient sequences: the convolution, and what
//! it does to coefficients and to degrees.

use crate::field::{lemma_distrib_right, lemma_mul_zero, lemma_no_zero_divisors, Field};
use crate::model::{
    all_wf, canonical, coeff, is_poly, lemma_coeff_wf, lemma_normalize, normalize, zero_poly,
};
use crate::sum::{
    lemma_sum_add, lemma_sum_extend, lemma_sum_reverse, lemma_sum_single, lemma_sum_wf,
    lemma_sum_zero, sum, terms_wf,
};
use vstd::prelude::*;

verus! {

/// The products `a_i * b_(k - i)`, as a function of `i`: what the pairs of
/// coefficients whose exponents add up to `k` contribute to `x^k`.
pub open spec fn term<T: Field>(a: Seq<T>, b: Seq<T>, k: int) -> spec_fn(int) -> T {
    |i: int| coeff(a, i).mul_spec(coeff(b, k - i))
}

/// The coefficient of `x^k` in the product: the sum of `a_i * b_(k - i)`
/// over `i` from 0 to `k`.
pub open spec fn conv<T: Field>(a: Seq<T>, b: Seq<T>, k: int) -> T {
    if k < 0 {
        T::zero_spec()
    } else {
        sum(term(a, b, k), (k + 1) as nat)
    }
}

/// The number of coefficients that a product of sequences of these lengths
/// can have.
pub open spec fn mul_len(n: nat, m: nat) -> nat {
    if n == 0 || m == 0 {
        0
    } else {
        (n + m - 1) as nat
    }
}

/// The coefficients of the product before trailing zeros are removed.
pub open spec fn mul_seq<T: Field>(a: Seq<T>, b: Seq<T>) -> Seq<T> {
    Seq::new(mul_len(a.len(), b.len()), |k: int| conv(a, b, k))
}

/// The product of two polynomials.
pub open spec fn poly_mul<T: Field>(a: Seq<T>, b: Seq<T>) -> Seq<T> {
    normalize(mul_seq(a, b))
}

/// Every term of a convolution is a field element.
pub proof fn lemma_term_wf<T: Field>(a: Seq<T>, b: Seq<T>, k: int, n: nat)
    requires
        all_wf(a),
        all_wf(b),
    ensures
        terms_wf(term(a, b, k), n),
{
    lemma_coeff_wf(a);
    lemma_coeff_wf(b);
    assert forall|i: int| 0 <= i < n implies (#[trigger] term(a, b, k)(i)).wf() by {
        T::lemma_closed(coeff(a, i), coeff(b, k - i));
    }
}

/// Every coefficient of a product is a field element.
pub proof fn lemma_conv_wf<T: Field>(a: Seq<T>, b: Seq<T>, k: int)
    requires
        all_wf(a),
        all_wf(b),
    ensures
        conv(a, b, k).wf(),
{
    T::lemma_identities_wf();
    if k >= 0 {
        lemma_term_wf(a, b, k, (k + 1) as nat);
        lemma_sum_wf(term(a, b, k), (k + 1) as nat);
    }
}

/// The sum over the rows `i < n` is the coefficient of the product as soon
/// as `n` covers the first sequence or reaches past `k`.
pub proof fn lemma_conv_rows<T: Field>(a: Seq<T>, b: Seq<T>, k: int, n: nat)
    requires
        all_wf(a),
        all_wf(b),
        0 <= k,
        n >= a.len() || n > k,
    ensures
        sum(term(a, b, k), n) == conv(a, b, k),
{
    let f = term(a, b, k);
    let m = (k + 1) as nat;
    lemma_coeff_wf(a);
    lemma_coeff_wf(b);
    if n >= m {
        lemma_term_wf(a, b, k, m);
        assert forall|i: int| m <= i < n implies #[trigger] f(i) == T::zero_spec() by {
            lemma_mul_zero(coeff(a, i));
        }
        lemma_sum_extend(f, m, n);
    } else {
        lemma_term_wf(a, b, k, n);
        assert forall|i: int| n <= i < m implies #[trigger] f(i) == T::zero_spec() by {
            lemma_mul_zero(coeff(b, k - i));
        }
        lemma_sum_extend(f, n, m);
    }
}

/// The convolution is commutative.
pub proof fn lemma_conv_comm<T: Field>(a: Seq<T>, b: Seq<T>, k: int)
    requires
        all_wf(a),
        all_wf(b),
    ensures
        conv(a, b, k) == conv(b, a, k),
{
    if k >= 0 {
        let n = (k + 1) as nat;
        lemma_term_wf(a, b, k, n);
        lemma_coeff_wf(a);
        lemma_coeff_wf(b);
        assert forall|i: int| 0 <= i < n implies #[trigger] term(b, a, k)(i) == term(a, b, k)(
            n - 1 - i,
        ) by {
            T::lemma_mul_comm(coeff(b, i), coeff(a, k - i));
        }
        lemma_sum_reverse(term(a, b, k), term(b, a, k), n);
    }
}

/// The convolution is additive in its second argument.
pub proof fn lemma_conv_add_right<T: Field>(a: Seq<T>, b: Seq<T>, c: Seq<T>, s: Seq<T>, k: int)
    requires
        all_wf(a),
        all_wf(b),
        all_wf(c),
        forall|j: int| 0 <= j ==> coeff(s, j) == coeff(b, j).add_spec(coeff(c, j)),
    ensures
        conv(a, s, k) == conv(a, b, k).add_spec(conv(a, c, k)),
{
    T::lemma_identities_wf();
    if k >= 0 {
        let n = (k + 1) as nat;
        lemma_term_wf(a, b, k, n);
        lemma_term_wf(a, c, k, n);
        lemma_coeff_wf(a);
        lemma_coeff_wf(b);
        lemma_coeff_wf(c);
        assert forall|i: int| 0 <= i < n implies #[trigger] term(a, s, k)(i) == term(a, b, k)(
            i,
        ).add_spec(term(a, c, k)(i)) by {
            assert(coeff(s, k - i) == coeff(b, k - i).add_spec(coeff(c, k - i)));
            T::lemma_distrib(coeff(a, i), coeff(b, k - i), coeff(c, k - i));
        }
        lemma_sum_add(term(a, b, k), term(a, c, k), term(a, s, k), n);
    } else {
        T::lemma_add_zero(T::zero_spec());
    }
}

/// The convolution is additive in its first argument.
pub proof fn lemma_conv_add_left<T: Field>(a: Seq<T>, b: Seq<T>, s: Seq<T>, c: Seq<T>, k: int)
    requires
        all_wf(a),
        all_wf(b),
        all_wf(c),
        forall|j: int| 0 <= j ==> coeff(s, j) == coeff(a, j).add_spec(coeff(b, j)),
    ensures
        conv(s, c, k) == conv(a, c, k).add_spec(conv(b, c, k)),
{
    T::lemma_identities_wf();
    if k >= 0 {
        let n = (k + 1) as nat;
        lemma_term_wf(a, c, k, n);
        lemma_term_wf(b, c, k, n);
        lemma_coeff_wf(a);
        lemma_coeff_wf(b);
        lemma_coeff_wf(c);
        assert forall|i: int| 0 <= i < n implies #[trigger] term(s, c, k)(i) == term(a, c, k)(
            i,
        ).add_spec(term(b, c, k)(i)) by {
            assert(coeff(s, i) == coeff(a, i).add_spec(coeff(b, i)));
            lemma_distrib_right(coeff(a, i), coeff(b, i), coeff(c, k - i));
        }
        lemma_sum_add(term(a, c, k), term(b, c, k), term(s, c, k), n);
    } else {
        T::lemma_add_zero(T::zero_spec());
    }
}

/// A first factor with a single coefficient that may differ from zero, at
/// `d`, shifts the second factor by `d` and scales it.
pub proof fn lemma_conv_single<T: Field>(a: Seq<T>, b: Seq<T>, k: int, d: int)
    requires
        all_wf(a),
        all_wf(b),
        0 <= d,
        forall|i: int| 0 <= i && i != d ==> coeff(a, i) == T::zero_spec(),
    ensures
        conv(a, b, k) == coeff(a, d).mul_spec(coeff(b, k - d)),
{
    lemma_coeff_wf(a);
    lemma_coeff_wf(b);
    lemma_mul_zero(coeff(a, d));
    if k >= 0 {
        let n = (k + 1) as nat;
        let f = term(a, b, k);
        assert forall|i: int| 0 <= i < n && i != d implies #[trigger] f(i) == T::zero_spec() by {
            assert(coeff(a, i) == T::zero_spec());
            lemma_mul_zero(coeff(b, k - i));
        }
        if d <= k {
            T::lemma_closed(coeff(a, d), coeff(b, k - d));
            lemma_sum_single(f, n, d);
        } else {
            lemma_sum_zero(f, n);
        }
    }
}

/// Past the sum of the degrees every coefficient of a product is zero.
pub proof fn lemma_conv_beyond<T: Field>(a: Seq<T>, b: Seq<T>, k: int)
    requires
        all_wf(a),
        all_wf(b),
        k >= mul_len(a.len(), b.len()),
    ensures
        conv(a, b, k) == T::zero_spec(),
{
    lemma_coeff_wf(a);
    lemma_coeff_wf(b);
    let f = term(a, b, k);
    assert forall|i: int| 0 <= i < k + 1 implies #[trigger] f(i) == T::zero_spec() by {
        if i < a.len() {
            assert(coeff(b, k - i) == T::zero_spec());
            lemma_mul_zero(coeff(a, i));
        } else {
            lemma_mul_zero(coeff(b, k - i));
        }
    }
    lemma_sum_zero(f, (k + 1) as nat);
}

/// The highest coefficient of a product is the product of the highest
/// coefficients.
pub proof fn lemma_conv_top<T: Field>(a: Seq<T>, b: Seq<T>)
    requires
        all_wf(a),
        all_wf(b),
        a.len() >= 1,
        b.len() >= 1,
    ensures
        conv(a, b, a.len() + b.len() - 2) == a.last().mul_spec(b.last()),
{
    let k = a.len() + b.len() - 2;
    let n = (k + 1) as nat;
    let j = a.len() - 1;
    let f = term(a, b, k);
    lemma_coeff_wf(a);
    lemma_coeff_wf(b);
    T::lemma_closed(a.last(), b.last());
    assert forall|i: int| 0 <= i < n && i != j implies #[trigger] f(i) == T::zero_spec() by {
        if i < j {
            assert(coeff(b, k - i) == T::zero_spec());
            lemma_mul_zero(coeff(a, i));
        } else {
            lemma_mul_zero(coeff(b, k - i));
        }
    }
    lemma_sum_single(f, n, j);
}

/// The product of two polynomials is a polynomial, whose coefficients are
/// given by the convolution.
pub proof fn lemma_poly_mul<T: Field>(a: Seq<T>, b: Seq<T>)
    requires
        all_wf(a),
        all_wf(b),
    ensures
        is_poly(poly_mul(a, b)),
        forall|k: int| #[trigger] coeff(poly_mul(a, b), k) == conv(a, b, k),
{
    let raw = mul_seq(a, b);
    assert(all_wf(raw)) by {
        assert forall|k: int| 0 <= k < raw.len() implies (#[trigger] raw[k]).wf() by {
            lemma_conv_wf(a, b, k);
        }
    }
    lemma_normalize(raw);
    assert forall|k: int| #[trigger] coeff(poly_mul(a, b), k) == conv(a, b, k) by {
        assert(coeff(normalize(raw), k) == coeff(raw, k));
        if k >= raw.len() {
            lemma_conv_beyond(a, b, k);
        }
    }
}

/// A polynomial that is not the zero polynomial ends in a coefficient that
/// is not zero.
pub proof fn lemma_nonzero_last<T: Field>(a: Seq<T>)
    requires
        canonical(a),
        a != zero_poly::<T>(),
    ensures
        a.last() != T::zero_spec(),
{
    if a.last() == T::zero_spec() {
        assert(a =~= zero_poly::<T>());
    }
}

/// The product of two polynomials that are not zero is not zero, and its
/// length is the sum of their lengths less one.
pub proof fn lemma_poly_mul_nonzero<T: Field>(a: Seq<T>, b: Seq<T>)
    requires
        is_poly(a),
        is_poly(b),
        a != zero_poly::<T>(),
        b != zero_poly::<T>(),
    ensures
        poly_mul(a, b) == mul_seq(a, b),
        poly_mul(a, b).len() == a.len() + b.len() - 1,
        poly_mul(a, b).last() == a.last().mul_spec(b.last()),
        poly_mul(a, b).last() != T::zero_spec(),
        poly_mul(a, b) != zero_poly::<T>(),
{
    let raw = mul_seq(a, b);
    lemma_nonzero_last(a);
    lemma_nonzero_last(b);
    lemma_conv_top(a, b);
    assert(raw.last() == conv(a, b, a.len() + b.len() - 2));
    if a.last().mul_spec(b.last()) == T::zero_spec() {
        lemma_no_zero_divisors(a.last(), b.last());
    }
    assert(canonical(raw));
    lemma_normalize(raw);
}

} // verus!
