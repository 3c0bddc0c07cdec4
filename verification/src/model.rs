//! The mathematical model of a polynomial: its sequence of coefficients,
//! lowest degree first, and the operations on such sequences.

use crate::field::{
    lemma_add_neg, lemma_neg_wf, lemma_neg_zero, lemma_sub_is_add_neg, lemma_zero_add, neg, Field,
};
use vstd::prelude::*;

verus! {

/// The coefficient of `x^i`: the entry at `i`, and zero outside the sequence.
pub open spec fn coeff<T: Field>(s: Seq<T>, i: int) -> T {
    if 0 <= i < s.len() {
        s[i]
    } else {
        T::zero_spec()
    }
}

/// Whether every entry is an element of the field.
pub open spec fn all_wf<T: Field>(s: Seq<T>) -> bool {
    forall|i: int| 0 <= i < s.len() ==> (#[trigger] s[i]).wf()
}

/// Canonical form: not empty, and the last entry is not zero unless the
/// sequence is the single zero that stands for the zero polynomial.
pub open spec fn canonical<T: Field>(s: Seq<T>) -> bool {
    s.len() >= 1 && (s.last() != T::zero_spec() || s.len() == 1)
}

/// Whether a sequence is a polynomial: canonical, with entries in the field.
pub open spec fn is_poly<T: Field>(s: Seq<T>) -> bool {
    canonical(s) && all_wf(s)
}

/// The zero polynomial.
pub open spec fn zero_poly<T: Field>() -> Seq<T> {
    seq![T::zero_spec()]
}

/// The constant polynomial one.
pub open spec fn one_poly<T: Field>() -> Seq<T> {
    seq![T::one_spec()]
}

/// The degree: one less than the number of coefficients.
pub open spec fn degree<T: Field>(s: Seq<T>) -> int {
    s.len() - 1
}

/// The sequence without its trailing zeros; the zero polynomial if nothing
/// is left.
pub open spec fn normalize<T: Field>(s: Seq<T>) -> Seq<T>
    decreases s.len(),
{
    if s.len() == 0 {
        zero_poly()
    } else if s.last() == T::zero_spec() {
        normalize(s.drop_last())
    } else {
        s
    }
}

/// Entrywise sum, the shorter sequence running out first.
pub open spec fn add_seq<T: Field>(a: Seq<T>, b: Seq<T>) -> Seq<T> {
    Seq::new(
        if a.len() >= b.len() {
            a.len()
        } else {
            b.len()
        },
        |i: int|
            if i < a.len() && i < b.len() {
                a[i].add_spec(b[i])
            } else if i < a.len() {
                a[i]
            } else {
                b[i]
            },
    )
}

/// Entrywise negation.
pub open spec fn neg_seq<T: Field>(a: Seq<T>) -> Seq<T> {
    Seq::new(a.len(), |i: int| neg(a[i]))
}

/// The sum of two polynomials.
pub open spec fn poly_add<T: Field>(a: Seq<T>, b: Seq<T>) -> Seq<T> {
    normalize(add_seq(a, b))
}

/// The additive inverse of a polynomial.
pub open spec fn poly_neg<T: Field>(a: Seq<T>) -> Seq<T> {
    normalize(neg_seq(a))
}

/// The difference of two polynomials.
pub open spec fn poly_sub<T: Field>(a: Seq<T>, b: Seq<T>) -> Seq<T> {
    poly_add(a, poly_neg(b))
}

/// The coefficients of `c * x^d` before trailing zeros are removed.
pub open spec fn monomial_seq<T: Field>(c: T, d: nat) -> Seq<T> {
    Seq::new(
        d + 1,
        |i: int|
            if i == d {
                c
            } else {
                T::zero_spec()
            },
    )
}

/// The polynomial `c * x^d`.
pub open spec fn monomial<T: Field>(c: T, d: nat) -> Seq<T> {
    normalize(monomial_seq(c, d))
}

/// Every coefficient of a sequence of field elements is a field element.
pub proof fn lemma_coeff_wf<T: Field>(s: Seq<T>)
    requires
        all_wf(s),
    ensures
        forall|i: int| (#[trigger] coeff(s, i)).wf(),
{
    T::lemma_identities_wf();
}

/// Normalizing gives a canonical sequence with the same coefficients, and
/// changes nothing in a sequence that is canonical already.
pub proof fn lemma_normalize<T: Field>(s: Seq<T>)
    ensures
        canonical(normalize(s)),
        normalize(s).len() <= s.len() || normalize(s).len() == 1,
        forall|i: int| #[trigger] coeff(normalize(s), i) == coeff(s, i),
        all_wf(s) ==> all_wf(normalize(s)),
        canonical(s) ==> normalize(s) == s,
    decreases s.len(),
{
    T::lemma_identities_wf();
    if s.len() == 0 {
    } else if s.last() == T::zero_spec() {
        lemma_normalize(s.drop_last());
        assert forall|i: int| #[trigger] coeff(normalize(s), i) == coeff(s, i) by {
            assert(coeff(normalize(s.drop_last()), i) == coeff(s.drop_last(), i));
        }
        if canonical(s) {
            assert(s.drop_last().len() == 0);
            assert(normalize(s) =~= s);
        }
    } else {
    }
}

/// Two canonical sequences with the same coefficients are the same.
pub proof fn lemma_poly_ext<T: Field>(s: Seq<T>, t: Seq<T>)
    requires
        canonical(s),
        canonical(t),
        forall|i: int| 0 <= i ==> coeff(s, i) == coeff(t, i),
    ensures
        s == t,
{
    if s.len() < t.len() {
        assert(coeff(s, t.len() - 1) == coeff(t, t.len() - 1));
    } else if t.len() < s.len() {
        assert(coeff(s, s.len() - 1) == coeff(t, s.len() - 1));
    }
    assert forall|i: int| 0 <= i < s.len() implies s[i] == t[i] by {
        assert(coeff(s, i) == coeff(t, i));
    }
    assert(s =~= t);
}

/// A canonical sequence all of whose coefficients are zero is the zero
/// polynomial.
pub proof fn lemma_zero_ext<T: Field>(s: Seq<T>)
    requires
        canonical(s),
        forall|i: int| 0 <= i ==> coeff(s, i) == T::zero_spec(),
    ensures
        s == zero_poly::<T>(),
{
    assert forall|i: int| 0 <= i implies coeff(s, i) == coeff(zero_poly::<T>(), i) by {}
    lemma_poly_ext(s, zero_poly::<T>());
}

/// The sum of two polynomials is a polynomial, whose coefficients are the
/// sums of theirs.
pub proof fn lemma_poly_add<T: Field>(a: Seq<T>, b: Seq<T>)
    requires
        all_wf(a),
        all_wf(b),
    ensures
        is_poly(poly_add(a, b)),
        forall|i: int| #[trigger] coeff(poly_add(a, b), i) == coeff(a, i).add_spec(coeff(b, i)),
{
    let raw = add_seq(a, b);
    T::lemma_identities_wf();
    assert(all_wf(raw)) by {
        assert forall|i: int| 0 <= i < raw.len() implies (#[trigger] raw[i]).wf() by {
            if i < a.len() && i < b.len() {
                T::lemma_closed(a[i], b[i]);
            }
        }
    }
    lemma_normalize(raw);
    assert forall|i: int| #[trigger]
        coeff(poly_add(a, b), i) == coeff(a, i).add_spec(coeff(b, i)) by {
        assert(coeff(normalize(raw), i) == coeff(raw, i));
        lemma_coeff_wf(a);
        lemma_coeff_wf(b);
        T::lemma_add_zero(coeff(a, i));
        lemma_zero_add(coeff(b, i));
    }
}

/// The negation of a polynomial is a polynomial, whose coefficients are the
/// negations of its own.
pub proof fn lemma_poly_neg<T: Field>(a: Seq<T>)
    requires
        all_wf(a),
    ensures
        is_poly(poly_neg(a)),
        forall|i: int| #[trigger] coeff(poly_neg(a), i) == neg(coeff(a, i)),
{
    let raw = neg_seq(a);
    assert(all_wf(raw)) by {
        assert forall|i: int| 0 <= i < raw.len() implies (#[trigger] raw[i]).wf() by {
            lemma_neg_wf(a[i]);
        }
    }
    lemma_normalize(raw);
    assert forall|i: int| #[trigger] coeff(poly_neg(a), i) == neg(coeff(a, i)) by {
        assert(coeff(normalize(raw), i) == coeff(raw, i));
        lemma_neg_zero::<T>();
    }
}

/// The difference of two polynomials is a polynomial, whose coefficients are
/// the differences of theirs.
pub proof fn lemma_poly_sub<T: Field>(a: Seq<T>, b: Seq<T>)
    requires
        all_wf(a),
        all_wf(b),
    ensures
        is_poly(poly_sub(a, b)),
        forall|i: int| #[trigger]
            coeff(poly_sub(a, b), i) == coeff(a, i).add_spec(neg(coeff(b, i))),
        forall|i: int| #[trigger] coeff(poly_sub(a, b), i) == coeff(a, i).sub_spec(coeff(b, i)),
{
    lemma_poly_neg(b);
    lemma_poly_add(a, poly_neg(b));
    assert forall|i: int| #[trigger]
        coeff(poly_sub(a, b), i) == coeff(a, i).sub_spec(coeff(b, i)) by {
        lemma_coeff_wf(a);
        lemma_coeff_wf(b);
        assert(coeff(poly_neg(b), i) == neg(coeff(b, i)));
        lemma_sub_is_add_neg(coeff(a, i), coeff(b, i));
    }
}

/// Negating a polynomial keeps its length: no leading term can cancel.
pub proof fn lemma_poly_neg_len<T: Field>(a: Seq<T>)
    requires
        is_poly(a),
    ensures
        poly_neg(a) == neg_seq(a),
        poly_neg(a).len() == a.len(),
{
    let raw = neg_seq(a);
    lemma_normalize(raw);
    if raw.last() == T::zero_spec() {
        // then a.last() is zero as well, so a is the zero polynomial
        let x = a.last();
        assert(raw.last() == neg(x));
        lemma_add_neg(x);
        T::lemma_add_zero(x);
        assert(x == T::zero_spec());
    }
}

/// A monomial is a polynomial with at most one coefficient that is not zero.
pub proof fn lemma_monomial<T: Field>(c: T, d: nat)
    requires
        c.wf(),
    ensures
        is_poly(monomial(c, d)),
        forall|i: int| #[trigger]
            coeff(monomial(c, d), i) == if i == d {
                c
            } else {
                T::zero_spec()
            },
        c != T::zero_spec() ==> monomial(c, d) == monomial_seq(c, d),
        c == T::zero_spec() ==> monomial(c, d) == zero_poly::<T>(),
{
    let raw = monomial_seq(c, d);
    T::lemma_identities_wf();
    lemma_normalize(raw);
    assert forall|i: int| #[trigger]
        coeff(monomial(c, d), i) == if i == d {
            c
        } else {
            T::zero_spec()
        } by {
        assert(coeff(normalize(raw), i) == coeff(raw, i));
    }
    if c == T::zero_spec() {
        lemma_zero_ext(monomial(c, d));
    }
}

} // verus!
