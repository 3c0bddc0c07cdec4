//! Polynomials in one variable over a field: the executable type and its
//! operations.

use crate::align::{paired, zip_longest};
use crate::division::{
    is_division, law_division_unique, lemma_div_step, quotient_term, remaining,
};
use crate::field::{lemma_mul_zero, Field};
use crate::laws::{law_add_zero, law_degree_mul, law_mul_one, law_mul_zero};
use crate::model::{
    add_seq, all_wf, canonical, coeff, degree, is_poly, lemma_monomial, lemma_normalize,
    lemma_poly_add, lemma_poly_neg, lemma_poly_neg_len, monomial, monomial_seq, neg_seq,
    normalize, one_poly, poly_add, poly_neg, poly_sub, zero_poly,
};
use crate::product::{
    conv, lemma_conv_rows, lemma_nonzero_last, lemma_poly_mul, lemma_term_wf, mul_len, mul_seq,
    poly_mul, term,
};
use crate::sum::{lemma_sum_wf, sum};
use vstd::prelude::*;

verus! {

/// A polynomial in one variable, held as its coefficients, lowest degree
/// first.
#[derive(Debug)]
pub struct UniPoly<T: Field> {
    pub coeffs: Vec<T>,
}

impl<T: Field> View for UniPoly<T> {
    type V = Seq<T>;

    open spec fn view(&self) -> Seq<T> {
        self.coeffs@
    }
}

impl<T: Field> Clone for UniPoly<T> {
    /// Copies the coefficients.
    fn clone(&self) -> (r: Self)
        ensures
            r@ == self@,
    {
        let mut coeffs: Vec<T> = Vec::new();
        let mut i: usize = 0;
        while i < self.coeffs.len()
            invariant
                i <= self.coeffs.len(),
                coeffs@ == self.coeffs@.take(i as int),
            decreases self.coeffs.len() - i,
        {
            coeffs.push(self.coeffs[i]);
            i += 1;
        }
        UniPoly { coeffs }
    }
}

impl<T: Field> PartialEq for UniPoly<T> {
    /// Compares the coefficient sequences.
    fn eq(&self, other: &Self) -> (b: bool) {
        if self.coeffs.len() != other.coeffs.len() {
            return false;
        }
        let mut i: usize = 0;
        while i < self.coeffs.len()
            invariant
                i <= self.coeffs.len(),
                self.coeffs.len() == other.coeffs.len(),
                self.coeffs@.take(i as int) == other.coeffs@.take(i as int),
            decreases self.coeffs.len() - i,
        {
            if !self.coeffs[i].equals(&other.coeffs[i]) {
                return false;
            }
            i += 1;
        }
        proof {
            assert(self.coeffs@.take(i as int) == self.coeffs@);
            assert(other.coeffs@.take(i as int) == other.coeffs@);
        }
        true
    }
}

impl<T: Field> vstd::std_specs::cmp::PartialEqSpecImpl for UniPoly<T> {
    open spec fn obeys_eq_spec() -> bool {
        true
    }

    open spec fn eq_spec(&self, other: &Self) -> bool {
        self@ == other@
    }
}

impl<T: Field> Eq for UniPoly<T> {}

impl<T: Field> UniPoly<T> {
    /// The invariant of the type: the coefficients are field elements in
    /// canonical form.
    pub open spec fn wf(&self) -> bool {
        is_poly(self@)
    }

    /// Builds the polynomial with the given coefficients, trailing zeros
    /// removed.
    pub fn new(coeffs: Vec<T>) -> (r: UniPoly<T>)
        ensures
            r@ == normalize(coeffs@),
            canonical(r@),
            all_wf(coeffs@) ==> r.wf(),
            r@.len() <= coeffs@.len() || r@.len() == 1,
    {
        let mut coeffs = coeffs;
        let ghost orig = coeffs@;
        let zero = T::zero();
        let mut n: usize = coeffs.len();
        proof {
            assert(orig.take(n as int) == orig);
        }
        while n > 0 && coeffs[n - 1].equals(&zero)
            invariant
                n <= coeffs.len(),
                coeffs@ == orig,
                zero == T::zero_spec(),
                normalize(orig.take(n as int)) == normalize(orig),
            decreases n,
        {
            proof {
                assert(orig.take(n as int).drop_last() == orig.take(n - 1));
            }
            n -= 1;
        }
        coeffs.truncate(n);
        if n == 0 {
            coeffs.push(zero);
        }
        proof {
            lemma_normalize(orig);
            lemma_normalize(orig.take(n as int));
            if n == 0 {
                assert(coeffs@ == zero_poly::<T>());
            } else {
                assert(coeffs@ == orig.take(n as int));
            }
        }
        UniPoly { coeffs }
    }

    /// Whether this is the zero polynomial.
    pub fn is_zero(&self) -> (b: bool)
        ensures
            b == (self@ == zero_poly::<T>()),
    {
        let zero = T::zero();
        let b = self.coeffs.len() == 1 && self.coeffs[0].equals(&zero);
        proof {
            if b {
                assert(self@ =~= zero_poly::<T>());
            }
        }
        b
    }

    /// The sum of two polynomials: coefficients are added position by
    /// position, and what the longer one has beyond the shorter is kept.
    pub fn add(&self, other: &UniPoly<T>) -> (r: UniPoly<T>)
        requires
            all_wf(self@),
            all_wf(other@),
        ensures
            r@ == poly_add(self@, other@),
            r.wf(),
            r@.len() <= self@.len() || r@.len() <= other@.len() || r@.len() == 1,
    {
        let pairs = zip_longest(&self.coeffs, &other.coeffs);
        let mut res: Vec<T> = Vec::new();
        let mut i: usize = 0;
        while i < pairs.len()
            invariant
                i <= pairs.len(),
                pairs@ == paired(self@, other@),
                all_wf(self@),
                all_wf(other@),
                res@ == add_seq(self@, other@).take(i as int),
            decreases pairs.len() - i,
        {
            let ghost before = res@;
            match pairs[i] {
                (Some(l), Some(r)) => {
                    res.push(l.add(r));
                },
                (Some(l), None) => {
                    res.push(l);
                },
                (None, Some(r)) => {
                    res.push(r);
                },
                // the walk ends when both have run out
                (None, None) => {},
            }
            proof {
                let raw = add_seq(self@, other@);
                assert(res@ == before.push(raw[i as int]));
                assert(raw.take(i + 1) == raw.take(i as int).push(raw[i as int]));
            }
            i += 1;
        }
        proof {
            let raw = add_seq(self@, other@);
            assert(raw.take(i as int) == raw);
            lemma_poly_add(self@, other@);
        }
        UniPoly::new(res)
    }

    /// The additive inverse: every coefficient negated.
    pub fn neg(&self) -> (r: UniPoly<T>)
        requires
            all_wf(self@),
        ensures
            r@ == poly_neg(self@),
            r.wf(),
            r@.len() <= self@.len() || r@.len() == 1,
            self.wf() ==> r@.len() == self@.len(),
    {
        let zero = T::zero();
        let mut res: Vec<T> = Vec::new();
        let mut i: usize = 0;
        while i < self.coeffs.len()
            invariant
                i <= self.coeffs.len(),
                zero == T::zero_spec(),
                all_wf(self@),
                res@ == neg_seq(self@).take(i as int),
            decreases self.coeffs.len() - i,
        {
            proof {
                T::lemma_identities_wf();
                let raw = neg_seq(self@);
                assert(raw.take(i + 1) == raw.take(i as int).push(raw[i as int]));
            }
            res.push(zero.sub(self.coeffs[i]));
            i += 1;
        }
        proof {
            let raw = neg_seq(self@);
            assert(raw.take(i as int) == raw);
            lemma_poly_neg(self@);
            if self.wf() {
                lemma_poly_neg_len(self@);
            }
        }
        UniPoly::new(res)
    }

    /// The difference of two polynomials: the first plus the negation of
    /// the second.
    pub fn sub(&self, other: &UniPoly<T>) -> (r: UniPoly<T>)
        requires
            all_wf(self@),
            all_wf(other@),
        ensures
            r@ == poly_sub(self@, other@),
            r.wf(),
            r@.len() <= self@.len() || r@.len() <= other@.len() || r@.len() == 1,
    {
        self.add(&other.neg())
    }

    /// The product of two polynomials: every product of a coefficient of
    /// the one with a coefficient of the other is added in at the sum of
    /// their positions.
    pub fn mul(&self, other: &UniPoly<T>) -> (r: UniPoly<T>)
        requires
            all_wf(self@),
            all_wf(other@),
            mul_len(self@.len(), other@.len()) <= usize::MAX,
        ensures
            r@ == poly_mul(self@, other@),
            r.wf(),
            r@.len() <= mul_len(self@.len(), other@.len()) || r@.len() == 1,
            self.wf() && other.wf() && self@ != zero_poly::<T>() && other@ != zero_poly::<T>()
                ==> degree(r@) == degree(self@) + degree(other@),
    {
        let n: usize = self.coeffs.len();
        let m: usize = other.coeffs.len();
        let len: usize = if n == 0 || m == 0 {
            0
        } else {
            n - 1 + m
        };
        let zero = T::zero();
        let mut res: Vec<T> = Vec::new();
        let mut k: usize = 0;
        while k < len
            invariant
                k <= len,
                zero == T::zero_spec(),
                res@.len() == k,
                forall|x: int| 0 <= x < k ==> res@[x] == sum(term(self@, other@, x), 0),
            decreases len - k,
        {
            res.push(zero);
            k += 1;
        }
        let mut i: usize = 0;
        while i < n
            invariant
                i <= n,
                n == self@.len(),
                m == other@.len(),
                len == mul_len(n as nat, m as nat),
                all_wf(self@),
                all_wf(other@),
                res@.len() == len,
                forall|x: int| 0 <= x < len ==> res@[x] == sum(term(self@, other@, x), i as nat),
            decreases n - i,
        {
            let mut j: usize = 0;
            while j < m
                invariant
                    i < n,
                    j <= m,
                    n == self@.len(),
                    m == other@.len(),
                    len == mul_len(n as nat, m as nat),
                    all_wf(self@),
                    all_wf(other@),
                    res@.len() == len,
                    forall|x: int|
                        0 <= x < len ==> res@[x] == sum(
                            term(self@, other@, x),
                            if i <= x < i + j {
                                (i + 1) as nat
                            } else {
                                i as nat
                            },
                        ),
                decreases m - j,
            {
                let a = self.coeffs[i];
                let b = other.coeffs[j];
                let prev = res[i + j];
                proof {
                    let f = term(self@, other@, i + j);
                    lemma_term_wf(self@, other@, i + j, i as nat);
                    lemma_sum_wf(f, i as nat);
                    T::lemma_closed(a, b);
                    assert(f(i as int) == a.mul_spec(b));
                }
                res.set(i + j, prev.add(a.mul(b)));
                j += 1;
            }
            proof {
                assert forall|x: int| 0 <= x < len implies res@[x] == sum(
                    term(self@, other@, x),
                    (i + 1) as nat,
                ) by {
                    if !(i <= x < i + m) {
                        let f = term(self@, other@, x);
                        lemma_term_wf(self@, other@, x, i as nat);
                        lemma_sum_wf(f, i as nat);
                        assert(coeff(other@, x - i) == T::zero_spec());
                        lemma_mul_zero(self@[i as int]);
                        T::lemma_add_zero(sum(f, i as nat));
                    }
                }
            }
            i += 1;
        }
        proof {
            assert(res@ =~= mul_seq(self@, other@)) by {
                assert forall|x: int| 0 <= x < len implies res@[x] == conv(self@, other@, x) by {
                    lemma_conv_rows(self@, other@, x, n as nat);
                }
            }
            lemma_poly_mul(self@, other@);
            if self.wf() && other.wf() && self@ != zero_poly::<T>() && other@ != zero_poly::<T>() {
                law_degree_mul(self@, other@);
            }
        }
        UniPoly::new(res)
    }

    /// The polynomial `coeff * x^deg`; the zero polynomial if `coeff` is zero.
    pub fn monomial(coeff: T, deg: i64) -> (r: UniPoly<T>)
        requires
            coeff.wf(),
            0 <= deg < usize::MAX,
        ensures
            r@ == monomial(coeff, deg as nat),
            r.wf(),
            r@.len() <= deg + 1,
            coeff == T::zero_spec() ==> r@ == zero_poly::<T>(),
            coeff != T::zero_spec() ==> r@ == monomial_seq(coeff, deg as nat),
    {
        let zero = T::zero();
        let d: usize = deg as usize;
        let mut res: Vec<T> = Vec::new();
        let mut i: usize = 0;
        while i < d
            invariant
                i <= d,
                zero == T::zero_spec(),
                res@ == monomial_seq(coeff, d as nat).take(i as int),
            decreases d - i,
        {
            proof {
                let raw = monomial_seq(coeff, d as nat);
                assert(raw.take(i + 1) == raw.take(i as int).push(raw[i as int]));
            }
            res.push(zero);
            i += 1;
        }
        res.push(coeff);
        proof {
            let raw = monomial_seq(coeff, d as nat);
            assert(raw.take(d as int).push(raw[d as int]) == raw);
            lemma_monomial(coeff, d as nat);
        }
        UniPoly::new(res)
    }

    /// The leading term: the monomial of the last coefficient at the degree.
    pub fn lead_term(&self) -> (r: UniPoly<T>)
        requires
            self@.len() >= 1,
            self@.len() <= i64::MAX,
            all_wf(self@),
        ensures
            r@ == monomial(self@.last(), degree(self@) as nat),
            r.wf(),
    {
        let c = self.coeffs[self.coeffs.len() - 1];
        UniPoly::monomial(c, self.degree())
    }

    /// The quotient of two monomials, read off their last coefficients and
    /// their degrees: `(c1 / c2) * x^(d1 - d2)`.
    pub fn div_mono(&self, other: &UniPoly<T>) -> (r: UniPoly<T>)
        requires
            all_wf(self@),
            all_wf(other@),
            1 <= other@.len() <= self@.len() <= i64::MAX,
            other@.last() != T::zero_spec(),
        ensures
            r@ == monomial(
                self@.last().div_spec(other@.last()),
                (degree(self@) - degree(other@)) as nat,
            ),
            r.wf(),
    {
        let c1 = self.coeffs[self.coeffs.len() - 1];
        let c2 = other.coeffs[other.coeffs.len() - 1];
        proof {
            T::lemma_closed(c1, c2);
        }
        UniPoly::monomial(c1.div(c2), self.degree() - other.degree())
    }

    /// Division with remainder, by long division: as long as the remainder
    /// is not zero and its degree is not below that of `other`, the
    /// quotient of the leading terms moves from the remainder to the
    /// quotient. Returns the quotient and the remainder.
    pub fn div(&self, other: &UniPoly<T>) -> (res: (UniPoly<T>, UniPoly<T>))
        requires
            self.wf(),
            other.wf(),
            other@ != zero_poly::<T>(),
            self@.len() <= i64::MAX,
            other@.len() <= i64::MAX,
        ensures
            res.0.wf(),
            res.1.wf(),
            self@ == poly_add(poly_mul(res.0@, other@), res.1@),
            res.1@ == zero_poly::<T>() || degree(res.1@) < degree(other@),
            is_division(self@, other@, res.0@, res.1@),
            res.0@.len() <= self@.len(),
            res.1@.len() <= self@.len(),
            (self@ == zero_poly::<T>() || degree(self@) < degree(other@)) ==> (res.0@
                == zero_poly::<T>() && res.1@ == self@),
            self@ == other@ ==> (res.0@ == one_poly::<T>() && res.1@ == zero_poly::<T>()),
    {
        proof {
            T::lemma_identities_wf();
        }
        let mut q: UniPoly<T> = UniPoly::monomial(T::zero(), 0);
        let mut r: UniPoly<T> = self.clone();
        let ltg = other.lead_term();
        proof {
            lemma_monomial(T::zero_spec(), 0);
            law_mul_zero(other@);
            law_add_zero(self@);
        }
        while !r.is_zero() && r.degree() >= other.degree()
            invariant
                self.wf(),
                other.wf(),
                q.wf(),
                r.wf(),
                other@ != zero_poly::<T>(),
                ltg@ == monomial(other@.last(), degree(other@) as nat),
                q@.len() <= self@.len(),
                r@.len() <= self@.len() <= i64::MAX,
                other@.len() <= i64::MAX,
                self@ == poly_add(poly_mul(q@, other@), r@),
                (self@ == zero_poly::<T>() || degree(self@) < degree(other@)) ==> (q@
                    == zero_poly::<T>() && r@ == self@),
            decreases remaining(r@),
        {
            proof {
                lemma_nonzero_last(other@);
                lemma_nonzero_last(r@);
                lemma_monomial(other@.last(), degree(other@) as nat);
                lemma_monomial(r@.last(), degree(r@) as nat);
                lemma_div_step(q@, r@, other@);
            }
            let t = r.lead_term().div_mono(&ltg);
            assert(t@ == quotient_term(r@, other@));
            assert(mul_len(t@.len(), other@.len()) == r.coeffs.len());
            q = q.add(&t);
            r = r.sub(&t.mul(other));
        }
        proof {
            if self@ == other@ {
                T::lemma_one_ne_zero();
                law_mul_one(self@);
                law_add_zero(self@);
                law_division_unique(
                    self@,
                    other@,
                    q@,
                    r@,
                    one_poly::<T>(),
                    zero_poly::<T>(),
                );
            }
        }
        (q, r)
    }

    /// The degree: the index of the last coefficient. The zero polynomial
    /// has degree 0.
    pub fn degree(&self) -> (d: i64)
        requires
            self@.len() <= i64::MAX,
        ensures
            d == degree(self@),
    {
        self.coeffs.len() as i64 - 1
    }
}

} // verus!
