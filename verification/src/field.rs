//! The coefficient capability: a field, given by its operations and the
//! axioms they obey.

use vstd::prelude::*;

verus! {

/// A field. Values of the implementing type that satisfy `wf` are the
/// elements; spec equality on them is equality in the field.
///
/// The proof functions are the field axioms. An implementation proves them
/// once; everything stated about polynomials rests on nothing else.
pub trait Field: Sized + Copy {
    /// Whether this value is an element of the field.
    spec fn wf(self) -> bool;

    /// The additive identity.
    spec fn zero_spec() -> Self;

    /// The multiplicative identity.
    spec fn one_spec() -> Self;

    /// The sum of two elements.
    spec fn add_spec(self, rhs: Self) -> Self;

    /// The difference of two elements.
    spec fn sub_spec(self, rhs: Self) -> Self;

    /// The product of two elements.
    spec fn mul_spec(self, rhs: Self) -> Self;

    /// The quotient of two elements; meaningful when `rhs` is not zero.
    spec fn div_spec(self, rhs: Self) -> Self;

    /// The two identities are elements of the field.
    proof fn lemma_identities_wf()
        ensures
            Self::zero_spec().wf(),
            Self::one_spec().wf(),
    ;

    /// The operations stay inside the field.
    proof fn lemma_closed(a: Self, b: Self)
        requires
            a.wf(),
            b.wf(),
        ensures
            a.add_spec(b).wf(),
            a.sub_spec(b).wf(),
            a.mul_spec(b).wf(),
            b != Self::zero_spec() ==> a.div_spec(b).wf(),
    ;

    /// Addition is commutative.
    proof fn lemma_add_comm(a: Self, b: Self)
        requires
            a.wf(),
            b.wf(),
        ensures
            a.add_spec(b) == b.add_spec(a),
    ;

    /// Addition is associative.
    proof fn lemma_add_assoc(a: Self, b: Self, c: Self)
        requires
            a.wf(),
            b.wf(),
            c.wf(),
        ensures
            a.add_spec(b).add_spec(c) == a.add_spec(b.add_spec(c)),
    ;

    /// Zero is neutral for addition.
    proof fn lemma_add_zero(a: Self)
        requires
            a.wf(),
        ensures
            a.add_spec(Self::zero_spec()) == a,
    ;

    /// Subtraction undoes addition.
    proof fn lemma_sub_add(a: Self, b: Self)
        requires
            a.wf(),
            b.wf(),
        ensures
            a.sub_spec(b).add_spec(b) == a,
    ;

    /// Multiplication is commutative.
    proof fn lemma_mul_comm(a: Self, b: Self)
        requires
            a.wf(),
            b.wf(),
        ensures
            a.mul_spec(b) == b.mul_spec(a),
    ;

    /// Multiplication is associative.
    proof fn lemma_mul_assoc(a: Self, b: Self, c: Self)
        requires
            a.wf(),
            b.wf(),
            c.wf(),
        ensures
            a.mul_spec(b).mul_spec(c) == a.mul_spec(b.mul_spec(c)),
    ;

    /// One is neutral for multiplication.
    proof fn lemma_mul_one(a: Self)
        requires
            a.wf(),
        ensures
            a.mul_spec(Self::one_spec()) == a,
    ;

    /// Division by a non-zero element undoes multiplication.
    proof fn lemma_div_mul(a: Self, b: Self)
        requires
            a.wf(),
            b.wf(),
            b != Self::zero_spec(),
        ensures
            a.div_spec(b).mul_spec(b) == a,
    ;

    /// Multiplication distributes over addition.
    proof fn lemma_distrib(a: Self, b: Self, c: Self)
        requires
            a.wf(),
            b.wf(),
            c.wf(),
        ensures
            a.mul_spec(b.add_spec(c)) == a.mul_spec(b).add_spec(a.mul_spec(c)),
    ;

    /// The two identities differ.
    proof fn lemma_one_ne_zero()
        ensures
            Self::one_spec() != Self::zero_spec(),
    ;

    /// Returns the additive identity.
    fn zero() -> (r: Self)
        ensures
            r == Self::zero_spec(),
    ;

    /// Returns the multiplicative identity.
    fn one() -> (r: Self)
        ensures
            r == Self::one_spec(),
    ;

    /// Adds two elements.
    fn add(self, rhs: Self) -> (r: Self)
        requires
            self.wf(),
            rhs.wf(),
        ensures
            r == self.add_spec(rhs),
    ;

    /// Subtracts `rhs` from `self`.
    fn sub(self, rhs: Self) -> (r: Self)
        requires
            self.wf(),
            rhs.wf(),
        ensures
            r == self.sub_spec(rhs),
    ;

    /// Multiplies two elements.
    fn mul(self, rhs: Self) -> (r: Self)
        requires
            self.wf(),
            rhs.wf(),
        ensures
            r == self.mul_spec(rhs),
    ;

    /// Divides `self` by a non-zero `rhs`.
    fn div(self, rhs: Self) -> (r: Self)
        requires
            self.wf(),
            rhs.wf(),
            rhs != Self::zero_spec(),
        ensures
            r == self.div_spec(rhs),
    ;

    /// Decides whether two values are the same.
    fn equals(&self, rhs: &Self) -> (b: bool)
        ensures
            b == (*self == *rhs),
    ;
}

/// The additive inverse of `a`.
pub open spec fn neg<T: Field>(a: T) -> T {
    T::zero_spec().sub_spec(a)
}

/// The negation of an element is an element.
pub proof fn lemma_neg_wf<T: Field>(a: T)
    requires
        a.wf(),
    ensures
        neg(a).wf(),
{
    T::lemma_identities_wf();
    T::lemma_closed(T::zero_spec(), a);
}

/// An element and its negation sum to zero, in either order.
pub proof fn lemma_add_neg<T: Field>(a: T)
    requires
        a.wf(),
    ensures
        neg(a).add_spec(a) == T::zero_spec(),
        a.add_spec(neg(a)) == T::zero_spec(),
{
    T::lemma_identities_wf();
    lemma_neg_wf(a);
    T::lemma_sub_add(T::zero_spec(), a);
    T::lemma_add_comm(a, neg(a));
}

/// Zero is neutral on the left as well.
pub proof fn lemma_zero_add<T: Field>(a: T)
    requires
        a.wf(),
    ensures
        T::zero_spec().add_spec(a) == a,
{
    T::lemma_identities_wf();
    T::lemma_add_zero(a);
    T::lemma_add_comm(a, T::zero_spec());
}

/// Addition can be cancelled.
pub proof fn lemma_add_cancel<T: Field>(a: T, b: T, c: T)
    requires
        a.wf(),
        b.wf(),
        c.wf(),
        a.add_spec(c) == b.add_spec(c),
    ensures
        a == b,
{
    let n = neg(c);
    lemma_neg_wf(c);
    lemma_add_neg(c);
    T::lemma_add_assoc(a, c, n);
    T::lemma_add_assoc(b, c, n);
    T::lemma_add_zero(a);
    T::lemma_add_zero(b);
}

/// Subtracting is adding the negation.
pub proof fn lemma_sub_is_add_neg<T: Field>(a: T, b: T)
    requires
        a.wf(),
        b.wf(),
    ensures
        a.sub_spec(b) == a.add_spec(neg(b)),
{
    let n = neg(b);
    lemma_neg_wf(b);
    lemma_add_neg(b);
    T::lemma_closed(a, b);
    T::lemma_closed(a, n);
    T::lemma_sub_add(a, b);
    T::lemma_add_assoc(a, n, b);
    T::lemma_add_zero(a);
    lemma_add_cancel(a.sub_spec(b), a.add_spec(n), b);
}

/// The negation of zero is zero.
pub proof fn lemma_neg_zero<T: Field>()
    ensures
        neg(T::zero_spec()) == T::zero_spec(),
{
    let z = T::zero_spec();
    T::lemma_identities_wf();
    lemma_neg_wf(z);
    lemma_add_neg(z);
    T::lemma_add_zero(neg(z));
}

/// A product with zero is zero, on either side.
pub proof fn lemma_mul_zero<T: Field>(a: T)
    requires
        a.wf(),
    ensures
        a.mul_spec(T::zero_spec()) == T::zero_spec(),
        T::zero_spec().mul_spec(a) == T::zero_spec(),
{
    let z = T::zero_spec();
    T::lemma_identities_wf();
    T::lemma_closed(a, z);
    let p = a.mul_spec(z);
    T::lemma_add_zero(z);
    T::lemma_distrib(a, z, z);
    lemma_zero_add(p);
    lemma_add_cancel(p, z, p);
    T::lemma_mul_comm(a, z);
}

/// Multiplication distributes over addition from the right.
pub proof fn lemma_distrib_right<T: Field>(a: T, b: T, c: T)
    requires
        a.wf(),
        b.wf(),
        c.wf(),
    ensures
        a.add_spec(b).mul_spec(c) == a.mul_spec(c).add_spec(b.mul_spec(c)),
{
    T::lemma_closed(a, b);
    T::lemma_mul_comm(a.add_spec(b), c);
    T::lemma_distrib(c, a, b);
    T::lemma_mul_comm(c, a);
    T::lemma_mul_comm(c, b);
}

/// The sum of two sums may be regrouped crosswise.
pub proof fn lemma_four_swap<T: Field>(a: T, b: T, c: T, d: T)
    requires
        a.wf(),
        b.wf(),
        c.wf(),
        d.wf(),
    ensures
        a.add_spec(b).add_spec(c.add_spec(d)) == a.add_spec(c).add_spec(b.add_spec(d)),
{
    T::lemma_closed(a, b);
    T::lemma_closed(c, d);
    T::lemma_closed(a, c);
    T::lemma_closed(b, d);
    T::lemma_closed(b, c);
    T::lemma_closed(c, b);
    // (a + b) + (c + d) == a + (b + (c + d)) == a + ((b + c) + d)
    T::lemma_add_assoc(a, b, c.add_spec(d));
    T::lemma_add_assoc(b, c, d);
    T::lemma_add_comm(b, c);
    T::lemma_add_assoc(c, b, d);
    T::lemma_add_assoc(a, c, b.add_spec(d));
}

/// A field has no zero divisors.
pub proof fn lemma_no_zero_divisors<T: Field>(a: T, b: T)
    requires
        a.wf(),
        b.wf(),
        a.mul_spec(b) == T::zero_spec(),
    ensures
        a == T::zero_spec() || b == T::zero_spec(),
{
    if b != T::zero_spec() {
        let one = T::one_spec();
        T::lemma_identities_wf();
        let inv = one.div_spec(b);
        T::lemma_closed(one, b);
        T::lemma_div_mul(one, b);
        T::lemma_mul_comm(inv, b);
        T::lemma_mul_assoc(a, b, inv);
        T::lemma_mul_one(a);
        lemma_mul_zero(inv);
    }
}

} // verus!
