//! The prime field of integers modulo 2^31 - 1, as a coefficient type.

use crate::field::Field;
use vstd::arithmetic::div_mod::{
    lemma_add_mod_noop, lemma_fundamental_div_mod, lemma_mod_multiples_vanish,
    lemma_mul_mod_noop_left, lemma_mul_mod_noop_right, lemma_small_mod,
};
use vstd::arithmetic::mul::{
    lemma_mul_is_associative, lemma_mul_is_commutative, lemma_mul_is_distributive_add,
};
use vstd::prelude::*;

verus! {

/// The modulus, the Mersenne prime 2^31 - 1.
pub const MODULUS: u64 = 2147483647;

/// No product of a factor below 2^16 and a second factor, both at least 2,
/// is the modulus.
#[verifier::rlimit(30)]
proof fn lemma_no_small_factor(d: u16, k: u32)
    by (bit_vector)
    requires
        2 <= d,
        2 <= k,
    ensures
        (d as u64) * (k as u64) != 2147483647u64,
{
}

/// The modulus is prime: nothing strictly between 1 and it divides it.
pub proof fn lemma_modulus_prime(x: int)
    requires
        2 <= x < MODULUS,
    ensures
        MODULUS as int % x != 0,
{
    let p = MODULUS as int;
    if p % x == 0 {
        let k = p / x;
        lemma_fundamental_div_mod(p, x);
        assert(p == x * k);
        assert(2 <= k < p) by (nonlinear_arith)
            requires
                p == x * k,
                2 <= x < p,
                p == 2147483647,
        ;
        assert(x < 65536 || k < 65536) by (nonlinear_arith)
            requires
                p == x * k,
                0 < x,
                0 < k,
                p == 2147483647,
        ;
        if x < 65536 {
            lemma_no_small_factor(x as u16, k as u32);
            assert((x as u16 as u64) * (k as u32 as u64) == x * k);
        } else {
            lemma_no_small_factor(k as u16, x as u32);
            assert((k as u16 as u64) * (x as u32 as u64) == k * x);
            lemma_mul_is_commutative(k, x);
        }
    }
}

/// Whether `y` is a multiplicative inverse of `x` modulo the modulus.
pub open spec fn is_inverse(x: int, y: int) -> bool {
    0 <= y < MODULUS && (x * y) % (MODULUS as int) == 1
}

/// The multiplicative inverse of a non-zero residue `x`.
pub open spec fn inverse(x: int) -> int {
    choose|y: int| is_inverse(x, y)
}

/// A residue has at most one inverse.
pub proof fn lemma_inverse_unique(x: int, y: int, z: int)
    requires
        is_inverse(x, y),
        is_inverse(x, z),
    ensures
        y == z,
{
    let p = MODULUS as int;
    // y == y * (x * z) == (y * x) * z == z, modulo p
    lemma_mul_mod_noop_right(y, x * z, p);
    lemma_mul_is_associative(y, x, z);
    lemma_mul_is_commutative(y, x);
    lemma_mul_mod_noop_left(x * y, z, p);
    lemma_small_mod(y as nat, p as nat);
    lemma_small_mod(z as nat, p as nat);
    assert(y * 1 == y);
    assert(1 * z == z);
}

/// The inverse by descent: from `x` to the remainder of the modulus by `x`,
/// which is smaller and, the modulus being prime, not zero.
pub closed spec fn inverse_by_descent(x: int) -> int
    decreases x,
{
    if x <= 1 {
        1
    } else {
        ((MODULUS - MODULUS as int / x) * inverse_by_descent(MODULUS as int % x)) % (
        MODULUS as int)
    }
}

/// One step of the descent keeps the product with `x` congruent to the
/// product of the remainder with its own inverse.
proof fn lemma_descent_step(x: int, i: int)
    requires
        2 <= x < MODULUS,
    ensures
        (x * (((MODULUS - MODULUS as int / x) * i) % (MODULUS as int))) % (MODULUS as int) == ((
        MODULUS as int % x) * i) % (MODULUS as int),
{
    let p = MODULUS as int;
    let q = p / x;
    let r = p % x;
    lemma_fundamental_div_mod(p, x);
    lemma_mul_mod_noop_right(x, (p - q) * i, p);
    assert(x * ((p - q) * i) == p * ((x - 1) * i) + r * i) by (nonlinear_arith)
        requires
            p == x * q + r,
    ;
    lemma_mod_multiples_vanish((x - 1) * i, r * i, p);
}

/// The descent computes the inverse of every non-zero residue.
pub proof fn lemma_inverse_by_descent(x: int)
    requires
        1 <= x < MODULUS,
    ensures
        is_inverse(x, inverse_by_descent(x)),
        inverse_by_descent(x) == inverse(x),
    decreases x,
{
    let p = MODULUS as int;
    if x == 1 {
        assert(is_inverse(1, 1));
    } else {
        let r = p % x;
        lemma_modulus_prime(x);
        lemma_inverse_by_descent(r);
        lemma_descent_step(x, inverse_by_descent(r));
    }
    assert(is_inverse(x, inverse_by_descent(x)));
    assert(is_inverse(x, inverse(x)));
    lemma_inverse_unique(x, inverse_by_descent(x), inverse(x));
}

/// Every non-zero residue has an inverse.
pub proof fn lemma_inverse(x: int)
    requires
        1 <= x < MODULUS,
    ensures
        is_inverse(x, inverse(x)),
{
    lemma_inverse_by_descent(x);
}

/// `<u64 as num_traits::Zero>::zero()`, which returns the additive identity
/// of `u64`: the number 0.
#[verifier::external_body]
fn zero_u64() -> (r: u64)
    ensures
        r == 0,
{
    num_traits::Zero::zero()
}

/// `<u64 as num_traits::One>::one()`, which returns the multiplicative
/// identity of `u64`: the number 1.
#[verifier::external_body]
fn one_u64() -> (r: u64)
    ensures
        r == 1,
{
    num_traits::One::one()
}

/// Computes the inverse of a non-zero residue.
fn invert(x: u64) -> (r: u64)
    requires
        1 <= x < MODULUS,
    ensures
        r == inverse(x as int),
        is_inverse(x as int, r as int),
{
    let mut c: u64 = 1;
    let mut y: u64 = x;
    proof {
        lemma_inverse_by_descent(x as int);
        lemma_small_mod(inverse_by_descent(x as int) as nat, MODULUS as nat);
        assert(1 * inverse_by_descent(y as int) == inverse_by_descent(y as int));
    }
    while y > 1
        invariant
            1 <= y <= x < MODULUS,
            c < MODULUS,
            (c * inverse_by_descent(y as int)) % (MODULUS as int) == inverse_by_descent(x as int),
        decreases y,
    {
        let q: u64 = MODULUS / y;
        let r: u64 = MODULUS % y;
        let f: u64 = MODULUS - q;
        proof {
            let p = MODULUS as int;
            let i = inverse_by_descent(r as int);
            lemma_modulus_prime(y as int);
            assert(inverse_by_descent(y as int) == (f * i) % p);
            lemma_mul_mod_noop_right(c as int, f * i, p);
            lemma_mul_is_associative(c as int, f as int, i);
            lemma_mul_mod_noop_left(c * f, i, p);
            assert(c * f < 0x4000_0000_0000_0000) by (nonlinear_arith)
                requires
                    c < 0x8000_0000,
                    f < 0x8000_0000,
            ;
        }
        c = (c * f) % MODULUS;
        y = r;
    }
    proof {
        assert(c * 1 == c);
        lemma_small_mod(c as nat, MODULUS as nat);
        lemma_inverse_by_descent(x as int);
    }
    c
}

/// An element of the field of integers modulo `MODULUS`, held as its least
/// non-negative residue.
#[derive(Clone, Copy, Debug, PartialEq, Eq, Structural)]
pub struct Fp {
    /// The residue; below `MODULUS` in every element of the field.
    pub v: u64,
}

impl Fp {
    /// The element that an integer stands for: its residue.
    pub open spec fn of_int(x: int) -> Fp {
        Fp { v: (x % (MODULUS as int)) as u64 }
    }

    /// Reduces an integer into the field.
    pub fn from_i64(x: i64) -> (r: Fp)
        ensures
            r == Fp::of_int(x as int),
            r.wf(),
    {
        if x >= 0 {
            Fp { v: (x as u64) % MODULUS }
        } else {
            let below: u64 = (-(x + 1)) as u64;
            let m: u64 = below % MODULUS;
            proof {
                let p = MODULUS as int;
                // x == -below - 1 and below == p * (below / p) + m
                lemma_fundamental_div_mod(below as int, p);
                lemma_mod_multiples_vanish(-(below as int / p) - 1, p - 1 - m, p);
                lemma_small_mod((p - 1 - m) as nat, p as nat);
                assert(p * (-(below as int / p) - 1) + (p - 1 - m) == x) by (nonlinear_arith)
                    requires
                        below == p * (below as int / p) + m,
                        x == -below - 1,
                ;
            }
            Fp { v: MODULUS - 1 - m }
        }
    }

    /// The least non-negative residue of this element.
    pub fn value(&self) -> (r: u64)
        ensures
            r == self.v,
    {
        self.v
    }
}

impl Field for Fp {
    open spec fn wf(self) -> bool {
        self.v < MODULUS
    }

    open spec fn zero_spec() -> Fp {
        Fp { v: 0 }
    }

    open spec fn one_spec() -> Fp {
        Fp { v: 1 }
    }

    open spec fn add_spec(self, rhs: Fp) -> Fp {
        Fp::of_int(self.v + rhs.v)
    }

    open spec fn sub_spec(self, rhs: Fp) -> Fp {
        Fp::of_int(self.v - rhs.v)
    }

    open spec fn mul_spec(self, rhs: Fp) -> Fp {
        Fp::of_int(self.v * rhs.v)
    }

    open spec fn div_spec(self, rhs: Fp) -> Fp {
        Fp::of_int(self.v * inverse(rhs.v as int))
    }

    proof fn lemma_identities_wf() {
    }

    proof fn lemma_closed(a: Fp, b: Fp) {
    }

    proof fn lemma_add_comm(a: Fp, b: Fp) {
    }

    proof fn lemma_add_assoc(a: Fp, b: Fp, c: Fp) {
        let p = MODULUS as int;
        lemma_add_mod_noop(a.v + b.v, c.v as int, p);
        lemma_add_mod_noop(a.v as int, b.v + c.v, p);
        lemma_small_mod(a.v as nat, p as nat);
        lemma_small_mod(c.v as nat, p as nat);
    }

    proof fn lemma_add_zero(a: Fp) {
    }

    proof fn lemma_sub_add(a: Fp, b: Fp) {
        let p = MODULUS as int;
        lemma_add_mod_noop(a.v - b.v, b.v as int, p);
        lemma_small_mod(b.v as nat, p as nat);
        lemma_small_mod(a.v as nat, p as nat);
    }

    proof fn lemma_mul_comm(a: Fp, b: Fp) {
        lemma_mul_is_commutative(a.v as int, b.v as int);
    }

    proof fn lemma_mul_assoc(a: Fp, b: Fp, c: Fp) {
        let p = MODULUS as int;
        lemma_mul_mod_noop_left(a.v * b.v, c.v as int, p);
        lemma_mul_mod_noop_right(a.v as int, b.v * c.v, p);
        lemma_mul_is_associative(a.v as int, b.v as int, c.v as int);
    }

    proof fn lemma_mul_one(a: Fp) {
        assert(a.v * 1 == a.v);
    }

    proof fn lemma_div_mul(a: Fp, b: Fp) {
        let p = MODULUS as int;
        let i = inverse(b.v as int);
        lemma_inverse(b.v as int);
        // (a * i) * b == a * (i * b), and i * b is 1 modulo p
        lemma_mul_mod_noop_left(a.v * i, b.v as int, p);
        lemma_mul_is_associative(a.v as int, i, b.v as int);
        lemma_mul_is_commutative(i, b.v as int);
        lemma_mul_mod_noop_right(a.v as int, b.v * i, p);
        assert(a.v * 1 == a.v);
        lemma_small_mod(a.v as nat, p as nat);
    }

    proof fn lemma_distrib(a: Fp, b: Fp, c: Fp) {
        let p = MODULUS as int;
        lemma_mul_mod_noop_right(a.v as int, b.v + c.v, p);
        lemma_mul_is_distributive_add(a.v as int, b.v as int, c.v as int);
        lemma_add_mod_noop(a.v * b.v, a.v * c.v, p);
    }

    proof fn lemma_one_ne_zero() {
    }

    fn zero() -> Fp {
        Fp { v: zero_u64() }
    }

    fn one() -> Fp {
        Fp { v: one_u64() }
    }

    fn add(self, rhs: Fp) -> Fp {
        Fp { v: (self.v + rhs.v) % MODULUS }
    }

    fn sub(self, rhs: Fp) -> Fp {
        proof {
            let p = MODULUS as int;
            lemma_mod_multiples_vanish(1, self.v - rhs.v, p);
        }
        Fp { v: (self.v + MODULUS - rhs.v) % MODULUS }
    }

    fn mul(self, rhs: Fp) -> Fp {
        proof {
            assert(self.v * rhs.v < 0x4000_0000_0000_0000) by (nonlinear_arith)
                requires
                    self.v < 0x8000_0000,
                    rhs.v < 0x8000_0000,
            ;
        }
        Fp { v: (self.v * rhs.v) % MODULUS }
    }

    fn div(self, rhs: Fp) -> Fp {
        let i = invert(rhs.v);
        proof {
            assert(self.v * i < 0x4000_0000_0000_0000) by (nonlinear_arith)
                requires
                    self.v < 0x8000_0000,
                    i < 0x8000_0000,
            ;
        }
        Fp { v: (self.v * i) % MODULUS }
    }

    fn equals(&self, rhs: &Fp) -> bool {
        self.v == rhs.v
    }
}

} // verus!
