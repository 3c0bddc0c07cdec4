use unipoly::field::Field;
use unipoly::prime_field::{Fp, MODULUS};

#[test]
fn modulus_is_the_mersenne_prime() {
    assert_eq!(MODULUS, (1u64 << 31) - 1);
}

#[test]
fn identities_are_zero_and_one() {
    assert_eq!(Fp::zero().value(), 0);
    assert_eq!(Fp::one().value(), 1);
    assert!(Fp::zero() != Fp::one());
}

#[test]
fn from_i64_reduces() {
    assert_eq!(Fp::from_i64(0).value(), 0);
    assert_eq!(Fp::from_i64(5).value(), 5);
    assert_eq!(Fp::from_i64(-1).value(), MODULUS - 1);
    assert_eq!(Fp::from_i64(-31).value(), MODULUS - 31);
    assert_eq!(Fp::from_i64(MODULUS as i64).value(), 0);
    assert_eq!(Fp::from_i64(-(MODULUS as i64)).value(), 0);
    assert_eq!(Fp::from_i64(MODULUS as i64 + 3).value(), 3);
    assert_eq!(Fp::from_i64(i64::MAX).value(), (i64::MAX as u64) % MODULUS);
    // i64::MIN = -2^63, and 2^63 = 2 * (2^31)^2, where 2^31 is 1 modulo the modulus
    assert_eq!(Fp::from_i64(i64::MIN).value(), MODULUS - 2);
}

#[test]
fn add_wraps_at_the_modulus() {
    let a = Fp::from_i64(MODULUS as i64 - 1);
    assert_eq!(a.add(Fp::from_i64(1)).value(), 0);
    assert_eq!(a.add(a).value(), MODULUS - 2);
    assert_eq!(Fp::from_i64(2).add(Fp::from_i64(3)).value(), 5);
}

#[test]
fn sub_wraps_below_zero() {
    assert_eq!(Fp::from_i64(2).sub(Fp::from_i64(3)).value(), MODULUS - 1);
    assert_eq!(Fp::from_i64(3).sub(Fp::from_i64(2)).value(), 1);
    assert_eq!(Fp::from_i64(0).sub(Fp::from_i64(0)).value(), 0);
}

#[test]
fn mul_reduces_the_product() {
    assert_eq!(Fp::from_i64(6).mul(Fp::from_i64(7)).value(), 42);
    // (-1) * (-1) = 1
    let m = Fp::from_i64(-1);
    assert_eq!(m.mul(m).value(), 1);
    // 2^16 * 2^16 = 2^32 = 2 * 2^31 = 2
    let t = Fp::from_i64(1 << 16);
    assert_eq!(t.mul(t).value(), 2);
}

#[test]
fn div_is_exact() {
    assert_eq!(Fp::from_i64(42).div(Fp::from_i64(7)).value(), 6);
    assert_eq!(Fp::from_i64(5).div(Fp::from_i64(1)).value(), 5);
    assert_eq!(Fp::from_i64(0).div(Fp::from_i64(9)).value(), 0);
    // 1 / 2 is 2^30, since 2 * 2^30 = 2^31 = 1
    assert_eq!(Fp::from_i64(1).div(Fp::from_i64(2)).value(), 1 << 30);
}

#[test]
fn div_undoes_mul() {
    for a in [1i64, 2, 3, 12345, 2147483646, -7, 65536, 999_999_937] {
        for b in [1i64, 2, 5, 46341, 2147483646, -3, 1 << 30] {
            let x = Fp::from_i64(a);
            let y = Fp::from_i64(b);
            assert_eq!(x.div(y).mul(y), x);
            assert_eq!(x.mul(y).div(y), x);
        }
    }
}

#[test]
fn field_axioms_on_values() {
    let a = Fp::from_i64(123_456_789);
    let b = Fp::from_i64(-987_654_321);
    let c = Fp::from_i64(2_000_000_000);
    assert_eq!(a.add(b), b.add(a));
    assert_eq!(a.add(b).add(c), a.add(b.add(c)));
    assert_eq!(a.add(Fp::zero()), a);
    assert_eq!(a.sub(b).add(b), a);
    assert_eq!(a.mul(b), b.mul(a));
    assert_eq!(a.mul(b).mul(c), a.mul(b.mul(c)));
    assert_eq!(a.mul(Fp::one()), a);
    assert_eq!(a.mul(b.add(c)), a.mul(b).add(a.mul(c)));
}

#[test]
fn equals_compares_residues() {
    assert!(Fp::from_i64(-1).equals(&Fp::from_i64(MODULUS as i64 - 1)));
    assert!(!Fp::from_i64(1).equals(&Fp::from_i64(2)));
}
