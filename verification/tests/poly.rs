use unipoly::field::Field;
use unipoly::poly::UniPoly;
use unipoly::prime_field::Fp;

fn cs(values: &[i64]) -> Vec<Fp> {
    values.iter().map(|&x| Fp::from_i64(x)).collect()
}

fn poly(values: &[i64]) -> UniPoly<Fp> {
    UniPoly::new(cs(values))
}

#[test]
fn test_add() {
    let ex_1 = UniPoly { coeffs: cs(&[1, 2, 3, 4]) };
    let ex_2 = UniPoly { coeffs: cs(&[2, 2, 2, 2]) };
    // Add same degree
    assert_eq!((ex_1.add(&ex_2)).coeffs, cs(&[3, 4, 5, 6]));
    let ex_3 = UniPoly { coeffs: cs(&[1, 2]) };
    // Different degrees
    assert_eq!((ex_1.add(&ex_3)).coeffs, cs(&[2, 4, 3, 4]));

    // subtraction
    assert_eq!((ex_1.sub(&ex_3)).coeffs, cs(&[0, 0, 3, 4]));
}

#[test]
fn test_mult() {
    let ex_1 = UniPoly { coeffs: cs(&[1, 2, 3]) };
    let ex_2 = UniPoly { coeffs: cs(&[2]) };
    assert_eq!((ex_1.mul(&ex_2)).coeffs, cs(&[2, 4, 6]));

    let ex_3 = UniPoly { coeffs: cs(&[2, 3]) };
    assert_eq!((ex_1.mul(&ex_3)).coeffs, cs(&[2, 7, 12, 9]))
}

#[test]
fn test_mon() {
    assert_eq!(UniPoly::monomial(Fp::from_i64(5), 0).coeffs, cs(&[5]));
    assert_eq!(UniPoly::monomial(Fp::zero(), 0), UniPoly::new(cs(&[0])));
}

#[test]
fn test_new() {
    // Test creating a poly correctly deals with trailing zeros.
    assert_eq!(
        UniPoly::new(cs(&[0, 2, 3, 5, 0, 0, 6, 0, 0])).coeffs,
        cs(&[0, 2, 3, 5, 0, 0, 6])
    );
}

#[test]
fn test_div_mono() {
    let x_squared = UniPoly::monomial(Fp::from_i64(1), 2);
    let x = UniPoly::monomial(Fp::from_i64(1), 1);
    let three_x_cubed = UniPoly::monomial(Fp::from_i64(3), 3);
    assert_eq!(x_squared.div_mono(&x), x);
    assert_eq!(
        three_x_cubed.div_mono(&x_squared),
        UniPoly::monomial(Fp::from_i64(3), 1)
    );
}

#[test]
fn test_div_simple() {
    // Test division algo agrees with normal division for simple cases
    let x_squared = UniPoly::monomial(Fp::from_i64(1), 2);
    let x = UniPoly::monomial(Fp::from_i64(1), 1);
    let three_x_cubed = UniPoly::monomial(Fp::from_i64(3), 3);
    assert_eq!(
        x_squared.div(&x),
        (x, UniPoly::monomial(Fp::from_i64(0), 0))
    );
    assert_eq!(
        three_x_cubed.div(&x_squared),
        (
            UniPoly::monomial(Fp::from_i64(3), 1),
            UniPoly::monomial(Fp::from_i64(0), 0)
        )
    );
}

#[test]
fn test_div_long() {
    let cubic = UniPoly::new(cs(&[-3, 2, -4, 1]));
    let lin = UniPoly::new(cs(&[2, 1]));

    let res = UniPoly::new(cs(&[14, -6, 1]));
    let rem = UniPoly::monomial(Fp::from_i64(-31), 0);
    assert_eq!(cubic.div(&lin), (res, rem));
}

#[test]
fn new_of_empty_is_zero() {
    let p = UniPoly::<Fp>::new(Vec::new());
    assert_eq!(p.coeffs, cs(&[0]));
    assert!(p.is_zero());
    assert_eq!(p.degree(), 0);
}

#[test]
fn new_of_zeros_is_zero() {
    let p = poly(&[0, 0, 0]);
    assert_eq!(p.coeffs, cs(&[0]));
    assert!(p.is_zero());
}

#[test]
fn new_keeps_low_zeros() {
    assert_eq!(poly(&[0, 2, 3]).coeffs, cs(&[0, 2, 3]));
}

#[test]
fn new_is_canonical() {
    for input in [
        vec![],
        vec![0],
        vec![0, 0],
        vec![1],
        vec![1, 0],
        vec![0, 1, 0, 0],
        vec![5, 0, 7],
    ] {
        let p = poly(&input);
        let last = *p.coeffs.last().unwrap();
        assert!(last != Fp::zero() || p.coeffs == cs(&[0]));
    }
}

#[test]
fn degree_is_length_less_one() {
    assert_eq!(poly(&[7]).degree(), 0);
    assert_eq!(poly(&[1, 2, 3, 4]).degree(), 3);
    assert_eq!(poly(&[0, 0, 1, 0]).degree(), 2);
}

#[test]
fn is_zero_tells_zero_from_constant() {
    assert!(poly(&[0]).is_zero());
    assert!(!poly(&[1]).is_zero());
    assert!(!poly(&[0, 1]).is_zero());
}

#[test]
fn add_cancels_leading_terms() {
    let a = poly(&[1, 2, 3]);
    let b = poly(&[4, 5, -3]);
    assert_eq!(a.add(&b).coeffs, cs(&[5, 7]));
    let c = poly(&[-1, -2, -3]);
    assert_eq!(a.add(&c).coeffs, cs(&[0]));
}

#[test]
fn add_keeps_the_longer_tail_on_either_side() {
    let short = poly(&[1, 2]);
    let long = poly(&[10, 20, 30, 40]);
    assert_eq!(short.add(&long).coeffs, cs(&[11, 22, 30, 40]));
    assert_eq!(long.add(&short).coeffs, cs(&[11, 22, 30, 40]));
}

#[test]
fn neg_negates_each_coefficient() {
    let a = poly(&[1, -2, 0, 4]);
    assert_eq!(a.neg().coeffs, cs(&[-1, 2, 0, -4]));
    assert_eq!(a.neg().degree(), a.degree());
    assert_eq!(poly(&[0]).neg().coeffs, cs(&[0]));
}

#[test]
fn sub_of_itself_is_zero() {
    let a = poly(&[3, 1, 4, 1, 5]);
    assert!(a.sub(&a).is_zero());
}

#[test]
fn additive_group_on_values() {
    let a = poly(&[1, 2, 3]);
    let b = poly(&[-4, 0, 5, 6]);
    let c = poly(&[7, -8]);
    let zero = poly(&[0]);
    assert_eq!(a.add(&zero), a);
    assert_eq!(zero.add(&a), a);
    assert_eq!(a.add(&a.neg()), zero);
    assert_eq!(a.add(&b), b.add(&a));
    assert_eq!(a.add(&b).add(&c), a.add(&b.add(&c)));
}

#[test]
fn multiplicative_laws_on_values() {
    let a = poly(&[1, 2, 3]);
    let b = poly(&[-4, 0, 5, 6]);
    let c = poly(&[7, -8]);
    let zero = poly(&[0]);
    let one = poly(&[1]);
    assert_eq!(a.mul(&one), a);
    assert_eq!(one.mul(&a), a);
    assert_eq!(a.mul(&zero), zero);
    assert_eq!(zero.mul(&a), zero);
    assert_eq!(a.mul(&b), b.mul(&a));
    assert_eq!(a.mul(&b.add(&c)), a.mul(&b).add(&a.mul(&c)));
}

#[test]
fn mul_exact_coefficients() {
    // (1 + x)(1 - x) = 1 - x^2
    assert_eq!(poly(&[1, 1]).mul(&poly(&[1, -1])).coeffs, cs(&[1, 0, -1]));
    // (x^2)(3 + x) = 3x^2 + x^3
    assert_eq!(poly(&[0, 0, 1]).mul(&poly(&[3, 1])).coeffs, cs(&[0, 0, 3, 1]));
}

#[test]
fn degree_of_product_is_sum_of_degrees() {
    let a = poly(&[1, 2, 3]);
    let b = poly(&[-4, 0, 5, 6]);
    assert_eq!(a.mul(&b).degree(), a.degree() + b.degree());
    let c = poly(&[9]);
    assert_eq!(a.mul(&c).degree(), a.degree());
}

#[test]
fn monomial_exact_coefficients() {
    assert_eq!(UniPoly::monomial(Fp::from_i64(7), 3).coeffs, cs(&[0, 0, 0, 7]));
    assert_eq!(UniPoly::monomial(Fp::from_i64(0), 5).coeffs, cs(&[0]));
    assert_eq!(UniPoly::monomial(Fp::from_i64(-2), 0).coeffs, cs(&[-2]));
}

#[test]
fn lead_term_is_last_coefficient_at_degree() {
    assert_eq!(poly(&[1, 2, 3]).lead_term().coeffs, cs(&[0, 0, 3]));
    assert_eq!(poly(&[5]).lead_term().coeffs, cs(&[5]));
    assert_eq!(poly(&[0]).lead_term().coeffs, cs(&[0]));
}

#[test]
fn div_mono_divides_coefficients_in_the_field() {
    let six_x4 = UniPoly::monomial(Fp::from_i64(6), 4);
    let two_x = UniPoly::monomial(Fp::from_i64(2), 1);
    assert_eq!(six_x4.div_mono(&two_x).coeffs, cs(&[0, 0, 0, 3]));
    // 1 / 2 in the field: the element whose double is 1
    let x = UniPoly::monomial(Fp::from_i64(1), 1);
    let half = x.div_mono(&two_x);
    assert_eq!(half.coeffs.len(), 1);
    assert_eq!(half.coeffs[0].mul(Fp::from_i64(2)), Fp::from_i64(1));
}

#[test]
fn div_of_lower_degree_returns_dividend_as_remainder() {
    let f = poly(&[1, 2]);
    let g = poly(&[1, 2, 3]);
    assert_eq!(f.div(&g), (poly(&[0]), poly(&[1, 2])));
}

#[test]
fn div_of_zero_is_zero() {
    let f = poly(&[0]);
    let g = poly(&[1, 2, 3]);
    assert_eq!(f.div(&g), (poly(&[0]), poly(&[0])));
    let c = poly(&[5]);
    assert_eq!(f.div(&c), (poly(&[0]), poly(&[0])));
}

#[test]
fn div_by_itself_is_one() {
    let f = poly(&[4, 0, -7, 2]);
    assert_eq!(f.div(&f), (poly(&[1]), poly(&[0])));
}

#[test]
fn div_by_same_degree_divides_once() {
    // 2x + 3 = 2 * (x + 1) + 1
    let f = poly(&[3, 2]);
    let g = poly(&[1, 1]);
    assert_eq!(f.div(&g), (poly(&[2]), poly(&[1])));
}

#[test]
fn div_by_constant_scales() {
    let f = poly(&[2, 4, 6]);
    let g = poly(&[2]);
    assert_eq!(f.div(&g), (poly(&[1, 2, 3]), poly(&[0])));
}

#[test]
fn div_by_non_monic_divisor() {
    // 2x^2 + 3x + 1 = (x + 1)(2x + 1)
    let f = poly(&[1, 3, 2]);
    let g = poly(&[1, 2]);
    assert_eq!(f.div(&g), (poly(&[1, 1]), poly(&[0])));
}

#[test]
fn division_identity_on_values() {
    let cases: [(&[i64], &[i64]); 5] = [
        (&[-3, 2, -4, 1], &[2, 1]),
        (&[1, 0, 0, 0, 0, 1], &[1, 1, 1]),
        (&[5, 4, 3, 2, 1], &[7, 0, 3]),
        (&[1, 2], &[3, 4, 5]),
        (&[9, 8, 7], &[6]),
    ];
    for (fs, gs) in cases {
        let f = poly(fs);
        let g = poly(gs);
        let (q, r) = f.div(&g);
        assert_eq!(q.mul(&g).add(&r), f);
        assert!(r.is_zero() || r.degree() < g.degree());
    }
}

#[test]
fn division_is_unique_on_values() {
    // build f from a chosen quotient and remainder, and get them back
    let g = poly(&[3, 0, 2]);
    let q = poly(&[1, -5, 4, 7]);
    let r = poly(&[11, -2]);
    let f = q.mul(&g).add(&r);
    assert_eq!(f.div(&g), (q, r));
}

#[test]
fn equality_compares_coefficients() {
    assert!(poly(&[1, 2, 3]) == poly(&[1, 2, 3, 0]));
    assert!(poly(&[1, 2, 3]) != poly(&[1, 2]));
    assert!(poly(&[1, 2, 3]) != poly(&[1, 2, 4]));
    assert!(poly(&[]) == poly(&[0]));
}

#[test]
fn clone_copies_the_coefficients() {
    let a = poly(&[1, 2, 3]);
    let b = a.clone();
    assert_eq!(a, b);
    assert_eq!(b.coeffs, cs(&[1, 2, 3]));
}
