use ark_std::rand::rngs::StdRng;
use ark_std::rand::SeedableRng;
use fp_blackbox::curve::{pairing, Gt, Scalar, G1, G2};
use fp_blackbox::poly::DensePolynomial;

fn s(x: u64) -> Scalar {
    Scalar::from_u64(x)
}

/// The group order, little-endian.
fn order_le() -> [u8; 32] {
    [
    0x01, 0x00, 0x00, 0x00, 0xff, 0xff, 0xff, 0xff, 0xfe, 0x5b, 0xfe, 0xff, 0x02, 0xa4, 0xbd, 0x53,
    0x05, 0xd8, 0xa1, 0x09, 0x08, 0xd8, 0x39, 0x33, 0x48, 0x7d, 0x9d, 0x29, 0x53, 0xa7, 0xed, 0x73,
    ]
}

#[test]
fn scalar_arithmetic_is_modular() {
    assert_eq!(s(2).add(&s(3)), s(5));
    assert_eq!(s(7).mul(&s(6)), s(42));
    assert_eq!(s(3).sub(&s(5)), s(2).neg());
    assert_eq!(s(5).neg().add(&s(5)), Scalar::zero());
    assert_eq!(Scalar::zero().neg(), Scalar::zero());
    assert!(Scalar::zero().is_zero());
    assert!(!Scalar::one().is_zero());
    assert_eq!(Scalar::one(), s(1));
    assert_eq!(s(4).inverse().mul(&s(4)), Scalar::one());
    assert_eq!(s(1).inverse(), s(1));
}

#[test]
fn scalar_bytes_round_trip() {
    assert_eq!(s(0x0102).to_bytes_le()[..3], [0x02, 0x01, 0x00]);
    let x = s(123456789);
    assert_eq!(Scalar::from_le_bytes_mod_order(&x.to_bytes_le()), x);
    // the order reduces to zero, and the order plus one to one
    assert_eq!(Scalar::from_le_bytes_mod_order(&order_le()), Scalar::zero());
    let mut order_plus_one = order_le();
    order_plus_one[0] = 0x02;
    assert_eq!(Scalar::from_le_bytes_mod_order(&order_plus_one), Scalar::one());
    // minus one is the order less one
    let mut order_minus_one = order_le();
    order_minus_one[0] = 0x00;
    assert_eq!(Scalar::one().neg().to_bytes_le(), order_minus_one);
    // bytes beyond 32 still count
    let mut long = [0u8; 40];
    long[32] = 1;
    let two_256 = Scalar::from_le_bytes_mod_order(&long);
    let mut two_128 = [0u8; 17];
    two_128[16] = 1;
    let t = Scalar::from_le_bytes_mod_order(&two_128);
    assert_eq!(two_256, t.mul(&t));
    assert_eq!(Scalar::from_le_bytes_mod_order(&[]), Scalar::zero());
}

#[test]
fn group_operations_act_on_logarithms() {
    let g = G1::generator();
    let h = G2::generator();
    assert_eq!(g.mul(&s(2)), g.add(&g));
    assert_eq!(g.add(&g.neg()), G1::zero());
    assert_eq!(h.mul(&s(3)), h.add(&h).add(&h));
    assert_eq!(h.neg().add(&h), G2::zero());
    assert_eq!(g.mul(&Scalar::zero()), G1::zero());
    assert!(g.equals(&g.mul(&s(1))));
    assert!(!g.equals(&G1::zero()));
    assert!(h.mul(&s(5)).equals(&h.mul(&s(2)).add(&h.mul(&s(3)))));
    assert!(!h.equals(&h.neg()));
}

#[test]
fn pairing_is_bilinear() {
    let g = G1::generator();
    let h = G2::generator();
    let base = pairing(&g, &h);
    assert_eq!(pairing(&g.mul(&s(3)), &h.mul(&s(5))), pairing(&g.mul(&s(15)), &h));
    assert_eq!(pairing(&g.mul(&s(2)), &h), base.add(&base));
    assert_eq!(pairing(&G1::zero(), &h), Gt::zero());
    assert_eq!(pairing(&g, &G2::zero()), Gt::zero());
    assert!(pairing(&g.neg(), &h).add(&base).equals(&Gt::zero()));
    assert!(!base.equals(&Gt::zero()));
}

#[test]
fn random_elements_are_in_range() {
    let mut rng = StdRng::from_seed([7u8; 32]);
    let a = G1::rand(&mut rng);
    let b = G2::rand(&mut rng);
    let x = Scalar::rand(&mut rng);
    assert_eq!(a.mul(&x).add(&a.mul(&x.neg())), G1::zero());
    assert_eq!(pairing(&a.mul(&x), &b), pairing(&a, &b.mul(&x)));
}

#[test]
fn polynomials_drop_trailing_zeros() {
    let p = DensePolynomial::from_coefficients_vec(vec![s(1), s(0), s(2), s(0), s(0)]);
    assert_eq!(p.coeffs, vec![s(1), s(0), s(2)]);
    assert!(!p.is_zero());
    let z = DensePolynomial::from_coefficients_vec(vec![s(0), s(0)]);
    assert!(z.coeffs.is_empty());
    assert!(z.is_zero());
    // a polynomial built by hand with zero coefficients is zero too
    let hand = DensePolynomial { coeffs: vec![s(0), s(0), s(0)] };
    assert!(hand.is_zero());
}

#[test]
fn polynomial_product() {
    // (1 + X)(1 - X) = 1 - X^2
    let a = DensePolynomial::from_coefficients_vec(vec![s(1), s(1)]);
    let b = DensePolynomial::from_coefficients_vec(vec![s(1), s(1).neg()]);
    assert_eq!(a.mul(&b).coeffs, vec![s(1), s(0), s(1).neg()]);
    // (2 + 3X)(4 + 5X + 6X^2) = 8 + 22X + 27X^2 + 18X^3
    let c = DensePolynomial::from_coefficients_vec(vec![s(2), s(3)]);
    let d = DensePolynomial::from_coefficients_vec(vec![s(4), s(5), s(6)]);
    assert_eq!(c.mul(&d).coeffs, vec![s(8), s(22), s(27), s(18)]);
    // by zero
    let zero = DensePolynomial::from_coefficients_vec(vec![]);
    assert!(c.mul(&zero).coeffs.is_empty());
}
