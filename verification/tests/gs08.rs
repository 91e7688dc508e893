use ark_std::rand::rngs::StdRng;
use ark_std::rand::SeedableRng;
use fp_blackbox::curve::{pairing, Gt, Scalar, G1, G2};
use fp_blackbox::gs08::ProverKey;

/// The deterministic generator that the test suites of the arkworks crates use.
fn test_rng() -> StdRng {
    let seed = [
        1, 0, 0, 0, 23, 0, 0, 0, 200, 1, 0, 0, 210, 30, 0, 0, 0, 0, 0, 0, 0, 0, 0, 0, 0, 0, 0, 0,
        0, 0, 0, 0,
    ];
    StdRng::from_seed(seed)
}

#[test]
fn dlog_test() {
    // prove that y = g^x
    let rng = &mut test_rng();
    let pk = ProverKey::setup(rng);

    let x = Scalar::rand(rng);
    let y = G1::generator().mul(&x);

    let (com_x, r_x) = pk.commit_fr2(&x, rng);

    // prove
    let theta = G1::generator().mul(&r_x);

    // verify
    // check 1 and check 2 ignored
    // check 3
    let lhs = pairing(&G1::generator(), &com_x[0]);
    let rhs = pairing(&y, &pk.v[0]).add(&pairing(&theta, &pk.v1[0]));
    assert_eq!(lhs, rhs);

    // check 4
    let lhs = pairing(&G1::generator(), &com_x[1]);
    let rhs = pairing(&y, &pk.v[1]).add(&pairing(&theta, &pk.v1[1]));
    assert_eq!(lhs, rhs);
}

#[test]
fn ppe_test() {
    // prove that e(A,B).e(F,D).e(C,H) = T
    let rng = &mut test_rng();
    let pk = ProverKey::setup(rng);

    let a = G1::rand(rng); // witness
    let b = G2::rand(rng); // witness
    let f = G1::rand(rng); // statement
    let d = G2::rand(rng); // witness
    let c = f; // witness
    let h = d; // statement
    let t = pairing(&a, &b).add(&pairing(&f, &d)).add(&pairing(&c, &h));

    let (com_a, r_a) = pk.commit_g1(&a, rng);
    let (com_b, r_b) = pk.commit_g2(&b, rng);
    let (com_d, r_d) = pk.commit_g2(&d, rng);
    let (com_c, r_c) = pk.commit_g1(&c, rng);

    let (theta, pi) = pk.prove_ppe(rng, Some((&a, &r_a, &b, &r_b)), &[(&f, &r_d)], &[(&r_c, &h)]);

    assert!(pk.verify_ppe(Some((&com_a, &com_b)), &[(&f, &com_d)], &[(&com_c, &h)], t, &theta, &pi));

    // UNROLLED version
    // prove
    let mut tt = [[Scalar::zero(); 2]; 2];
    for i in 0..2 {
        for j in 0..2 {
            tt[i][j] = Scalar::rand(rng);
        }
    }

    let mut rs = [[Scalar::zero(); 2]; 2];
    for i in 0..2 {
        for j in 0..2 {
            rs[i][j] = r_a[i].mul(&r_b[j]);
        }
    }

    let mut theta = [[G1::generator(); 2]; 2];
    let mut pi = [[G2::generator(); 2]; 2];

    theta[0][0] = pk.u1[0].mul(&tt[0][0]).add(&pk.u2[0].mul(&tt[1][0]));
    theta[1][0] = pk.u1[0].mul(&tt[0][1]).add(&pk.u2[0].mul(&tt[1][1]));
    theta[0][1] = pk.u1[1]
        .mul(&tt[0][0])
        .add(&pk.u2[1].mul(&tt[1][0]))
        .add(&f.mul(&r_d[0]))
        .add(&a.mul(&r_b[0]));
    theta[1][1] = pk.u1[1]
        .mul(&tt[0][1])
        .add(&pk.u2[1].mul(&tt[1][1]))
        .add(&f.mul(&r_d[1]))
        .add(&a.mul(&r_b[1]));

    pi[0][0] = pk.v1[0].mul(&rs[0][0].sub(&tt[0][0])).add(&pk.v2[0].mul(&rs[0][1].sub(&tt[0][1])));
    pi[1][0] = pk.v1[0].mul(&rs[1][0].sub(&tt[1][0])).add(&pk.v2[0].mul(&rs[1][1].sub(&tt[1][1])));
    pi[0][1] = h
        .mul(&r_c[0])
        .add(&b.mul(&r_a[0]))
        .add(&pk.v1[1].mul(&rs[0][0].sub(&tt[0][0])))
        .add(&pk.v2[1].mul(&rs[0][1].sub(&tt[0][1])));
    pi[1][1] = h
        .mul(&r_c[1])
        .add(&b.mul(&r_a[1]))
        .add(&pk.v1[1].mul(&rs[1][0].sub(&tt[1][0])))
        .add(&pk.v2[1].mul(&rs[1][1].sub(&tt[1][1])));

    // check 1
    let lhs = pairing(&com_a[0], &com_b[0]);
    let rhs = pairing(&theta[0][0], &pk.v1[0])
        .add(&pairing(&theta[1][0], &pk.v2[0]))
        .add(&pairing(&pk.u1[0], &pi[0][0]))
        .add(&pairing(&pk.u2[0], &pi[1][0]));
    assert_eq!(lhs, rhs);

    // check 2
    let lhs = pairing(&com_c[0], &h).add(&pairing(&com_a[0], &com_b[1]));
    let rhs = pairing(&pk.u1[0], &pi[0][1])
        .add(&pairing(&pk.u2[0], &pi[1][1]))
        .add(&pairing(&theta[0][0], &pk.v1[1]))
        .add(&pairing(&theta[1][0], &pk.v2[1]));
    assert_eq!(lhs, rhs);

    // check 3
    let lhs = pairing(&f, &com_d[0]).add(&pairing(&com_a[1], &com_b[0]));
    let rhs = pairing(&theta[0][1], &pk.v1[0])
        .add(&pairing(&theta[1][1], &pk.v2[0]))
        .add(&pairing(&pk.u1[1], &pi[0][0]))
        .add(&pairing(&pk.u2[1], &pi[1][0]));
    assert_eq!(lhs, rhs);

    // check 4
    let lhs = pairing(&f, &com_d[1]).add(&pairing(&com_c[1], &h)).add(&pairing(&com_a[1], &com_b[1]));
    let rhs = pairing(&pk.u1[1], &pi[0][1])
        .add(&pairing(&pk.u2[1], &pi[1][1]))
        .add(&pairing(&theta[0][1], &pk.v1[1]))
        .add(&pairing(&theta[1][1], &pk.v2[1]))
        .add(&t);

    assert_eq!(lhs, rhs);
}

fn s(x: u64) -> Scalar {
    Scalar::from_u64(x)
}

#[test]
fn setup_with_builds_the_key_from_its_exponents() {
    let p1 = G1::generator().mul(&s(3));
    let p2 = G2::generator().mul(&s(5));
    let hg1 = G1::generator().mul(&s(7));
    let pk = ProverKey::setup_with(&p1, &p2, &hg1, &s(2), &s(4), &s(6), &s(8));
    assert_eq!(pk.p1, p1);
    assert_eq!(pk.p2, p2);
    assert_eq!(pk.hg1, hg1);
    assert_eq!(pk.u1[0], p1);
    assert_eq!(pk.u1[1], p1.mul(&s(2)));
    assert_eq!(pk.u2[0], p1.mul(&s(4)));
    assert_eq!(pk.u2[1], p1.mul(&s(8)));
    assert_eq!(pk.v1[0], p2);
    assert_eq!(pk.v1[1], p2.mul(&s(6)));
    assert_eq!(pk.v2[0], p2.mul(&s(8)));
    assert_eq!(pk.v2[1], p2.mul(&s(48)));
    assert_eq!(pk.u[0], pk.u2[0]);
    assert_eq!(pk.u[1], p1.mul(&s(9)));
    assert_eq!(pk.v[1], p2.mul(&s(49)));
    assert_eq!(pk.i1[0], pk.u[0].neg());
    assert_eq!(pk.i1[1], pk.u[1].neg());
    assert_eq!(pk.i2[0], pk.v[0].neg());
    assert_eq!(pk.i2[1], pk.v[1].neg());
}

#[test]
fn scalar_commitments_have_the_stated_form() {
    let rng = &mut test_rng();
    let pk = ProverKey::setup(rng);
    let m = s(12);
    let (com1, r1) = pk.commit_fr1(&m, rng);
    assert_eq!(com1[0], pk.u1[0].mul(&r1).add(&pk.u2[0].mul(&m)));
    assert_eq!(com1[1], pk.u1[1].mul(&r1).add(&pk.u2[1].mul(&m)).add(&pk.u1[0].mul(&m)));
    let (com2, r2) = pk.commit_fr2(&m, rng);
    assert_eq!(com2[0], pk.v1[0].mul(&r2).add(&pk.v2[0].mul(&m)));
    assert_eq!(com2[1], pk.v1[1].mul(&r2).add(&pk.v2[1].mul(&m)).add(&pk.v1[0].mul(&m)));
}

#[test]
fn group_commitments_have_the_stated_form() {
    let rng = &mut test_rng();
    let pk = ProverKey::setup(rng);
    let a = G1::rand(rng);
    let b = G2::rand(rng);
    let (com_a, r_a) = pk.commit_g1(&a, rng);
    assert_eq!(com_a[0], pk.u1[0].mul(&r_a[0]).add(&pk.u2[0].mul(&r_a[1])));
    assert_eq!(com_a[1], pk.u1[1].mul(&r_a[0]).add(&pk.u2[1].mul(&r_a[1])).add(&a));
    let (com_b, r_b) = pk.commit_g2(&b, rng);
    assert_eq!(com_b[0], pk.v1[0].mul(&r_b[0]).add(&pk.v2[0].mul(&r_b[1])));
    assert_eq!(com_b[1], pk.v1[1].mul(&r_b[0]).add(&pk.v2[1].mul(&r_b[1])).add(&b));
}

#[test]
fn proof_with_fixed_randomness_matches_the_formulas() {
    let rng = &mut test_rng();
    let pk = ProverKey::setup(rng);
    let a = G1::rand(rng);
    let b = G2::rand(rng);
    let (_, r_a) = pk.commit_g1(&a, rng);
    let (_, r_b) = pk.commit_g2(&b, rng);
    let tt = [[s(1), s(2)], [s(3), s(4)]];
    let (theta, pi) = pk.prove_ppe_with(&tt, Some((&a, &r_a, &b, &r_b)), &[], &[]);
    assert_eq!(theta[0][0], pk.u1[0].mul(&s(1)).add(&pk.u2[0].mul(&s(3))));
    assert_eq!(theta[1][0], pk.u1[0].mul(&s(2)).add(&pk.u2[0].mul(&s(4))));
    assert_eq!(theta[0][1], pk.u1[1].mul(&s(1)).add(&pk.u2[1].mul(&s(3))).add(&a.mul(&r_b[0])));
    let d00 = r_a[0].mul(&r_b[0]).sub(&s(1));
    let d01 = r_a[0].mul(&r_b[1]).sub(&s(2));
    assert_eq!(pi[0][0], pk.v1[0].mul(&d00).add(&pk.v2[0].mul(&d01)));
    assert_eq!(pi[0][1], pk.v1[1].mul(&d00).add(&pk.v2[1].mul(&d01)).add(&b.mul(&r_a[0])));
}

#[test]
fn ppe_proof_verifies_only_for_its_target() {
    let rng = &mut test_rng();
    let pk = ProverKey::setup(rng);
    let a = G1::rand(rng);
    let b = G2::rand(rng);
    let t = pairing(&a, &b);
    let (com_a, r_a) = pk.commit_g1(&a, rng);
    let (com_b, r_b) = pk.commit_g2(&b, rng);
    let (theta, pi) = pk.prove_ppe(rng, Some((&a, &r_a, &b, &r_b)), &[], &[]);
    assert!(pk.verify_ppe(Some((&com_a, &com_b)), &[], &[], t, &theta, &pi));
    let other = t.add(&pairing(&G1::generator(), &G2::generator()));
    assert!(!pk.verify_ppe(Some((&com_a, &com_b)), &[], &[], other, &theta, &pi));
    // swapping the two halves of the proof breaks it
    let swapped = [theta[1], theta[0]];
    assert!(!pk.verify_ppe(Some((&com_a, &com_b)), &[], &[], t, &swapped, &pi));
}

#[test]
fn ppe_proof_with_linear_terms_only() {
    // e(F, D) e(C, H) = T with no quadratic term
    let rng = &mut test_rng();
    let pk = ProverKey::setup(rng);
    let f = G1::rand(rng);
    let d = G2::rand(rng);
    let c = G1::rand(rng);
    let h = G2::rand(rng);
    let t = pairing(&f, &d).add(&pairing(&c, &h));
    let (com_d, r_d) = pk.commit_g2(&d, rng);
    let (com_c, r_c) = pk.commit_g1(&c, rng);
    let (theta, pi) = pk.prove_ppe(rng, None, &[(&f, &r_d)], &[(&r_c, &h)]);
    assert!(pk.verify_ppe(None, &[(&f, &com_d)], &[(&com_c, &h)], t, &theta, &pi));
    assert!(!pk.verify_ppe(None, &[(&f, &com_d)], &[(&com_c, &h)], Gt::zero(), &theta, &pi));
}
