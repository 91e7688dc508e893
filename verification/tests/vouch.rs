use ark_bls12_381::Fr;
use ark_ff::{BigInteger, PrimeField};
use ark_poly::DenseUVPolynomial;
use ark_std::rand::rngs::StdRng;
use ark_std::rand::SeedableRng;
use fp_blackbox::curve::{Scalar, G1, G2};
use fp_blackbox::gro15::{flipped, standard};
use fp_blackbox::gs08::ProverKey;
use fp_blackbox::poly::DensePolynomial;
use fp_blackbox::vouch::credential::{compute_polynomial, Credential};
use fp_blackbox::vouch::gs_proof::Proof;
use fp_blackbox::vouch::params::PublicParams;

/// The deterministic generator that the test suites of the arkworks crates use.
fn test_rng() -> StdRng {
    let seed = [
        1, 0, 0, 0, 23, 0, 0, 0, 200, 1, 0, 0, 210, 30, 0, 0, 0, 0, 0, 0, 0, 0, 0, 0, 0, 0, 0, 0,
        0, 0, 0, 0,
    ];
    StdRng::from_seed(seed)
}

fn to_ark(p: &DensePolynomial) -> ark_poly::univariate::DensePolynomial<Fr> {
    ark_poly::univariate::DensePolynomial::from_coefficients_vec(
        p.coeffs.iter().map(|c| Fr::from_le_bytes_mod_order(&c.to_bytes_le())).collect(),
    )
}

fn from_ark(p: &ark_poly::univariate::DensePolynomial<Fr>) -> DensePolynomial {
    DensePolynomial::from_coefficients_vec(
        p.coeffs.iter().map(|c| Scalar::from_le_bytes_mod_order(&c.into_bigint().to_bytes_le())).collect(),
    )
}

#[test]
fn test_e2e_vouchable_credentials() {
    let rng = &mut test_rng();

    // 1. Setup
    let pp = PublicParams::new(10, rng);

    // 2. Issuer KeyGen
    let (issuer_pk, issuer_sk) = standard::SecretKey::new(&pp.gro15_params, rng);

    // 3. User KeyGen (Part of Issue prep)
    let (user_vk, user_sk) = flipped::SecretKey::new(&pp.flipped_params, rng);
    // Prove knowledge of SK. Now sk is encapsulated.
    let user_proof = user_sk.prove_knowledge(&pp.flipped_params, rng);

    // 4. Issue
    let attributes = vec![Scalar::from_u64(10), Scalar::from_u64(20), Scalar::from_u64(30)];
    let mut cred = Credential::issue(&pp, &issuer_sk, &user_vk, &user_proof, &attributes, rng)
        .expect("Issue failed");

    // Fix the secret key in credential (simulating user local storage)
    cred.v_u_sk = Some(user_sk);

    // 5. Vouch
    // Reveal attribute at index 1 (val 20)
    let idx = vec![1];
    let statement = Scalar::from_u64(12345);
    let proof = cred.vouch(&pp, &attributes, &idx, &statement, rng);

    // 6. Verify
    let valid = proof.verify(&pp, &issuer_pk, &statement);

    assert!(valid, "Vouch verification failed");

    // 7. Test GS Proof
    // Setup GS ProverKey (In practice, part of CRS)
    let pk = ProverKey::setup(rng);

    // Compute m2_poly_val (accumulator) for the proof
    // m2 = g^{P_subset(tau)}
    let mut subset_poly = DensePolynomial::from_coefficients_vec(vec![Scalar::one()]);
    for val in &proof.revealed_values {
        let term = DensePolynomial::from_coefficients_vec(vec![val.neg(), Scalar::one()]);
        subset_poly = subset_poly.mul(&term);
    }
    let m2 = pp.commit_g1(&subset_poly);

    let poly = compute_polynomial(&attributes);
    let q_ark = &to_ark(&poly) / &to_ark(&subset_poly);
    let r_ark = &to_ark(&poly) - &(&q_ark * &to_ark(&subset_poly));
    let q_poly = from_ark(&q_ark);
    let r_poly = from_ark(&r_ark);
    assert!(r_poly.is_zero(), "Polynomial division failed");

    let kzg_pi = pp.commit_g2(&q_poly);

    let user_vk_flipped = flipped::VerificationKey { v: cred.v_u };

    let gs_proof = Proof::prove(&pp, &pk, &proof, &cred, &user_vk_flipped, &m2, &kzg_pi, rng);

    let valid_gs = gs_proof.verify(&pp, &pk, &issuer_pk, &statement, &m2);

    assert!(valid_gs, "GS Proof verification failed");
}

#[test]
fn issue_refuses_a_proof_for_another_key() {
    let rng = &mut test_rng();
    let pp = PublicParams::new(4, rng);
    let (_, issuer_sk) = standard::SecretKey::new(&pp.gro15_params, rng);
    let (user_vk, _) = flipped::SecretKey::new(&pp.flipped_params, rng);
    let (_, other_sk) = flipped::SecretKey::new(&pp.flipped_params, rng);
    let other_proof = other_sk.prove_knowledge(&pp.flipped_params, rng);
    let attributes = vec![Scalar::from_u64(1)];
    assert!(Credential::issue(&pp, &issuer_sk, &user_vk, &other_proof, &attributes, rng).is_none());
}

#[test]
fn issued_credential_carries_key_and_commitment() {
    let rng = &mut test_rng();
    let pp = PublicParams::new(4, rng);
    let (issuer_vk, issuer_sk) = standard::SecretKey::new(&pp.gro15_params, rng);
    let (user_vk, user_sk) = flipped::SecretKey::new(&pp.flipped_params, rng);
    let user_proof = user_sk.prove_knowledge(&pp.flipped_params, rng);
    let attributes = vec![Scalar::from_u64(4), Scalar::from_u64(9)];
    let cred = Credential::issue(&pp, &issuer_sk, &user_vk, &user_proof, &attributes, rng).unwrap();
    assert_eq!(cred.v_u, user_vk.v);
    assert!(cred.v_u_sk.is_none());
    // com_att = h^{(tau - 4)(tau - 9)}
    assert_eq!(cred.com_att, pp.commit_g2(&compute_polynomial(&attributes)));
    assert!(issuer_vk.verify(&pp.gro15_params, &cred.v_u, &cred.com_att, &cred.sigma));
}

#[test]
fn vouch_reveals_the_selected_attributes_in_order() {
    let rng = &mut test_rng();
    let pp = PublicParams::new(6, rng);
    let (issuer_vk, issuer_sk) = standard::SecretKey::new(&pp.gro15_params, rng);
    let (user_vk, user_sk) = flipped::SecretKey::new(&pp.flipped_params, rng);
    let user_proof = user_sk.prove_knowledge(&pp.flipped_params, rng);
    let attributes = vec![Scalar::from_u64(5), Scalar::from_u64(6), Scalar::from_u64(7), Scalar::from_u64(8)];
    let mut cred = Credential::issue(&pp, &issuer_sk, &user_vk, &user_proof, &attributes, rng).unwrap();
    cred.v_u_sk = Some(user_sk);
    let statement = Scalar::from_u64(99);
    let vouch = cred.vouch(&pp, &attributes, &[3, 0], &statement, rng);
    assert_eq!(vouch.revealed_indices, vec![3, 0]);
    assert_eq!(vouch.revealed_values, vec![Scalar::from_u64(8), Scalar::from_u64(5)]);
    assert_eq!(vouch.v_u, cred.v_u);
    assert_eq!(vouch.com_att, cred.com_att);
    assert!(vouch.verify(&pp, &issuer_vk, &statement));
    // another statement does not verify
    assert!(!vouch.verify(&pp, &issuer_vk, &Scalar::from_u64(100)));
    // another issuer key does not verify
    let (other_vk, _) = standard::SecretKey::new(&pp.gro15_params, rng);
    assert!(!vouch.verify(&pp, &other_vk, &statement));
    // changing the revealed values breaks the user's signature
    let mut tampered = vouch.clone();
    tampered.revealed_values[0] = Scalar::from_u64(6);
    assert!(!tampered.verify(&pp, &issuer_vk, &statement));
}

#[test]
fn vouch_revealing_nothing_verifies() {
    let rng = &mut test_rng();
    let pp = PublicParams::new(3, rng);
    let (issuer_vk, issuer_sk) = standard::SecretKey::new(&pp.gro15_params, rng);
    let (user_vk, user_sk) = flipped::SecretKey::new(&pp.flipped_params, rng);
    let user_proof = user_sk.prove_knowledge(&pp.flipped_params, rng);
    let attributes = vec![Scalar::from_u64(1), Scalar::from_u64(2)];
    let mut cred = Credential::issue(&pp, &issuer_sk, &user_vk, &user_proof, &attributes, rng).unwrap();
    cred.v_u_sk = Some(user_sk);
    let vouch = cred.vouch(&pp, &attributes, &[], &Scalar::from_u64(0), rng);
    assert!(vouch.revealed_values.is_empty());
    assert!(vouch.verify(&pp, &issuer_vk, &Scalar::from_u64(0)));
}

#[test]
fn compute_polynomial_multiplies_the_linear_factors() {
    // (X - 2)(X - 3) = X^2 - 5X + 6
    let p = compute_polynomial(&[Scalar::from_u64(2), Scalar::from_u64(3)]);
    assert_eq!(p.coeffs, vec![Scalar::from_u64(6), Scalar::from_u64(5).neg(), Scalar::one()]);
    // the empty product is one
    assert_eq!(compute_polynomial(&[]).coeffs, vec![Scalar::one()]);
    // (X - 0) = X
    assert_eq!(compute_polynomial(&[Scalar::zero()]).coeffs, vec![Scalar::zero(), Scalar::one()]);
}

#[test]
fn params_with_trapdoor_hold_the_powers_of_tau() {
    let gro15 = standard::Params::from_exponents(&Scalar::from_u64(2), &Scalar::from_u64(3));
    let flipped_params = flipped::Params::from_exponents(&Scalar::from_u64(4), &Scalar::from_u64(5));
    let tau = Scalar::from_u64(3);
    let pp = PublicParams::with_trapdoor(3, gro15, flipped_params, &tau);
    assert_eq!(pp.crs_g1.len(), 4);
    assert_eq!(pp.crs_g2.len(), 4);
    for (i, power) in [1u64, 3, 9, 27].iter().enumerate() {
        assert_eq!(pp.crs_g1[i], G1::generator().mul(&Scalar::from_u64(*power)));
        assert_eq!(pp.crs_g2[i], G2::generator().mul(&Scalar::from_u64(*power)));
    }
}

#[test]
fn kzg_commitment_is_the_value_at_tau() {
    let gro15 = standard::Params::from_exponents(&Scalar::from_u64(2), &Scalar::from_u64(3));
    let flipped_params = flipped::Params::from_exponents(&Scalar::from_u64(4), &Scalar::from_u64(5));
    let pp = PublicParams::with_trapdoor(4, gro15, flipped_params, &Scalar::from_u64(10));
    // 1 + 2X + 3X^2 at X = 10 is 321
    let p = DensePolynomial::from_coefficients_vec(vec![Scalar::from_u64(1), Scalar::from_u64(2), Scalar::from_u64(3)]);
    assert_eq!(pp.commit_g1(&p), G1::generator().mul(&Scalar::from_u64(321)));
    assert_eq!(pp.commit_g2(&p), G2::generator().mul(&Scalar::from_u64(321)));
    // the zero polynomial commits to the identity
    let zero = DensePolynomial::from_coefficients_vec(vec![Scalar::zero(), Scalar::zero()]);
    assert!(zero.coeffs.is_empty());
    assert_eq!(pp.commit_g1(&zero), G1::zero());
}

#[test]
fn gs_proof_rejects_another_statement_or_accumulator() {
    let rng = &mut test_rng();
    let pp = PublicParams::new(4, rng);
    let (issuer_vk, issuer_sk) = standard::SecretKey::new(&pp.gro15_params, rng);
    let (user_vk, user_sk) = flipped::SecretKey::new(&pp.flipped_params, rng);
    let user_proof = user_sk.prove_knowledge(&pp.flipped_params, rng);
    let attributes = vec![Scalar::from_u64(3), Scalar::from_u64(4)];
    let mut cred = Credential::issue(&pp, &issuer_sk, &user_vk, &user_proof, &attributes, rng).unwrap();
    cred.v_u_sk = Some(user_sk);
    let statement = Scalar::from_u64(8);
    let vouch = cred.vouch(&pp, &attributes, &[0], &statement, rng);
    let pk = ProverKey::setup(rng);
    // revealed (X - 3), quotient (X - 4)
    let subset = compute_polynomial(&[Scalar::from_u64(3)]);
    let quotient = compute_polynomial(&[Scalar::from_u64(4)]);
    let m2 = pp.commit_g1(&subset);
    let kzg_pi = pp.commit_g2(&quotient);
    let proof = Proof::prove(&pp, &pk, &vouch, &cred, &user_vk, &m2, &kzg_pi, rng);
    assert!(proof.verify(&pp, &pk, &issuer_vk, &statement, &m2));
    assert!(!proof.verify(&pp, &pk, &issuer_vk, &Scalar::from_u64(9), &m2));
    assert!(!proof.verify(&pp, &pk, &issuer_vk, &statement, &m2.add(&G1::generator())));
}

#[test]
fn kzg_opening_pairs_for_a_product() {
    let gro15 = standard::Params::from_exponents(&Scalar::from_u64(2), &Scalar::from_u64(3));
    let flipped_params = flipped::Params::from_exponents(&Scalar::from_u64(4), &Scalar::from_u64(5));
    let pp = PublicParams::with_trapdoor(5, gro15, flipped_params, &Scalar::from_u64(7));
    let s = compute_polynomial(&[Scalar::from_u64(2)]);
    let q = compute_polynomial(&[Scalar::from_u64(3), Scalar::from_u64(5)]);
    let f = s.mul(&q);
    let lhs = fp_blackbox::curve::pairing(&pp.commit_g1(&s), &pp.commit_g2(&q));
    let rhs = fp_blackbox::curve::pairing(&pp.gro15_params.g, &pp.commit_g2(&f));
    assert_eq!(lhs, rhs);
    // (7 - 2)(7 - 3)(7 - 5) = 40
    assert_eq!(pp.commit_g2(&f), G2::generator().mul(&Scalar::from_u64(40)));
    // another quotient does not pair
    let other = compute_polynomial(&[Scalar::from_u64(4)]);
    let wrong = fp_blackbox::curve::pairing(&pp.commit_g1(&s), &pp.commit_g2(&other));
    assert_ne!(wrong, rhs);
}

#[test]
fn credential_commitments_are_products_at_tau() {
    let rng = &mut test_rng();
    let gro15 = standard::Params::from_exponents(&Scalar::from_u64(2), &Scalar::from_u64(3));
    let flipped_params = flipped::Params::from_exponents(&Scalar::from_u64(4), &Scalar::from_u64(5));
    let pp = PublicParams::with_trapdoor(4, gro15, flipped_params, &Scalar::from_u64(10));
    let (issuer_vk, issuer_sk) = standard::SecretKey::new(&pp.gro15_params, rng);
    let (user_vk, user_sk) = flipped::SecretKey::new(&pp.flipped_params, rng);
    let user_proof = user_sk.prove_knowledge(&pp.flipped_params, rng);
    let attributes = vec![Scalar::from_u64(4), Scalar::from_u64(9)];
    let mut cred = Credential::issue(&pp, &issuer_sk, &user_vk, &user_proof, &attributes, rng).unwrap();
    // com_att = h^{(10 - 4)(10 - 9)} = h^6
    assert_eq!(cred.com_att, G2::generator().mul(&Scalar::from_u64(6)));
    cred.v_u_sk = Some(user_sk);
    let statement = Scalar::from_u64(1);
    let vouch = cred.vouch(&pp, &attributes, &[0], &statement, rng);
    assert!(vouch.verify(&pp, &issuer_vk, &statement));
    // the revealed commitment is g^{10 - 4} = g^6, the opening h^{10 - 9} = h
    let subset = compute_polynomial(&vouch.revealed_values);
    let m2 = pp.commit_g1(&subset);
    assert_eq!(m2, G1::generator().mul(&Scalar::from_u64(6)));
    let kzg_pi = pp.commit_g2(&compute_polynomial(&[Scalar::from_u64(9)]));
    assert_eq!(kzg_pi, G2::generator());
    let pk = ProverKey::setup(rng);
    let proof = Proof::prove(&pp, &pk, &vouch, &cred, &user_vk, &m2, &kzg_pi, rng);
    assert!(proof.verify(&pp, &pk, &issuer_vk, &statement, &m2));
}

#[test]
fn refused_issue_leaves_the_generator_untouched() {
    let rng = &mut test_rng();
    let pp = PublicParams::new(4, rng);
    let (_, issuer_sk) = standard::SecretKey::new(&pp.gro15_params, rng);
    let (user_vk, _) = flipped::SecretKey::new(&pp.flipped_params, rng);
    let (_, other_sk) = flipped::SecretKey::new(&pp.flipped_params, rng);
    let other_proof = other_sk.prove_knowledge(&pp.flipped_params, rng);
    let before = rng.clone();
    // far more attributes than the reference string holds: refused before any use
    let attributes = vec![Scalar::from_u64(1); 20];
    assert!(Credential::issue(&pp, &issuer_sk, &user_vk, &other_proof, &attributes, rng).is_none());
    assert_eq!(*rng, before);
}

#[test]
fn vouch_verification_ignores_indices_and_order() {
    let rng = &mut test_rng();
    let pp = PublicParams::new(6, rng);
    let (issuer_vk, issuer_sk) = standard::SecretKey::new(&pp.gro15_params, rng);
    let (user_vk, user_sk) = flipped::SecretKey::new(&pp.flipped_params, rng);
    let user_proof = user_sk.prove_knowledge(&pp.flipped_params, rng);
    let attributes = vec![Scalar::from_u64(5), Scalar::from_u64(6), Scalar::from_u64(7)];
    let mut cred = Credential::issue(&pp, &issuer_sk, &user_vk, &user_proof, &attributes, rng).unwrap();
    cred.v_u_sk = Some(user_sk);
    let statement = Scalar::from_u64(3);
    let vouch = cred.vouch(&pp, &attributes, &[0, 2], &statement, rng);
    assert!(vouch.verify(&pp, &issuer_vk, &statement));
    let mut reordered = vouch.clone();
    reordered.revealed_values.reverse();
    reordered.revealed_indices = vec![9, 9, 9];
    assert!(reordered.verify(&pp, &issuer_vk, &statement));
    // and one statement only
    assert!(!reordered.verify(&pp, &issuer_vk, &Scalar::from_u64(4)));
}

#[test]
fn compute_polynomial_of_a_concatenation_is_the_product() {
    let a = [Scalar::from_u64(2), Scalar::from_u64(9)];
    let b = [Scalar::from_u64(4)];
    let ab = [Scalar::from_u64(2), Scalar::from_u64(9), Scalar::from_u64(4)];
    let ba = [Scalar::from_u64(4), Scalar::from_u64(9), Scalar::from_u64(2)];
    let product = compute_polynomial(&a).mul(&compute_polynomial(&b));
    assert_eq!(compute_polynomial(&ab).coeffs, product.coeffs);
    assert_eq!(compute_polynomial(&ba).coeffs, product.coeffs);
}

#[test]
fn gs_proof_with_a_wrong_opening_does_not_verify() {
    let rng = &mut test_rng();
    let pp = PublicParams::new(4, rng);
    let (issuer_vk, issuer_sk) = standard::SecretKey::new(&pp.gro15_params, rng);
    let (user_vk, user_sk) = flipped::SecretKey::new(&pp.flipped_params, rng);
    let user_proof = user_sk.prove_knowledge(&pp.flipped_params, rng);
    let attributes = vec![Scalar::from_u64(3), Scalar::from_u64(4)];
    let mut cred = Credential::issue(&pp, &issuer_sk, &user_vk, &user_proof, &attributes, rng).unwrap();
    cred.v_u_sk = Some(user_sk);
    let statement = Scalar::from_u64(8);
    let vouch = cred.vouch(&pp, &attributes, &[0], &statement, rng);
    let pk = ProverKey::setup(rng);
    let m2 = pp.commit_g1(&compute_polynomial(&[Scalar::from_u64(3)]));
    // (X - 5) is not the quotient of (X - 3)(X - 4) by (X - 3)
    let wrong_pi = pp.commit_g2(&compute_polynomial(&[Scalar::from_u64(5)]));
    let proof = Proof::prove(&pp, &pk, &vouch, &cred, &user_vk, &m2, &wrong_pi, rng);
    assert!(!proof.verify(&pp, &pk, &issuer_vk, &statement, &m2));
}
