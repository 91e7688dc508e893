use ark_std::rand::rngs::StdRng;
use ark_std::rand::SeedableRng;
use fp_blackbox::curve::{pairing, Scalar, G1, G2};
use fp_blackbox::gro15::{flipped, standard};

/// The deterministic generator that the test suites of the arkworks crates use.
fn test_rng() -> StdRng {
    let seed = [
        1, 0, 0, 0, 23, 0, 0, 0, 200, 1, 0, 0, 210, 30, 0, 0, 0, 0, 0, 0, 0, 0, 0, 0, 0, 0, 0, 0,
        0, 0, 0, 0,
    ];
    StdRng::from_seed(seed)
}

#[test]
fn mod_test_standard_gro15() {
    let rng = &mut test_rng();

    let params = standard::Params::new(rng);
    let (vk, sk) = standard::SecretKey::new(&params, rng);

    let m1 = G2::rand(rng);
    let m2 = G2::rand(rng);

    let sig = sk.sign(&params, &m1, &m2, rng);
    let valid = vk.verify(&params, &m1, &m2, &sig);

    assert!(valid, "Standard Gro15 verification failed");
}

#[test]
fn test_flipped_gro15() {
    let rng = &mut test_rng();

    let params = flipped::Params::new(rng);
    let (vk, sk) = flipped::SecretKey::new(&params, rng);

    let m1 = G1::rand(rng);
    let m2 = G1::rand(rng);

    let sig = sk.sign(&params, &m1, &m2, rng);
    let valid = vk.verify(&params, &m1, &m2, &sig);

    assert!(valid, "Flipped Gro15 verification failed");
}

#[test]
fn standard_test_standard_gro15() {
    let rng = &mut test_rng();

    let params = standard::Params::new(rng);
    let (vk, sk) = standard::SecretKey::new(&params, rng);

    let m1 = G2::rand(rng);
    let m2 = G2::rand(rng);

    let sig = sk.sign(&params, &m1, &m2, rng);
    let valid = vk.verify(&params, &m1, &m2, &sig);

    assert!(valid, "Standard Gro15 verification failed");
}

#[test]
fn standard_parameters_from_exponents() {
    let y1 = Scalar::from_u64(3);
    let y2 = Scalar::from_u64(5);
    let params = standard::Params::from_exponents(&y1, &y2);
    assert_eq!(params.g, G1::generator());
    assert_eq!(params.h, G2::generator());
    assert_eq!(params.y1, G2::generator().mul(&y1));
    assert_eq!(params.y2, G2::generator().mul(&y2));
    let h = G2::generator();
    let five_h = h.add(&h).add(&h).add(&h).add(&h);
    assert_eq!(params.y2, five_h);
}

#[test]
fn flipped_parameters_from_exponents() {
    let w1 = Scalar::from_u64(7);
    let w2 = Scalar::from_u64(11);
    let params = flipped::Params::from_exponents(&w1, &w2);
    assert_eq!(params.g, G1::generator());
    assert_eq!(params.h, G2::generator());
    assert_eq!(params.w1, G1::generator().mul(&w1));
    assert_eq!(params.w2, G1::generator().mul(&w2));
}

#[test]
fn standard_signature_with_fixed_exponents() {
    // Signing with r and verifying: R = g^r, and the three equations hold.
    let params = standard::Params::from_exponents(&Scalar::from_u64(2), &Scalar::from_u64(9));
    let (vk, sk) = standard::SecretKey::from_secret(&params, &Scalar::from_u64(4));
    assert_eq!(vk.v, G1::generator().mul(&Scalar::from_u64(4)));
    let m1 = G2::generator().mul(&Scalar::from_u64(13));
    let m2 = G2::generator().mul(&Scalar::from_u64(17));
    let r = Scalar::from_u64(6);
    let sig = sk.sign_with(&params, &m1, &m2, &r);
    assert_eq!(sig.r, G1::generator().mul(&r));
    // S^r = Y1 h^v
    assert_eq!(sig.s.mul(&r), params.y1.add(&params.h.mul(&Scalar::from_u64(4))));
    // T1^r = M1 Y1^v
    assert_eq!(sig.t1.mul(&r), m1.add(&params.y1.mul(&Scalar::from_u64(4))));
    // T2^r = M2 Y2^v
    assert_eq!(sig.t2.mul(&r), m2.add(&params.y2.mul(&Scalar::from_u64(4))));
    assert!(vk.verify(&params, &m1, &m2, &sig));
}

#[test]
fn flipped_signature_with_fixed_exponents() {
    let params = flipped::Params::from_exponents(&Scalar::from_u64(2), &Scalar::from_u64(9));
    let (vk, sk) = flipped::SecretKey::from_secret(&params, &Scalar::from_u64(4));
    assert_eq!(vk.v, G2::generator().mul(&Scalar::from_u64(4)));
    let m1 = G1::generator().mul(&Scalar::from_u64(13));
    let m2 = G1::generator().mul(&Scalar::from_u64(17));
    let r = Scalar::from_u64(6);
    let sig = sk.sign_with(&params, &m1, &m2, &r);
    assert_eq!(sig.r, G2::generator().mul(&r));
    assert_eq!(sig.s.mul(&r), params.w1.add(&params.g.mul(&Scalar::from_u64(4))));
    assert_eq!(sig.t1.mul(&r), m1.add(&params.w1.mul(&Scalar::from_u64(4))));
    assert_eq!(sig.t2.mul(&r), m2.add(&params.w2.mul(&Scalar::from_u64(4))));
    assert!(vk.verify(&params, &m1, &m2, &sig));
}

#[test]
fn standard_signature_rejects_other_messages_and_keys() {
    let rng = &mut test_rng();
    let params = standard::Params::new(rng);
    let (vk, sk) = standard::SecretKey::new(&params, rng);
    let (other_vk, _) = standard::SecretKey::new(&params, rng);
    let m1 = G2::rand(rng);
    let m2 = G2::rand(rng);
    let sig = sk.sign(&params, &m1, &m2, rng);
    assert!(vk.verify(&params, &m1, &m2, &sig));
    // swapped messages
    assert!(!vk.verify(&params, &m2, &m1, &sig));
    // another message in the second slot
    assert!(!vk.verify(&params, &m1, &m1, &sig));
    // another key
    assert!(!other_vk.verify(&params, &m1, &m2, &sig));
    // a tampered S
    let mut bad = sig;
    bad.s = bad.s.add(&G2::generator());
    assert!(!vk.verify(&params, &m1, &m2, &bad));
}

#[test]
fn flipped_signature_rejects_other_messages_and_keys() {
    let rng = &mut test_rng();
    let params = flipped::Params::new(rng);
    let (vk, sk) = flipped::SecretKey::new(&params, rng);
    let (other_vk, _) = flipped::SecretKey::new(&params, rng);
    let m1 = G1::rand(rng);
    let m2 = G1::rand(rng);
    let sig = sk.sign(&params, &m1, &m2, rng);
    assert!(vk.verify(&params, &m1, &m2, &sig));
    assert!(!vk.verify(&params, &m2, &m1, &sig));
    assert!(!vk.verify(&params, &m2, &m2, &sig));
    assert!(!other_vk.verify(&params, &m1, &m2, &sig));
    let mut bad = sig;
    bad.t2 = bad.t2.add(&G1::generator());
    assert!(!vk.verify(&params, &m1, &m2, &bad));
}

#[test]
fn signatures_on_the_identity_verify() {
    let rng = &mut test_rng();
    let params = standard::Params::new(rng);
    let (vk, sk) = standard::SecretKey::new(&params, rng);
    let sig = sk.sign(&params, &G2::zero(), &G2::zero(), rng);
    assert!(vk.verify(&params, &G2::zero(), &G2::zero(), &sig));
}

#[test]
fn knowledge_proof_verifies_and_binds_the_key() {
    let rng = &mut test_rng();
    let params = flipped::Params::new(rng);
    let (vk, sk) = flipped::SecretKey::new(&params, rng);
    let (other_vk, _) = flipped::SecretKey::new(&params, rng);
    let proof = sk.prove_knowledge(&params, rng);
    assert!(vk.verify_knowledge(&params, &proof));
    assert!(!other_vk.verify_knowledge(&params, &proof));
    let mut bad = proof;
    bad.z = bad.z.add(&Scalar::one());
    assert!(!vk.verify_knowledge(&params, &bad));
}

#[test]
fn knowledge_proof_with_fixed_nonce() {
    // A = h^r and z = r + c v, where c is the BLAKE3 challenge of A's encoding.
    let params = flipped::Params::from_exponents(&Scalar::from_u64(2), &Scalar::from_u64(3));
    let v = Scalar::from_u64(10);
    let (vk, sk) = flipped::SecretKey::from_secret(&params, &v);
    let r = Scalar::from_u64(77);
    let proof = sk.prove_knowledge_with(&params, &r);
    assert_eq!(proof.a, G2::generator().mul(&r));
    let digest = blake3::hash(&proof.a.to_bytes());
    let c = Scalar::from_le_bytes_mod_order(digest.as_bytes());
    assert_eq!(proof.z, r.add(&c.mul(&v)));
    assert!(vk.verify_knowledge(&params, &proof));
    // the same nonce gives the same proof
    assert_eq!(sk.prove_knowledge_with(&params, &r).z, proof.z);
}

#[test]
fn pairing_is_bilinear_on_signatures() {
    // e(R, S) = e(g, Y1) e(V, h) written out for a concrete signature
    let params = standard::Params::from_exponents(&Scalar::from_u64(5), &Scalar::from_u64(8));
    let (vk, sk) = standard::SecretKey::from_secret(&params, &Scalar::from_u64(3));
    let m = G2::generator();
    let sig = sk.sign_with(&params, &m, &m, &Scalar::from_u64(2));
    let lhs = pairing(&sig.r, &sig.s);
    let rhs = pairing(&params.g, &params.y1).add(&pairing(&vk.v, &params.h));
    assert_eq!(lhs, rhs);
}

#[test]
fn a_signature_verifies_for_one_message_pair() {
    let rng = &mut test_rng();
    let params = standard::Params::new(rng);
    let (vk, sk) = standard::SecretKey::new(&params, rng);
    let m1 = G2::rand(rng);
    let m2 = G2::rand(rng);
    let sig = sk.sign(&params, &m1, &m2, rng);
    assert!(vk.verify(&params, &m1, &m2, &sig));
    assert!(!vk.verify(&params, &m1.add(&G2::generator()), &m2, &sig));
    assert!(!vk.verify(&params, &m1, &m2.add(&G2::generator()), &sig));
    let fparams = flipped::Params::new(rng);
    let (fvk, fsk) = flipped::SecretKey::new(&fparams, rng);
    let n1 = G1::rand(rng);
    let n2 = G1::rand(rng);
    let fsig = fsk.sign(&fparams, &n1, &n2, rng);
    assert!(fvk.verify(&fparams, &n1, &n2, &fsig));
    assert!(!fvk.verify(&fparams, &n1.add(&G1::generator()), &n2, &fsig));
    assert!(!fvk.verify(&fparams, &n1, &n2.add(&G1::generator()), &fsig));
}
