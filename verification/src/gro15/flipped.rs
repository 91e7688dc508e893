//! Groth15 signatures on pairs of G1 elements, with verification keys in G2,
//! and Schnorr proofs of knowledge of the secret key.
use vstd::prelude::*;
use ark_std::rand::rngs::StdRng;
use crate::curve::{group_order, le_nat, pairing, Scalar, G1, G2};
use crate::modular::{
    lemma_cong_add, lemma_cong_sub, lemma_cong_mod, lemma_cong_mul, lemma_cong_residues, lemma_exponent_swap,
    lemma_pair_of_unscaled, pair, plus, times,
};
use super::rand_nonzero;

verus! {

/// The 32-byte BLAKE3 digest of `input`.
pub uninterp spec fn blake3_digest(input: Seq<u8>) -> Seq<u8>;

/// The Fiat-Shamir challenge for the commitment encoded by `bytes`: its BLAKE3
/// digest read as a little-endian integer, reduced modulo the order.
pub open spec fn challenge(bytes: Seq<u8>) -> int {
    (le_nat(blake3_digest(bytes)) as int) % group_order()
}

/// Public parameters: the generators `g` and `h` and two elements `W1`, `W2` of G1.
#[derive(Clone, Copy, Debug)]
pub struct Params {
    pub w1: G1,
    pub w2: G1,
    pub g: G1,
    pub h: G2,
}

impl Params {
    /// Parameters with `W1 = g^w1` and `W2 = g^w2` for random exponents.
    pub fn new(rng: &mut StdRng) -> (res: Params)
        ensures
            res.g@ == 1,
            res.h@ == 1,
    {
        let w1_scalar = Scalar::rand(rng);
        let w2_scalar = Scalar::rand(rng);
        Params::from_exponents(&w1_scalar, &w2_scalar)
    }

    /// Parameters with `W1 = g^w1_scalar` and `W2 = g^w2_scalar`.
    pub fn from_exponents(w1_scalar: &Scalar, w2_scalar: &Scalar) -> (res: Params)
        ensures
            res.g@ == 1,
            res.h@ == 1,
            res.w1@ == w1_scalar@,
            res.w2@ == w2_scalar@,
    {
        let g = G1::generator();
        let h = G2::generator();
        let w1 = g.mul(w1_scalar);
        let w2 = g.mul(w2_scalar);
        proof {
            use_type_invariant(w1_scalar);
            use_type_invariant(w2_scalar);
            w1_scalar.lemma_value();
            w2_scalar.lemma_value();
            lemma_cong_residues(w1@, w1_scalar@);
            lemma_cong_residues(w2@, w2_scalar@);
        }
        Params { w1, w2, g, h }
    }
}

#[derive(Clone, Copy, Debug)]
pub struct VerificationKey {
    pub v: G2,
}

/// The three pairing equations of a valid signature `(R, S, T1, T2)` on
/// `(M1, M2)` under the verification key of logarithm `v`:
/// `e(S, R) = e(W1, h) e(g, V)`, `e(T1, R) = e(M1, h) e(W1, V)` and
/// `e(T2, R) = e(M2, h) e(W2, V)`.
pub open spec fn valid_signature(params: &Params, v: int, m1: int, m2: int, sigma: &Signature) -> bool {
    &&& pair(sigma.s@, sigma.r@) == plus(pair(params.w1@, params.h@), pair(params.g@, v))
    &&& pair(sigma.t1@, sigma.r@) == plus(pair(m1, params.h@), pair(params.w1@, v))
    &&& pair(sigma.t2@, sigma.r@) == plus(pair(m2, params.h@), pair(params.w2@, v))
}

/// The Schnorr check `h^z = A V^c` for the challenge `c` of `A`.
pub open spec fn valid_knowledge_proof(params: &Params, v: int, proof: &SchnorrProof) -> bool {
    times(params.h@, proof.z@) == plus(proof.a@, times(v, challenge(proof.a.encoding())))
}

impl VerificationKey {
    pub fn verify(&self, params: &Params, m1: &G1, m2: &G1, sigma: &Signature) -> (res: bool)
        ensures
            res == valid_signature(params, self.v@, m1@, m2@, sigma),
    {
        // Eq 1: e(S, R) = e(W1, h) * e(g, V)
        let lhs1 = pairing(&sigma.s, &sigma.r);
        let rhs1 = pairing(&params.w1, &params.h).add(&pairing(&params.g, &self.v));
        if !lhs1.equals(&rhs1) {
            return false;
        }
        // Eq 2: e(T1, R) = e(M1, h) * e(W1, V)
        let lhs2 = pairing(&sigma.t1, &sigma.r);
        let rhs2 = pairing(m1, &params.h).add(&pairing(&params.w1, &self.v));
        if !lhs2.equals(&rhs2) {
            return false;
        }
        // Eq 3: e(T2, R) = e(M2, h) * e(W2, V)
        let lhs3 = pairing(&sigma.t2, &sigma.r);
        let rhs3 = pairing(m2, &params.h).add(&pairing(&params.w2, &self.v));
        lhs3.equals(&rhs3)
    }

    /// Checks a proof of knowledge of the secret exponent of this key, with
    /// base `h`.
    pub fn verify_knowledge(&self, params: &Params, proof: &SchnorrProof) -> (res: bool)
        ensures
            res == valid_knowledge_proof(params, self.v@, proof),
    {
        let bytes = proof.a.to_bytes();
        let c = hash_bytes_to_scalar(&bytes);
        let lhs = params.h.mul(&proof.z);
        let rhs = proof.a.add(&self.v.mul(&c));
        lhs.equals(&rhs)
    }
}

/// A signing key: the secret exponent `v` with `g^v`, `W1^v` and `W2^v`
/// precomputed.
#[derive(Clone, Copy, Debug)]
pub struct SecretKey {
    v: Scalar,
    v_g: G1,
    v_w1: G1,
    v_w2: G1,
}

impl SecretKey {
    /// The secret exponent.
    pub closed spec fn secret(&self) -> int {
        self.v@
    }

    /// The precomputed `g^v`.
    pub closed spec fn g_v(&self) -> int {
        self.v_g@
    }

    /// The precomputed `W1^v`.
    pub closed spec fn w1_v(&self) -> int {
        self.v_w1@
    }

    /// The precomputed `W2^v`.
    pub closed spec fn w2_v(&self) -> int {
        self.v_w2@
    }

    /// The precomputed elements are the ones for `params`.
    pub open spec fn matches(&self, params: &Params) -> bool {
        &&& self.g_v() == times(params.g@, self.secret())
        &&& self.w1_v() == times(params.w1@, self.secret())
        &&& self.w2_v() == times(params.w2@, self.secret())
    }

    /// A key pair with a random secret exponent.
    pub fn new(params: &Params, rng: &mut StdRng) -> (res: (VerificationKey, SecretKey))
        ensures
            res.1.matches(params),
            res.0.v@ == times(params.h@, res.1.secret()),
            0 <= res.1.secret() < group_order(),
    {
        let v = Scalar::rand(rng);
        proof { use_type_invariant(&v); v.lemma_value(); }
        SecretKey::from_secret(params, &v)
    }

    /// The key pair of secret exponent `v`.
    pub fn from_secret(params: &Params, v: &Scalar) -> (res: (VerificationKey, SecretKey))
        ensures
            res.1.matches(params),
            res.1.secret() == v@,
            res.0.v@ == times(params.h@, v@),
    {
        let vk_v = params.h.mul(v);
        let v_g = params.g.mul(v);
        let v_w1 = params.w1.mul(v);
        let v_w2 = params.w2.mul(v);
        (VerificationKey { v: vk_v }, SecretKey { v: *v, v_g, v_w1, v_w2 })
    }

    /// Signs `(M1, M2)` with a random non-zero `r`.
    pub fn sign(&self, params: &Params, m1: &G1, m2: &G1, rng: &mut StdRng) -> (res: Signature)
        ensures
            exists|r: int| 0 < r < group_order() && #[trigger] signed_with(params, self, m1@, m2@, r, &res),
    {
        let r_scalar = rand_nonzero(rng);
        let res = self.sign_with(params, m1, m2, &r_scalar);
        assert(signed_with(params, self, m1@, m2@, r_scalar@, &res));
        res
    }

    /// Signs `(M1, M2)` with the non-zero `r`: `R = h^r`,
    /// `S = (W1 g^v)^(1/r)`, `T1 = (M1 W1^v)^(1/r)` and `T2 = (M2 W2^v)^(1/r)`.
    pub fn sign_with(&self, params: &Params, m1: &G1, m2: &G1, r_scalar: &Scalar) -> (res: Signature)
        requires
            r_scalar@ != 0,
        ensures
            signed_with(params, self, m1@, m2@, r_scalar@, &res),
    {
        let r_inv = r_scalar.inverse();
        // R := h^r
        let r_group = params.h.mul(r_scalar);
        // S := (W1 * g^v)^(1/r)
        let s = params.w1.add(&self.v_g).mul(&r_inv);
        // T1 := (M1 * W1^v)^(1/r)
        let t1 = m1.add(&self.v_w1).mul(&r_inv);
        // T2 := (M2 * W2^v)^(1/r)
        let t2 = m2.add(&self.v_w2).mul(&r_inv);
        proof {
            super::standard::lemma_unscale(params.w1@ + self.v_g@, r_scalar@, r_inv@);
            super::standard::lemma_unscale(m1@ + self.v_w1@, r_scalar@, r_inv@);
            super::standard::lemma_unscale(m2@ + self.v_w2@, r_scalar@, r_inv@);
        }
        Signature { r: r_group, s, t1, t2 }
    }

    /// A proof of knowledge of the secret exponent with a random nonce.
    pub fn prove_knowledge(&self, params: &Params, rng: &mut StdRng) -> (res: SchnorrProof)
        ensures
            exists|r: int| 0 <= r < group_order() && #[trigger] proved_with(params, self, r, &res),
    {
        let r = Scalar::rand(rng);
        let res = self.prove_knowledge_with(params, &r);
        proof { use_type_invariant(&r); r.lemma_value(); }
        assert(proved_with(params, self, r@, &res));
        res
    }

    /// The proof of knowledge with nonce `r`: `A = h^r` and `z = r + c v` for the
    /// challenge `c` of `A`.
    pub fn prove_knowledge_with(&self, params: &Params, r: &Scalar) -> (res: SchnorrProof)
        ensures
            proved_with(params, self, r@, &res),
    {
        let a = params.h.mul(r);
        let bytes = a.to_bytes();
        let c = hash_bytes_to_scalar(&bytes);
        let z = r.add(&c.mul(&self.v));
        SchnorrProof { a, z }
    }
}

/// `sigma` is the signature on `(m1, m2)` by `sk` with exponent `r`:
/// `R = h^r` and `S^r = W1 g^v`, `T1^r = M1 W1^v`, `T2^r = M2 W2^v`, with the
/// key's precomputed `g^v`, `W1^v` and `W2^v`.
pub open spec fn signed_with(params: &Params, sk: &SecretKey, m1: int, m2: int, r: int, sigma: &Signature) -> bool {
    &&& sigma.r@ == times(params.h@, r)
    &&& times(sigma.s@, r) == plus(params.w1@, sk.g_v())
    &&& times(sigma.t1@, r) == plus(m1, sk.w1_v())
    &&& times(sigma.t2@, r) == plus(m2, sk.w2_v())
}

/// `proof` is the proof of knowledge of `sk` with nonce `r`.
pub open spec fn proved_with(params: &Params, sk: &SecretKey, r: int, proof: &SchnorrProof) -> bool {
    &&& proof.a@ == times(params.h@, r)
    &&& proof.z@ == plus(r, times(challenge(proof.a.encoding()), sk.secret()))
}

/// A signature made with a key whose precomputed elements match the parameters
/// verifies under that key's verification key.
pub proof fn lemma_signature_verifies(
    params: &Params,
    vk: &VerificationKey,
    sk: &SecretKey,
    m1: int,
    m2: int,
    r: int,
    sigma: &Signature,
)
    requires
        sk.matches(params),
        vk.v@ == times(params.h@, sk.secret()),
        signed_with(params, sk, m1, m2, r, sigma),
    ensures
        valid_signature(params, vk.v@, m1, m2, sigma),
{
    let v = sk.secret();
    let h = params.h@;
    lemma_exponent_swap(h, params.g@, v);
    lemma_pair_of_unscaled(h, r, sigma.s@, params.w1@, sk.g_v(), params.g@, vk.v@);
    lemma_exponent_swap(h, params.w1@, v);
    lemma_pair_of_unscaled(h, r, sigma.t1@, m1, sk.w1_v(), params.w1@, vk.v@);
    lemma_exponent_swap(h, params.w2@, v);
    lemma_pair_of_unscaled(h, r, sigma.t2@, m2, sk.w2_v(), params.w2@, vk.v@);
    assert(pair(sigma.s@, sigma.r@) == pair(sigma.r@, sigma.s@));
    assert(pair(sigma.t1@, sigma.r@) == pair(sigma.r@, sigma.t1@));
    assert(pair(sigma.t2@, sigma.r@) == pair(sigma.r@, sigma.t2@));
    assert(pair(params.w1@, h) == pair(h, params.w1@));
    assert(pair(m1, h) == pair(h, m1));
    assert(pair(m2, h) == pair(h, m2));
}

/// An honestly made proof of knowledge of the secret of a key verifies under
/// the key's verification key.
pub proof fn lemma_knowledge_proof_verifies(
    params: &Params,
    vk: &VerificationKey,
    sk: &SecretKey,
    r: int,
    proof: &SchnorrProof,
)
    requires
        vk.v@ == times(params.h@, sk.secret()),
        proved_with(params, sk, r, proof),
    ensures
        valid_knowledge_proof(params, vk.v@, proof),
{
    let h = params.h@;
    let v = sk.secret();
    let c = challenge(proof.a.encoding());
    // h z = h (r + c v) = h r + (h v) c
    lemma_cong_mod(r + times(c, v));
    lemma_cong_mod(c * v);
    lemma_cong_add(r, times(c, v), r, c * v);
    lemma_cong_mul(h, proof.z@, h, r + c * v);
    assert(h * (r + c * v) == h * r + (h * v) * c) by (nonlinear_arith);
    lemma_cong_mod(h * r);
    lemma_cong_mod(h * v);
    lemma_cong_mul(times(h, v), c, h * v, c);
    lemma_cong_mod(times(h, v) * c);
    lemma_cong_add(proof.a@, times(vk.v@, c), h * r, (h * v) * c);
    lemma_cong_mod(proof.a@ + times(vk.v@, c));
    lemma_cong_mod(h * proof.z@);
    lemma_cong_residues(times(h, proof.z@), plus(proof.a@, times(vk.v@, c)));
}

#[derive(Clone, Copy, Debug)]
pub struct Signature {
    pub r: G2,
    pub s: G1,
    pub t1: G1,
    pub t2: G1,
}

/// A Schnorr proof `(A, z)` of knowledge of the exponent of a G2 element.
#[derive(Clone, Copy, Debug)]
pub struct SchnorrProof {
    pub a: G2,
    pub z: Scalar,
}

/// The challenge scalar of `bytes`: their BLAKE3 digest, read as a
/// little-endian integer and reduced modulo the order.
fn hash_bytes_to_scalar(bytes: &[u8]) -> (res: Scalar)
    ensures
        res@ == challenge(bytes@),
{
    let digest = blake3_hash(bytes);
    Scalar::from_le_bytes_mod_order(&digest)
}

/// `blake3::hash`: the 32-byte BLAKE3 digest of `input`.
#[verifier::external_body]
fn blake3_hash(input: &[u8]) -> (res: [u8; 32])
    ensures
        res@ == blake3_digest(input@),
{
    *blake3::hash(input).as_bytes()
}

/// A signature verifies for at most one message pair: under parameters whose
/// `h` has logarithm one (as `Params::new` and `Params::from_exponents`
/// make them), two pairs of G1 messages that one signature is valid for
/// under one key are equal.
pub proof fn lemma_signature_unique(
    params: &Params,
    v: int,
    m1: int,
    m2: int,
    m1b: int,
    m2b: int,
    sigma: &Signature,
)
    requires
        params.h@ == 1,
        0 <= m1 < group_order(),
        0 <= m2 < group_order(),
        0 <= m1b < group_order(),
        0 <= m2b < group_order(),
        valid_signature(params, v, m1, m2, sigma),
        valid_signature(params, v, m1b, m2b, sigma),
    ensures
        m1 == m1b,
        m2 == m2b,
{
    assert(pair(m1, params.h@) == m1 % group_order());
    assert(pair(m1b, params.h@) == m1b % group_order());
    assert(pair(m2, params.h@) == m2 % group_order());
    assert(pair(m2b, params.h@) == m2b % group_order());
    lemma_cong_mod(m1);
    lemma_cong_mod(m1b);
    lemma_cong_mod(m2);
    lemma_cong_mod(m2b);
    lemma_cong_sub(m1 % group_order() + pair(params.w1@, v), pair(params.w1@, v), m1b % group_order() + pair(params.w1@, v), pair(params.w1@, v));
    lemma_cong_sub(m2 % group_order() + pair(params.w2@, v), pair(params.w2@, v), m2b % group_order() + pair(params.w2@, v), pair(params.w2@, v));
    lemma_cong_residues(m1, m1b);
    lemma_cong_residues(m2, m2b);
}

} // verus!
