//! Groth15 signatures on pairs of G2 elements, with verification keys in G1.
use vstd::prelude::*;
use ark_std::rand::rngs::StdRng;
use crate::curve::{group_order, pairing, Scalar, G1, G2};
use crate::modular::{
    lemma_cong_mod, lemma_cong_sub, lemma_cong_mul, lemma_cong_residues, lemma_exponent_swap, lemma_pair_of_unscaled,
    pair, plus, times,
};
use super::rand_nonzero;

verus! {

/// Public parameters: the generators `g` and `h` and two elements `Y1`, `Y2` of G2.
#[derive(Clone, Copy, Debug)]
pub struct Params {
    pub y1: G2,
    pub y2: G2,
    pub g: G1,
    pub h: G2,
}

impl Params {
    /// Parameters with `Y1 = h^y1` and `Y2 = h^y2` for random exponents.
    pub fn new(rng: &mut StdRng) -> (res: Params)
        ensures
            res.g@ == 1,
            res.h@ == 1,
    {
        let y1_scalar = Scalar::rand(rng);
        let y2_scalar = Scalar::rand(rng);
        Params::from_exponents(&y1_scalar, &y2_scalar)
    }

    /// Parameters with `Y1 = h^y1_scalar` and `Y2 = h^y2_scalar`.
    pub fn from_exponents(y1_scalar: &Scalar, y2_scalar: &Scalar) -> (res: Params)
        ensures
            res.g@ == 1,
            res.h@ == 1,
            res.y1@ == y1_scalar@,
            res.y2@ == y2_scalar@,
    {
        let g = G1::generator();
        let h = G2::generator();
        let y1 = h.mul(y1_scalar);
        let y2 = h.mul(y2_scalar);
        proof {
            use_type_invariant(y1_scalar);
            use_type_invariant(y2_scalar);
            y1_scalar.lemma_value();
            y2_scalar.lemma_value();
            lemma_cong_residues(y1@, y1_scalar@);
            lemma_cong_residues(y2@, y2_scalar@);
        }
        Params { y1, y2, g, h }
    }
}

#[derive(Clone, Copy, Debug)]
pub struct VerificationKey {
    pub v: G1,
}

/// The three pairing equations of a valid signature `(R, S, T1, T2)` on
/// `(M1, M2)` under the verification key of logarithm `v`:
/// `e(R, S) = e(g, Y1) e(V, h)`, `e(R, T1) = e(g, M1) e(V, Y1)` and
/// `e(R, T2) = e(g, M2) e(V, Y2)`.
pub open spec fn valid_signature(params: &Params, v: int, m1: int, m2: int, sigma: &Signature) -> bool {
    &&& pair(sigma.r@, sigma.s@) == plus(pair(params.g@, params.y1@), pair(v, params.h@))
    &&& pair(sigma.r@, sigma.t1@) == plus(pair(params.g@, m1), pair(v, params.y1@))
    &&& pair(sigma.r@, sigma.t2@) == plus(pair(params.g@, m2), pair(v, params.y2@))
}

impl VerificationKey {
    pub fn verify(&self, params: &Params, m1: &G2, m2: &G2, sigma: &Signature) -> (res: bool)
        ensures
            res == valid_signature(params, self.v@, m1@, m2@, sigma),
    {
        // e(R, S) = e(g, Y1) * e(V, h)
        let lhs1 = pairing(&sigma.r, &sigma.s);
        let rhs1 = pairing(&params.g, &params.y1).add(&pairing(&self.v, &params.h));
        if !lhs1.equals(&rhs1) {
            return false;
        }
        // e(R, T1) = e(g, M1) * e(V, Y1)
        let lhs2 = pairing(&sigma.r, &sigma.t1);
        let rhs2 = pairing(&params.g, m1).add(&pairing(&self.v, &params.y1));
        if !lhs2.equals(&rhs2) {
            return false;
        }
        // e(R, T2) = e(g, M2) * e(V, Y2)
        let lhs3 = pairing(&sigma.r, &sigma.t2);
        let rhs3 = pairing(&params.g, m2).add(&pairing(&self.v, &params.y2));
        lhs3.equals(&rhs3)
    }
}

/// A signing key: the secret exponent `v` with `h^v`, `Y1^v` and `Y2^v`
/// precomputed.
#[derive(Clone, Copy, Debug)]
pub struct SecretKey {
    _v: Scalar,
    v_h: G2,
    v_y1: G2,
    v_y2: G2,
}

impl SecretKey {
    /// The secret exponent.
    pub closed spec fn secret(&self) -> int {
        self._v@
    }

    /// The precomputed `h^v`.
    pub closed spec fn h_v(&self) -> int {
        self.v_h@
    }

    /// The precomputed `Y1^v`.
    pub closed spec fn y1_v(&self) -> int {
        self.v_y1@
    }

    /// The precomputed `Y2^v`.
    pub closed spec fn y2_v(&self) -> int {
        self.v_y2@
    }

    /// The precomputed elements are the ones for `params`.
    pub open spec fn matches(&self, params: &Params) -> bool {
        &&& self.h_v() == times(params.h@, self.secret())
        &&& self.y1_v() == times(params.y1@, self.secret())
        &&& self.y2_v() == times(params.y2@, self.secret())
    }

    /// A key pair with a random secret exponent.
    pub fn new(params: &Params, rng: &mut StdRng) -> (res: (VerificationKey, SecretKey))
        ensures
            res.1.matches(params),
            res.0.v@ == times(params.g@, res.1.secret()),
            0 <= res.1.secret() < group_order(),
    {
        let v = Scalar::rand(rng);
        proof { use_type_invariant(&v); v.lemma_value(); }
        SecretKey::from_secret(params, &v)
    }

    /// The key pair of secret exponent `v`.
    pub fn from_secret(params: &Params, v: &Scalar) -> (res: (VerificationKey, SecretKey))
        ensures
            res.1.matches(params),
            res.1.secret() == v@,
            res.0.v@ == times(params.g@, v@),
    {
        let vk_v = params.g.mul(v);
        // S needs h^v, T1 needs Y1^v, T2 needs Y2^v
        let v_h = params.h.mul(v);
        let v_y1 = params.y1.mul(v);
        let v_y2 = params.y2.mul(v);
        (VerificationKey { v: vk_v }, SecretKey { _v: *v, v_h, v_y1, v_y2 })
    }

    /// Signs `(M1, M2)` with a random non-zero `r`.
    pub fn sign(&self, params: &Params, m1: &G2, m2: &G2, rng: &mut StdRng) -> (res: Signature)
        ensures
            exists|r: int| 0 < r < group_order() && #[trigger] signed_with(params, self, m1@, m2@, r, &res),
    {
        let r_scalar = rand_nonzero(rng);
        let res = self.sign_with(params, m1, m2, &r_scalar);
        assert(signed_with(params, self, m1@, m2@, r_scalar@, &res));
        res
    }

    /// Signs `(M1, M2)` with the non-zero `r`: `R = g^r`,
    /// `S = (Y1 h^v)^(1/r)`, `T1 = (M1 Y1^v)^(1/r)` and `T2 = (M2 Y2^v)^(1/r)`.
    pub fn sign_with(&self, params: &Params, m1: &G2, m2: &G2, r_scalar: &Scalar) -> (res: Signature)
        requires
            r_scalar@ != 0,
        ensures
            signed_with(params, self, m1@, m2@, r_scalar@, &res),
    {
        let r_inv = r_scalar.inverse();
        // R := g^r
        let r_group = params.g.mul(r_scalar);
        // S := (Y1 * h^v)^(1/r)
        let s = params.y1.add(&self.v_h).mul(&r_inv);
        // T1 := (M1 * Y1^v)^(1/r)
        let t1 = m1.add(&self.v_y1).mul(&r_inv);
        // T2 := (M2 * Y2^v)^(1/r)
        let t2 = m2.add(&self.v_y2).mul(&r_inv);
        proof {
            lemma_unscale(params.y1@ + self.v_h@, r_scalar@, r_inv@);
            lemma_unscale(m1@ + self.v_y1@, r_scalar@, r_inv@);
            lemma_unscale(m2@ + self.v_y2@, r_scalar@, r_inv@);
        }
        Signature { r: r_group, s, t1, t2 }
    }
}

/// `sigma` is the signature on `(m1, m2)` by `sk` with exponent `r`:
/// `R = g^r` and `S^r = Y1 h^v`, `T1^r = M1 Y1^v`, `T2^r = M2 Y2^v`, with the
/// key's precomputed `h^v`, `Y1^v` and `Y2^v`.
pub open spec fn signed_with(params: &Params, sk: &SecretKey, m1: int, m2: int, r: int, sigma: &Signature) -> bool {
    &&& sigma.r@ == times(params.g@, r)
    &&& times(sigma.s@, r) == plus(params.y1@, sk.h_v())
    &&& times(sigma.t1@, r) == plus(m1, sk.y1_v())
    &&& times(sigma.t2@, r) == plus(m2, sk.y2_v())
}

/// Raising `x` to `1/r` and then to `r` gives `x` back.
pub(crate) proof fn lemma_unscale(x: int, r: int, r_inv: int)
    requires
        (r * r_inv) % group_order() == 1,
    ensures
        times(times(x % group_order(), r_inv), r) == x % group_order(),
{
    let m = x % group_order();
    lemma_cong_mod(x);
    lemma_cong_mod(m * r_inv);
    lemma_cong_mul(times(m, r_inv), r, m * r_inv, r);
    assert(m * r_inv * r == m * (r * r_inv)) by (nonlinear_arith);
    lemma_cong_mod(r * r_inv);
    lemma_cong_mul(m, r * r_inv, m, 1);
    lemma_cong_mod(times(m, r_inv) * r);
    lemma_cong_residues(times(times(m, r_inv), r), m);
}

/// A signature made with a key whose precomputed elements match the parameters
/// verifies under that key's verification key.
pub proof fn lemma_signature_verifies(
    params: &Params,
    vk: &VerificationKey,
    sk: &SecretKey,
    m1: int,
    m2: int,
    r: int,
    sigma: &Signature,
)
    requires
        sk.matches(params),
        vk.v@ == times(params.g@, sk.secret()),
        signed_with(params, sk, m1, m2, r, sigma),
    ensures
        valid_signature(params, vk.v@, m1, m2, sigma),
{
    let v = sk.secret();
    lemma_exponent_swap(params.g@, params.h@, v);
    lemma_pair_of_unscaled(params.g@, r, sigma.s@, params.y1@, sk.h_v(), vk.v@, params.h@);
    lemma_exponent_swap(params.g@, params.y1@, v);
    lemma_pair_of_unscaled(params.g@, r, sigma.t1@, m1, sk.y1_v(), vk.v@, params.y1@);
    lemma_exponent_swap(params.g@, params.y2@, v);
    lemma_pair_of_unscaled(params.g@, r, sigma.t2@, m2, sk.y2_v(), vk.v@, params.y2@);
}

#[derive(Clone, Copy, Debug)]
pub struct Signature {
    pub r: G1,
    pub s: G2,
    pub t1: G2,
    pub t2: G2,
}

/// A signature verifies for at most one message pair: under parameters whose
/// `g` has logarithm one (as `Params::new` and `Params::from_exponents`
/// make them), two pairs of G2 messages that one signature is valid for
/// under one key are equal.
pub proof fn lemma_signature_unique(
    params: &Params,
    v: int,
    m1: int,
    m2: int,
    m1b: int,
    m2b: int,
    sigma: &Signature,
)
    requires
        params.g@ == 1,
        0 <= m1 < group_order(),
        0 <= m2 < group_order(),
        0 <= m1b < group_order(),
        0 <= m2b < group_order(),
        valid_signature(params, v, m1, m2, sigma),
        valid_signature(params, v, m1b, m2b, sigma),
    ensures
        m1 == m1b,
        m2 == m2b,
{
    assert(pair(params.g@, m1) == m1 % group_order());
    assert(pair(params.g@, m1b) == m1b % group_order());
    assert(pair(params.g@, m2) == m2 % group_order());
    assert(pair(params.g@, m2b) == m2b % group_order());
    lemma_cong_mod(m1);
    lemma_cong_mod(m1b);
    lemma_cong_mod(m2);
    lemma_cong_mod(m2b);
    lemma_cong_sub(m1 % group_order() + pair(v, params.y1@), pair(v, params.y1@), m1b % group_order() + pair(v, params.y1@), pair(v, params.y1@));
    lemma_cong_sub(m2 % group_order() + pair(v, params.y2@), pair(v, params.y2@), m2b % group_order() + pair(v, params.y2@), pair(v, params.y2@));
    lemma_cong_residues(m1, m1b);
    lemma_cong_residues(m2, m2b);
}

} // verus!
