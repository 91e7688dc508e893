//! A Groth-Sahai proof of a vouch: commitments to the credential's and the
//! vouch's signatures and to the user's key, with proofs of the seven pairing
//! equations that make the vouch valid.
use vstd::prelude::*;
use ark_std::rand::rngs::StdRng;
use crate::curve::{Gt, Scalar, G1, G2};
use crate::gro15::{flipped, standard};
use crate::gs08::{
    committed_g1, committed_g2, lemma_ppe_proof_verifies, lemma_ppe_proof_verifies_iff, lin1_committed,
    lin1_view, lin2_committed, lin2_view, ppe_verifies, proved_ppe_with, quad_committed, sum_lin1, sum_lin2,
    wit_a, wit_b, ProverKey,
};
use crate::modular::{
    cong, lemma_cong_add, lemma_cong_mod, lemma_cong_mul, lemma_cong_residues, lemma_cong_sub, lemma_plus_cong,
    minus, pair, plus, times,
};
use crate::poly::{from_roots, lemma_from_roots_len, poly_mul, values};
use super::credential::{attribute_commitment, revealed_commitment, Credential};
use super::params::{crs_of, g2_logs, lemma_opening_pairs, poly_commitment, PublicParams};
use super::vouch::{valid_vouch, Vouch};

verus! {

/// A Groth-Sahai proof of a vouch.
#[derive(Clone, Copy, Debug)]
pub struct Proof {
    // Commitments to the witnesses
    pub com_r: [G1; 2],
    pub com_s: [G2; 2],
    pub com_t1: [G2; 2],
    pub com_t2: [G2; 2],
    pub com_vu: [G2; 2],
    pub com_att: [G2; 2],
    pub com_pi_idx: [G2; 2],
    pub com_rst: [G2; 2],
    pub com_sst: [G1; 2],
    pub com_tst1: [G1; 2],
    pub com_tst2: [G1; 2],
    // Proofs of the equations
    pub proof_1_theta: [[G1; 2]; 2],
    pub proof_1_pi: [[G2; 2]; 2],
    pub proof_2_theta: [[G1; 2]; 2],
    pub proof_2_pi: [[G2; 2]; 2],
    pub proof_3_theta: [[G1; 2]; 2],
    pub proof_3_pi: [[G2; 2]; 2],
    pub proof_4_theta: [[G1; 2]; 2],
    pub proof_4_pi: [[G2; 2]; 2],
    pub proof_5_theta: [[G1; 2]; 2],
    pub proof_5_pi: [[G2; 2]; 2],
    pub proof_6_theta: [[G1; 2]; 2],
    pub proof_6_pi: [[G2; 2]; 2],
    pub proof_7_theta: [[G1; 2]; 2],
    pub proof_7_pi: [[G2; 2]; 2],
}

/// The seven equations, checked on the commitments, for the issuer key of
/// logarithm `vi`, the statement `st` and the revealed-attribute commitment `m2`:
/// 1. `e(R, S) = e(g, Y1) e(VI, h)`
/// 2. `e(R, T1) e(-g, VU) = e(VI, Y1)`
/// 3. `e(R, T2) e(-g, com_att) = e(VI, Y2)`
/// 4. `e(M2, pi_idx) e(-g, com_att) = 1`
/// 5. `e(Sst, Rst) e(-g, VU) = e(W1, h)`
/// 6. `e(Tst1, Rst) e(-W1, VU) = e(g^st, h)`
/// 7. `e(Tst2, Rst) e(-W2, VU) = e(M2, h)`
pub open spec fn proof_verifies(pp: &PublicParams, pk: &ProverKey, vi: int, st: int, m2: int, p: &Proof) -> bool {
    let g = pp.gro15_params.g@;
    let h = pp.gro15_params.h@;
    let y1 = pp.gro15_params.y1@;
    let y2 = pp.gro15_params.y2@;
    let w1 = pp.flipped_params.w1@;
    let w2 = pp.flipped_params.w2@;
    let m1 = times(g, st);
    &&& ppe_verifies(pk, Some((&p.com_r, &p.com_s)), seq![], seq![], plus(pair(g, y1), pair(vi, h)), p.proof_1_theta, p.proof_1_pi)
    &&& ppe_verifies(pk, Some((&p.com_r, &p.com_t1)), seq![(minus(g), p.com_vu)], seq![], pair(vi, y1), p.proof_2_theta, p.proof_2_pi)
    &&& ppe_verifies(pk, Some((&p.com_r, &p.com_t2)), seq![(minus(g), p.com_att)], seq![], pair(vi, y2), p.proof_3_theta, p.proof_3_pi)
    &&& ppe_verifies(pk, None, seq![(m2, p.com_pi_idx), (minus(g), p.com_att)], seq![], 0, p.proof_4_theta, p.proof_4_pi)
    &&& ppe_verifies(pk, Some((&p.com_sst, &p.com_rst)), seq![(minus(g), p.com_vu)], seq![], pair(w1, h), p.proof_5_theta, p.proof_5_pi)
    &&& ppe_verifies(pk, Some((&p.com_tst1, &p.com_rst)), seq![(minus(w1), p.com_vu)], seq![], pair(m1, h), p.proof_6_theta, p.proof_6_pi)
    &&& ppe_verifies(pk, Some((&p.com_tst2, &p.com_rst)), seq![(minus(w2), p.com_vu)], seq![], pair(m2, h), p.proof_7_theta, p.proof_7_pi)
}

impl Proof {
    pub fn verify(
        &self,
        pp: &PublicParams,
        pk: &ProverKey,
        issuer_vk: &standard::VerificationKey,
        statement: &Scalar,
        m2_val: &G1,
    ) -> (res: bool)
        ensures
            res == proof_verifies(pp, pk, issuer_vk.v@, statement@, m2_val@, self),
    {
        // Reconstruct the constants
        let g = pp.gro15_params.g;
        let h = pp.gro15_params.h;
        let y1 = pp.gro15_params.y1;
        let y2 = pp.gro15_params.y2;
        let vi = issuer_vk.v;
        let w1 = pp.flipped_params.w1;
        let w2 = pp.flipped_params.w2;
        let m1 = g.mul(statement);
        let m2 = *m2_val;
        let neg_g = g.neg();
        let neg_w1 = w1.neg();
        let neg_w2 = w2.neg();

        // Targets
        let t1 = crate::curve::pairing(&g, &y1).add(&crate::curve::pairing(&vi, &h));
        let t2 = crate::curve::pairing(&vi, &y1);
        let t3 = crate::curve::pairing(&vi, &y2);
        let t4 = Gt::zero();
        let t5 = crate::curve::pairing(&w1, &h);
        let t6 = crate::curve::pairing(&m1, &h);
        let t7 = crate::curve::pairing(&m2, &h);

        let no_lin1: [(&G1, &[G2; 2]); 0] = [];
        let no_lin2: [(&[G1; 2], &G2); 0] = [];
        let lin_2 = [(&neg_g, &self.com_vu)];
        let lin_3 = [(&neg_g, &self.com_att)];
        let lin_4 = [(&m2, &self.com_pi_idx), (&neg_g, &self.com_att)];
        let lin_6 = [(&neg_w1, &self.com_vu)];
        let lin_7 = [(&neg_w2, &self.com_vu)];

        let ok1 = pk.verify_ppe(Some((&self.com_r, &self.com_s)), &no_lin1, &no_lin2, t1, &self.proof_1_theta, &self.proof_1_pi);
        let ok2 = pk.verify_ppe(Some((&self.com_r, &self.com_t1)), &lin_2, &no_lin2, t2, &self.proof_2_theta, &self.proof_2_pi);
        let ok3 = pk.verify_ppe(Some((&self.com_r, &self.com_t2)), &lin_3, &no_lin2, t3, &self.proof_3_theta, &self.proof_3_pi);
        let ok4 = pk.verify_ppe(None, &lin_4, &no_lin2, t4, &self.proof_4_theta, &self.proof_4_pi);
        let ok5 = pk.verify_ppe(Some((&self.com_sst, &self.com_rst)), &lin_2, &no_lin2, t5, &self.proof_5_theta, &self.proof_5_pi);
        let ok6 = pk.verify_ppe(Some((&self.com_tst1, &self.com_rst)), &lin_6, &no_lin2, t6, &self.proof_6_theta, &self.proof_6_pi);
        let ok7 = pk.verify_ppe(Some((&self.com_tst2, &self.com_rst)), &lin_7, &no_lin2, t7, &self.proof_7_theta, &self.proof_7_pi);
        proof {
            assert(lin1_view(no_lin1@) =~= seq![]);
            assert(lin2_view(no_lin2@) =~= seq![]);
            assert(lin1_view(lin_2@) =~= seq![(minus(g@), self.com_vu)]);
            assert(lin1_view(lin_3@) =~= seq![(minus(g@), self.com_att)]);
            assert(lin1_view(lin_4@) =~= seq![(m2@, self.com_pi_idx), (minus(g@), self.com_att)]);
            assert(lin1_view(lin_6@) =~= seq![(minus(w1@), self.com_vu)]);
            assert(lin1_view(lin_7@) =~= seq![(minus(w2@), self.com_vu)]);
        }
        ok1 && ok2 && ok3 && ok4 && ok5 && ok6 && ok7
    }
}

/// What makes the seven equations hold for the issuer key of logarithm `vi`
/// and the statement `st`: the two Groth15 parameter sets share their
/// generators, the credential's signature on `(V_U, com_att)` verifies under
/// `vi`, the vouch's signature on `(g^st, m2)` verifies under `V_U`, and
/// `e(M2, pi_idx) = e(g, com_att)`.
pub open spec fn provable(
    pp: &PublicParams,
    vu: int,
    credential: &Credential,
    vouch: &Vouch,
    m2: int,
    kzg_pi: int,
    vi: int,
    st: int,
) -> bool {
    &&& pp.flipped_params.g@ == pp.gro15_params.g@
    &&& pp.flipped_params.h@ == pp.gro15_params.h@
    &&& standard::valid_signature(&pp.gro15_params, vi, vu, credential.com_att@, &credential.sigma)
    &&& flipped::valid_signature(&pp.flipped_params, vu, times(pp.gro15_params.g@, st), m2, &vouch.sigma_vouch)
    &&& pair(m2, kzg_pi) == pair(pp.gro15_params.g@, credential.com_att@)
}

/// A vouch made from an issued credential can be proven: when the issuer's
/// signature on the credential and the user's signature on the vouch were made
/// by keys that match the parameters, and `f_att = s q` for the polynomial `s`
/// of the revealed attributes, the seven equations hold for the issuer's key,
/// the statement, the commitment to the revealed attributes and the KZG
/// opening `Com_2(q)`.
pub proof fn lemma_vouch_provable(
    pp: &PublicParams,
    tau: int,
    max_degree: int,
    issuer_vk: &standard::VerificationKey,
    issuer_sk: &standard::SecretKey,
    user_sk: &flipped::SecretKey,
    credential: &Credential,
    vouch: &Vouch,
    attributes: Seq<Scalar>,
    statement: int,
    q: Seq<int>,
    r_cred: int,
    r_vouch: int,
)
    requires
        crs_of(pp, tau, max_degree),
        pp.flipped_params.g@ == pp.gro15_params.g@,
        pp.flipped_params.h@ == pp.gro15_params.h@,
        issuer_sk.matches(&pp.gro15_params),
        issuer_vk.v@ == times(pp.gro15_params.g@, issuer_sk.secret()),
        user_sk.matches(&pp.flipped_params),
        credential.v_u@ == times(pp.flipped_params.h@, user_sk.secret()),
        credential.com_att@ == attribute_commitment(pp, attributes),
        standard::signed_with(&pp.gro15_params, issuer_sk, credential.v_u@, credential.com_att@, r_cred, &credential.sigma),
        flipped::signed_with(
            &pp.flipped_params,
            user_sk,
            times(pp.gro15_params.g@, statement),
            revealed_commitment(pp, vouch.revealed_values@),
            r_vouch,
            &vouch.sigma_vouch,
        ),
        from_roots(values(attributes)) == poly_mul(from_roots(values(vouch.revealed_values@)), q),
        attributes.len() <= max_degree,
        vouch.revealed_values@.len() <= max_degree,
        q.len() <= max_degree + 1,
    ensures
        provable(
            pp,
            credential.v_u@,
            credential,
            vouch,
            revealed_commitment(pp, vouch.revealed_values@),
            poly_commitment(g2_logs(pp.crs_g2@), q),
            issuer_vk.v@,
            statement,
        ),
{
    standard::lemma_signature_verifies(
        &pp.gro15_params,
        issuer_vk,
        issuer_sk,
        credential.v_u@,
        credential.com_att@,
        r_cred,
        &credential.sigma,
    );
    let user_vk = flipped::VerificationKey { v: credential.v_u };
    flipped::lemma_signature_verifies(
        &pp.flipped_params,
        &user_vk,
        user_sk,
        times(pp.gro15_params.g@, statement),
        revealed_commitment(pp, vouch.revealed_values@),
        r_vouch,
        &vouch.sigma_vouch,
    );
    lemma_from_roots_len(values(attributes));
    lemma_from_roots_len(values(vouch.revealed_values@));
    lemma_opening_pairs(pp, tau, max_degree, from_roots(values(vouch.revealed_values@)), q);
}

/// If `e(a, b) = e(c, d) t` (in either order) and `n` is the inverse of `c`,
/// then `t` is the logarithm of `e(a, b) e(n, d)`.
proof fn lemma_target(a: int, b: int, c: int, d: int, t: int, n: int)
    requires
        pair(a, b) == plus(pair(c, d), t) || pair(a, b) == plus(t, pair(c, d)),
        n == minus(c),
    ensures
        cong(t, a * b + n * d),
{
    lemma_cong_mod(a * b);
    lemma_cong_mod(c * d);
    lemma_cong_mod(pair(c, d) + t);
    lemma_cong_mod(t + pair(c, d));
    lemma_cong_mod(-c);
    crate::modular::lemma_times_cong(n, d, -c, d);
    lemma_cong_add(a * b, n * d, pair(c, d) + t, -c * d);
    lemma_cong_add(pair(c, d), t - c * d, c * d, t - c * d);
    assert(-c * d == -(c * d)) by (nonlinear_arith);
}

/// The exponent sum of a single linear term.
proof fn lemma_sum_lin1_one(lin1: Seq<(&G1, &[Scalar; 2])>, d: Seq<int>)
    requires
        lin1.len() == 1,
    ensures
        sum_lin1(lin1, d) == lin1[0].0@ * d[0],
{
    assert(sum_lin1(lin1.drop_last(), d) == 0);
}

/// The exponent sum of two linear terms.
proof fn lemma_sum_lin1_two(lin1: Seq<(&G1, &[Scalar; 2])>, d: Seq<int>)
    requires
        lin1.len() == 2,
    ensures
        sum_lin1(lin1, d) == lin1[0].0@ * d[0] + lin1[1].0@ * d[1],
{
    let first = lin1.drop_last();
    assert(first[0] == lin1[0]);
    lemma_sum_lin1_one(first, d);
}

/// Proves one equation `e(A, B) + sum e(F_i, D_i) = T` of the vouch proof, for
/// the commitments `quad_v` and `lin1_v` made with the randomness in `quad` and
/// `lin1`, whose witnesses give the exponent `value`: the proof verifies for
/// every target congruent to it.
fn prove_equation(
    pk: &ProverKey,
    rng: &mut StdRng,
    quad: Option<(&G1, &[Scalar; 2], &G2, &[Scalar; 2])>,
    lin1: &[(&G1, &[Scalar; 2])],
    Ghost(quad_v): Ghost<Option<(&[G1; 2], &[G2; 2])>>,
    Ghost(lin1_v): Ghost<Seq<(int, [G2; 2])>>,
    Ghost(d): Ghost<Seq<int>>,
    Ghost(value): Ghost<int>,
) -> (res: ([[G1; 2]; 2], [[G2; 2]; 2]))
    requires
        quad_committed(pk, quad, quad_v),
        lin1_committed(pk, lin1@, lin1_v, d),
        value == wit_a(quad) * wit_b(quad) + sum_lin1(lin1@, d),
    ensures
        exists|tt: [[Scalar; 2]; 2]| #[trigger] proved_ppe_with(pk, tt, quad, lin1@, Seq::empty(), res.0, res.1),
        forall|target: int|
            cong(target, value) ==> #[trigger] ppe_verifies(pk, quad_v, lin1_v, seq![], target, res.0, res.1),
{
    let no_lin2: [(&[Scalar; 2], &G2); 0] = [];
    let res = pk.prove_ppe(rng, quad, lin1, &no_lin2);
    proof {
        let tt = choose|tt: [[Scalar; 2]; 2]| #[trigger] proved_ppe_with(pk, tt, quad, lin1@, no_lin2@, res.0, res.1);
        assert(no_lin2@ =~= Seq::empty());
        assert(proved_ppe_with(pk, tt, quad, lin1@, Seq::empty(), res.0, res.1));
        assert(lin2_committed(pk, no_lin2@, seq![], seq![]));
        assert(sum_lin2(no_lin2@, seq![]) == 0);
        assert forall|target: int| cong(target, value)
            implies #[trigger] ppe_verifies(pk, quad_v, lin1_v, seq![], target, res.0, res.1) by {
            lemma_ppe_proof_verifies(pk, tt, quad, lin1@, no_lin2@, quad_v, lin1_v, seq![], d, seq![], target, res.0, res.1);
        }
    }
    res
}

/// The seven equations hold of a vouch proof whose parts each verify for every
/// target congruent to the exponent of their witnesses, whenever the
/// witnesses make the vouch provable.
proof fn lemma_prove_complete(
    pp: &PublicParams,
    pk: &ProverKey,
    vu: int,
    credential: &Credential,
    vouch: &Vouch,
    m2: int,
    kzg_pi: int,
    p: &Proof,
)
    requires
        ({
            let g = pp.gro15_params.g@;
            let w1 = pp.flipped_params.w1@;
            let w2 = pp.flipped_params.w2@;
            let sig = credential.sigma;
            let sv = vouch.sigma_vouch;
            &&& forall|t: int| #[trigger] cong(t, sig.r@ * sig.s@)
                ==> ppe_verifies(pk, Some((&p.com_r, &p.com_s)), seq![], seq![], t, p.proof_1_theta, p.proof_1_pi)
            &&& forall|t: int| #[trigger] cong(t, sig.r@ * sig.t1@ + minus(g) * vu)
                ==> ppe_verifies(pk, Some((&p.com_r, &p.com_t1)), seq![(minus(g), p.com_vu)], seq![], t, p.proof_2_theta, p.proof_2_pi)
            &&& forall|t: int| #[trigger] cong(t, sig.r@ * sig.t2@ + minus(g) * credential.com_att@)
                ==> ppe_verifies(pk, Some((&p.com_r, &p.com_t2)), seq![(minus(g), p.com_att)], seq![], t, p.proof_3_theta, p.proof_3_pi)
            &&& forall|t: int| #[trigger] cong(t, m2 * kzg_pi + minus(g) * credential.com_att@)
                ==> ppe_verifies(pk, None, seq![(m2, p.com_pi_idx), (minus(g), p.com_att)], seq![], t, p.proof_4_theta, p.proof_4_pi)
            &&& forall|t: int| #[trigger] cong(t, sv.s@ * sv.r@ + minus(g) * vu)
                ==> ppe_verifies(pk, Some((&p.com_sst, &p.com_rst)), seq![(minus(g), p.com_vu)], seq![], t, p.proof_5_theta, p.proof_5_pi)
            &&& forall|t: int| #[trigger] cong(t, sv.t1@ * sv.r@ + minus(w1) * vu)
                ==> ppe_verifies(pk, Some((&p.com_tst1, &p.com_rst)), seq![(minus(w1), p.com_vu)], seq![], t, p.proof_6_theta, p.proof_6_pi)
            &&& forall|t: int| #[trigger] cong(t, sv.t2@ * sv.r@ + minus(w2) * vu)
                ==> ppe_verifies(pk, Some((&p.com_tst2, &p.com_rst)), seq![(minus(w2), p.com_vu)], seq![], t, p.proof_7_theta, p.proof_7_pi)
        }),
    ensures
        forall|vi: int, st: int|
            provable(pp, vu, credential, vouch, m2, kzg_pi, vi, st)
                ==> #[trigger] proof_verifies(pp, pk, vi, st, m2, p),
{
    let g = pp.gro15_params.g@;
    let h = pp.gro15_params.h@;
    let y1 = pp.gro15_params.y1@;
    let y2 = pp.gro15_params.y2@;
    let w1 = pp.flipped_params.w1@;
    let w2 = pp.flipped_params.w2@;
    let sig = credential.sigma;
    let sv = vouch.sigma_vouch;
    assert forall|vi: int, st: int| provable(pp, vu, credential, vouch, m2, kzg_pi, vi, st)
        implies #[trigger] proof_verifies(pp, pk, vi, st, m2, p) by {
        lemma_cong_mod(sig.r@ * sig.s@);
        lemma_target(sig.r@, sig.t1@, g, vu, pair(vi, y1), minus(g));
        lemma_target(sig.r@, sig.t2@, g, credential.com_att@, pair(vi, y2), minus(g));
        lemma_target(m2, kzg_pi, g, credential.com_att@, 0, minus(g));
        lemma_target(sv.s@, sv.r@, g, vu, pair(w1, h), minus(g));
        lemma_target(sv.t1@, sv.r@, w1, vu, pair(times(g, st), h), minus(w1));
        lemma_target(sv.t2@, sv.r@, w2, vu, pair(m2, h), minus(w2));
    }
}

/// The constants and commitment randomness of linear terms of the first kind.
pub open spec fn lin1_values(lin1: Seq<(&G1, &[Scalar; 2])>) -> Seq<(int, [Scalar; 2])> {
    lin1.map_values(|e: (&G1, &[Scalar; 2])| (e.0@, *e.1))
}

/// `sum F_i D_i` in the exponent, over the constants' logarithms.
pub open spec fn sum_lin1_values(lin1: Seq<(int, [Scalar; 2])>, d: Seq<int>) -> int
    decreases lin1.len(),
{
    if lin1.len() == 0 {
        0
    } else {
        sum_lin1_values(lin1.drop_last(), d) + lin1.last().0 * d[lin1.len() - 1]
    }
}

/// `(theta, pi)` is an honest proof of an equation with the quadratic witnesses
/// and randomness `quad`, linear terms of the first kind whose constants and
/// commitment randomness are `lin1`, and none of the second kind: it is what
/// `prove_ppe` returns for some proof randomness.
pub open spec fn proved_equation(
    pk: &ProverKey,
    quad: Option<(&G1, &[Scalar; 2], &G2, &[Scalar; 2])>,
    lin1: Seq<(int, [Scalar; 2])>,
    theta: [[G1; 2]; 2],
    pi: [[G2; 2]; 2],
) -> bool {
    exists|tt: [[Scalar; 2]; 2], lin1_p: Seq<(&G1, &[Scalar; 2])>|
        lin1_values(lin1_p) == lin1 && #[trigger] proved_ppe_with(pk, tt, quad, lin1_p, Seq::empty(), theta, pi)
}

/// `p` is the proof of a vouch that `Proof::prove` makes with the commitment
/// randomness `r_*`: each commitment commits to its witness with its
/// randomness, and each of the seven proofs is an honest proof of its equation
/// from the witnesses and that randomness.
pub open spec fn proved_vouch_with(
    pp: &PublicParams,
    pk: &ProverKey,
    credential: &Credential,
    vouch: &Vouch,
    vu: int,
    m2: int,
    kzg_pi: int,
    r_r: [Scalar; 2],
    r_s: [Scalar; 2],
    r_t1: [Scalar; 2],
    r_t2: [Scalar; 2],
    r_vu: [Scalar; 2],
    r_att: [Scalar; 2],
    r_pi: [Scalar; 2],
    r_rst: [Scalar; 2],
    r_sst: [Scalar; 2],
    r_tst1: [Scalar; 2],
    r_tst2: [Scalar; 2],
    p: &Proof,
) -> bool {
    let g = pp.gro15_params.g@;
    let w1 = pp.flipped_params.w1@;
    let w2 = pp.flipped_params.w2@;
    &&& committed_g1(pk, credential.sigma.r@, r_r, p.com_r)
    &&& committed_g2(pk, credential.sigma.s@, r_s, p.com_s)
    &&& committed_g2(pk, credential.sigma.t1@, r_t1, p.com_t1)
    &&& committed_g2(pk, credential.sigma.t2@, r_t2, p.com_t2)
    &&& committed_g2(pk, vu, r_vu, p.com_vu)
    &&& committed_g2(pk, credential.com_att@, r_att, p.com_att)
    &&& committed_g2(pk, kzg_pi, r_pi, p.com_pi_idx)
    &&& committed_g2(pk, vouch.sigma_vouch.r@, r_rst, p.com_rst)
    &&& committed_g1(pk, vouch.sigma_vouch.s@, r_sst, p.com_sst)
    &&& committed_g1(pk, vouch.sigma_vouch.t1@, r_tst1, p.com_tst1)
    &&& committed_g1(pk, vouch.sigma_vouch.t2@, r_tst2, p.com_tst2)
    &&& proved_equation(
        pk,
        Some((&credential.sigma.r, &r_r, &credential.sigma.s, &r_s)),
        seq![],
        p.proof_1_theta,
        p.proof_1_pi,
    )
    &&& proved_equation(
        pk,
        Some((&credential.sigma.r, &r_r, &credential.sigma.t1, &r_t1)),
        seq![(minus(g), r_vu)],
        p.proof_2_theta,
        p.proof_2_pi,
    )
    &&& proved_equation(
        pk,
        Some((&credential.sigma.r, &r_r, &credential.sigma.t2, &r_t2)),
        seq![(minus(g), r_att)],
        p.proof_3_theta,
        p.proof_3_pi,
    )
    &&& proved_equation(pk, None, seq![(m2, r_pi), (minus(g), r_att)], p.proof_4_theta, p.proof_4_pi)
    &&& proved_equation(
        pk,
        Some((&vouch.sigma_vouch.s, &r_sst, &vouch.sigma_vouch.r, &r_rst)),
        seq![(minus(g), r_vu)],
        p.proof_5_theta,
        p.proof_5_pi,
    )
    &&& proved_equation(
        pk,
        Some((&vouch.sigma_vouch.t1, &r_tst1, &vouch.sigma_vouch.r, &r_rst)),
        seq![(minus(w1), r_vu)],
        p.proof_6_theta,
        p.proof_6_pi,
    )
    &&& proved_equation(
        pk,
        Some((&vouch.sigma_vouch.t2, &r_tst2, &vouch.sigma_vouch.r, &r_rst)),
        seq![(minus(w2), r_vu)],
        p.proof_7_theta,
        p.proof_7_pi,
    )
}

/// `sum_lin1` reads only the constants' logarithms and the witnesses.
proof fn lemma_sum_lin1_values(lin1: Seq<(&G1, &[Scalar; 2])>, d: Seq<int>)
    ensures
        sum_lin1(lin1, d) == sum_lin1_values(lin1_values(lin1), d),
    decreases lin1.len(),
{
    if lin1.len() > 0 {
        assert(lin1_values(lin1.drop_last()) =~= lin1_values(lin1).drop_last());
        lemma_sum_lin1_values(lin1.drop_last(), d);
    }
}

/// An honest proof of one equation of the vouch verifies against commitments
/// to its witnesses exactly when the witnesses satisfy the equation.
#[verifier::spinoff_prover]
proof fn lemma_equation_iff(
    pk: &ProverKey,
    quad: Option<(&G1, &[Scalar; 2], &G2, &[Scalar; 2])>,
    lin1: Seq<(int, [Scalar; 2])>,
    quad_v: Option<(&[G1; 2], &[G2; 2])>,
    lin1_v: Seq<(int, [G2; 2])>,
    d: Seq<int>,
    target: int,
    theta: [[G1; 2]; 2],
    pi: [[G2; 2]; 2],
)
    requires
        proved_equation(pk, quad, lin1, theta, pi),
        quad_committed(pk, quad, quad_v),
        lin1_v.len() == lin1.len(),
        d.len() == lin1.len(),
        forall|i: int|
            0 <= i < lin1.len() ==> #[trigger] lin1_v[i].0 == lin1[i].0 && committed_g2(pk, d[i], lin1[i].1, lin1_v[i].1),
    ensures
        ppe_verifies(pk, quad_v, lin1_v, seq![], target, theta, pi) <==> cong(
            target,
            wit_a(quad) * wit_b(quad) + sum_lin1_values(lin1, d),
        ),
{
    let (tt, lin1_p) = choose|tt: [[Scalar; 2]; 2], lin1_p: Seq<(&G1, &[Scalar; 2])>|
        lin1_values(lin1_p) == lin1 && #[trigger] proved_ppe_with(pk, tt, quad, lin1_p, Seq::empty(), theta, pi);
    assert(lin1_committed(pk, lin1_p, lin1_v, d)) by {
        assert forall|i: int| 0 <= i < lin1_p.len() implies #[trigger] lin1_v[i].0 == lin1_p[i].0@ && committed_g2(
            pk,
            d[i],
            *lin1_p[i].1,
            lin1_v[i].1,
        ) by {
            assert(lin1_values(lin1_p)[i] == lin1[i]);
            assert(lin1_v[i].0 == lin1[i].0);
        }
    }
    let no_lin2: Seq<(&[Scalar; 2], &G2)> = Seq::empty();
    assert(lin2_committed(pk, no_lin2, seq![], seq![]));
    assert(sum_lin2(no_lin2, seq![]) == 0);
    lemma_sum_lin1_values(lin1_p, d);
    lemma_ppe_proof_verifies_iff(pk, tt, quad, lin1_p, no_lin2, quad_v, lin1_v, seq![], d, seq![], target, theta, pi);
}

/// For a reduced `t` and `n` the inverse of `c`: `t` is the logarithm of
/// `e(a, b) e(n, d)` exactly when `e(a, b) = e(c, d) t`.
proof fn lemma_target_iff(a: int, b: int, c: int, d: int, t: int, n: int)
    requires
        n == minus(c),
        0 <= t < crate::curve::group_order(),
    ensures
        cong(t, a * b + n * d) <==> pair(a, b) == plus(pair(c, d), t),
        plus(pair(c, d), t) == plus(t, pair(c, d)),
{
    if pair(a, b) == plus(pair(c, d), t) {
        lemma_target(a, b, c, d, t, n);
    }
    if cong(t, a * b + n * d) {
        lemma_cong_mod(a * b);
        lemma_cong_mod(c * d);
        lemma_cong_mod(-c);
        lemma_cong_mul(n, d, -c, d);
        assert(-c * d == -(c * d)) by (nonlinear_arith);
        lemma_cong_sub(a * b + n * d, n * d, t, -c * d);
        lemma_plus_cong(pair(c, d), t, c * d, t);
        lemma_cong_mod(pair(c, d) + t);
        lemma_cong_residues(pair(a, b), plus(pair(c, d), t));
    }
}

/// The exponent sum of one linear term.
proof fn lemma_sum_values_one(x: int, r: [Scalar; 2], d0: int)
    ensures
        sum_lin1_values(seq![(x, r)], seq![d0]) == x * d0,
{
    lemma_sum_values_prefix_one(x, r, seq![d0]);
}

/// The exponent sum of the single term `(x, r)` against any witnesses.
proof fn lemma_sum_values_prefix_one(x: int, r: [Scalar; 2], d: Seq<int>)
    ensures
        sum_lin1_values(seq![(x, r)], d) == x * d[0],
{
    let s = seq![(x, r)];
    assert(s.drop_last() =~= Seq::<(int, [Scalar; 2])>::empty());
    assert(sum_lin1_values(s.drop_last(), d) == 0);
    assert(s.last() == (x, r));
}

/// The exponent sum of two linear terms.
proof fn lemma_sum_values_two(x: int, r: [Scalar; 2], y: int, q: [Scalar; 2], d0: int, d1: int)
    ensures
        sum_lin1_values(seq![(x, r), (y, q)], seq![d0, d1]) == x * d0 + y * d1,
{
    let s = seq![(x, r), (y, q)];
    let d = seq![d0, d1];
    assert(s.drop_last() =~= seq![(x, r)]);
    lemma_sum_values_prefix_one(x, r, d);
    assert(s.last() == (y, q));
}

/// An honest proof of `e(A, B) e(C^-1, D) = T`, with `D` committed as `com`,
/// verifies exactly when `e(A, B) = e(C, D) T`.
#[verifier::spinoff_prover]
proof fn lemma_linear_equation_iff(
    pk: &ProverKey,
    quad: Option<(&G1, &[Scalar; 2], &G2, &[Scalar; 2])>,
    quad_v: Option<(&[G1; 2], &[G2; 2])>,
    c: int,
    r_d: [Scalar; 2],
    d: int,
    com: [G2; 2],
    t: int,
    theta: [[G1; 2]; 2],
    pi: [[G2; 2]; 2],
)
    requires
        proved_equation(pk, quad, seq![(minus(c), r_d)], theta, pi),
        quad_committed(pk, quad, quad_v),
        committed_g2(pk, d, r_d, com),
        0 <= t < crate::curve::group_order(),
    ensures
        ppe_verifies(pk, quad_v, seq![(minus(c), com)], seq![], t, theta, pi) <==> pair(wit_a(quad), wit_b(quad))
            == plus(pair(c, d), t),
        plus(pair(c, d), t) == plus(t, pair(c, d)),
{
    lemma_sum_values_one(minus(c), r_d, d);
    lemma_equation_iff(pk, quad, seq![(minus(c), r_d)], quad_v, seq![(minus(c), com)], seq![d], t, theta, pi);
    lemma_target_iff(wit_a(quad), wit_b(quad), c, d, t, minus(c));
}

/// An honest proof of `e(A, B) = T` verifies exactly when the witnesses
/// satisfy it.
#[verifier::spinoff_prover]
proof fn lemma_quadratic_equation_iff(
    pk: &ProverKey,
    quad: Option<(&G1, &[Scalar; 2], &G2, &[Scalar; 2])>,
    quad_v: Option<(&[G1; 2], &[G2; 2])>,
    t: int,
    theta: [[G1; 2]; 2],
    pi: [[G2; 2]; 2],
)
    requires
        proved_equation(pk, quad, seq![], theta, pi),
        quad_committed(pk, quad, quad_v),
        0 <= t < crate::curve::group_order(),
    ensures
        ppe_verifies(pk, quad_v, seq![], seq![], t, theta, pi) <==> pair(wit_a(quad), wit_b(quad)) == t,
{
    let empty_lin: Seq<(int, [Scalar; 2])> = seq![];
    let empty_d: Seq<int> = seq![];
    assert(sum_lin1_values(empty_lin, empty_d) == 0);
    lemma_equation_iff(pk, quad, empty_lin, quad_v, seq![], empty_d, t, theta, pi);
    vstd::arithmetic::div_mod::lemma_small_mod(t as nat, crate::curve::group_order() as nat);
}

/// An honest proof of `e(M, P) e(g^-1, A) = 1`, with `P` and `A` committed as
/// `com_p` and `com_a`, verifies exactly when `e(M, P) = e(g, A)`.
#[verifier::spinoff_prover]
proof fn lemma_opening_equation_iff(
    pk: &ProverKey,
    m: int,
    r_p: [Scalar; 2],
    p_log: int,
    com_p: [G2; 2],
    g: int,
    r_a: [Scalar; 2],
    a_log: int,
    com_a: [G2; 2],
    theta: [[G1; 2]; 2],
    pi: [[G2; 2]; 2],
)
    requires
        proved_equation(pk, None, seq![(m, r_p), (minus(g), r_a)], theta, pi),
        committed_g2(pk, p_log, r_p, com_p),
        committed_g2(pk, a_log, r_a, com_a),
    ensures
        ppe_verifies(pk, None, seq![(m, com_p), (minus(g), com_a)], seq![], 0, theta, pi) <==> pair(m, p_log) == pair(
            g,
            a_log,
        ),
{
    lemma_sum_values_two(m, r_p, minus(g), r_a, p_log, a_log);
    lemma_equation_iff(pk, None, seq![(m, r_p), (minus(g), r_a)], None, seq![(m, com_p), (minus(g), com_a)],
        seq![p_log, a_log], 0, theta, pi);
    lemma_target_iff(m, p_log, g, a_log, 0, minus(g));
    lemma_cong_mod(g * a_log);
}

/// Soundness and completeness of honest vouch proofs: over parameters whose two
/// Groth15 sets share their generators, a proof that `Proof::prove` made
/// verifies for the issuer key of logarithm `vi` and the statement `st` exactly
/// when its witnesses make the vouch provable for them.
#[verifier::spinoff_prover]
pub proof fn lemma_honest_proof_verifies_iff(
    pp: &PublicParams,
    pk: &ProverKey,
    credential: &Credential,
    vouch: &Vouch,
    vu: int,
    m2: int,
    kzg_pi: int,
    p: &Proof,
    vi: int,
    st: int,
)
    requires
        pp.flipped_params.g@ == pp.gro15_params.g@,
        pp.flipped_params.h@ == pp.gro15_params.h@,
        exists|
            r_r: [Scalar; 2],
            r_s: [Scalar; 2],
            r_t1: [Scalar; 2],
            r_t2: [Scalar; 2],
            r_vu: [Scalar; 2],
            r_att: [Scalar; 2],
            r_pi: [Scalar; 2],
            r_rst: [Scalar; 2],
            r_sst: [Scalar; 2],
            r_tst1: [Scalar; 2],
            r_tst2: [Scalar; 2],
        |
            #[trigger] proved_vouch_with(
                pp, pk, credential, vouch, vu, m2, kzg_pi,
                r_r, r_s, r_t1, r_t2, r_vu, r_att, r_pi, r_rst, r_sst, r_tst1, r_tst2, p,
            ),
    ensures
        proof_verifies(pp, pk, vi, st, m2, p) <==> provable(pp, vu, credential, vouch, m2, kzg_pi, vi, st),
{
    let (r_r, r_s, r_t1, r_t2, r_vu, r_att, r_pi, r_rst, r_sst, r_tst1, r_tst2) = choose|
        r_r: [Scalar; 2],
        r_s: [Scalar; 2],
        r_t1: [Scalar; 2],
        r_t2: [Scalar; 2],
        r_vu: [Scalar; 2],
        r_att: [Scalar; 2],
        r_pi: [Scalar; 2],
        r_rst: [Scalar; 2],
        r_sst: [Scalar; 2],
        r_tst1: [Scalar; 2],
        r_tst2: [Scalar; 2],
    |
        #[trigger] proved_vouch_with(
            pp, pk, credential, vouch, vu, m2, kzg_pi,
            r_r, r_s, r_t1, r_t2, r_vu, r_att, r_pi, r_rst, r_sst, r_tst1, r_tst2, p,
        );
    let g = pp.gro15_params.g@;
    let h = pp.gro15_params.h@;
    let y1 = pp.gro15_params.y1@;
    let y2 = pp.gro15_params.y2@;
    let w1 = pp.flipped_params.w1@;
    let w2 = pp.flipped_params.w2@;
    let sig = credential.sigma;
    let sv = vouch.sigma_vouch;
    let att = credential.com_att@;
    lemma_cong_mod(pair(g, y1) + pair(vi, h));
    lemma_quadratic_equation_iff(pk, Some((&sig.r, &r_r, &sig.s, &r_s)), Some((&p.com_r, &p.com_s)),
        plus(pair(g, y1), pair(vi, h)), p.proof_1_theta, p.proof_1_pi);
    lemma_cong_mod(vi * y1);
    lemma_linear_equation_iff(pk, Some((&sig.r, &r_r, &sig.t1, &r_t1)), Some((&p.com_r, &p.com_t1)), g, r_vu, vu,
        p.com_vu, pair(vi, y1), p.proof_2_theta, p.proof_2_pi);
    lemma_cong_mod(vi * y2);
    lemma_linear_equation_iff(pk, Some((&sig.r, &r_r, &sig.t2, &r_t2)), Some((&p.com_r, &p.com_t2)), g, r_att, att,
        p.com_att, pair(vi, y2), p.proof_3_theta, p.proof_3_pi);
    lemma_opening_equation_iff(pk, m2, r_pi, kzg_pi, p.com_pi_idx, g, r_att, att, p.com_att, p.proof_4_theta,
        p.proof_4_pi);
    lemma_cong_mod(w1 * h);
    lemma_linear_equation_iff(pk, Some((&sv.s, &r_sst, &sv.r, &r_rst)), Some((&p.com_sst, &p.com_rst)), g, r_vu, vu,
        p.com_vu, pair(w1, h), p.proof_5_theta, p.proof_5_pi);
    lemma_cong_mod(times(g, st) * h);
    lemma_linear_equation_iff(pk, Some((&sv.t1, &r_tst1, &sv.r, &r_rst)), Some((&p.com_tst1, &p.com_rst)), w1, r_vu,
        vu, p.com_vu, pair(times(g, st), h), p.proof_6_theta, p.proof_6_pi);
    lemma_cong_mod(m2 * h);
    lemma_linear_equation_iff(pk, Some((&sv.t2, &r_tst2, &sv.r, &r_rst)), Some((&p.com_tst2, &p.com_rst)), w2, r_vu,
        vu, p.com_vu, pair(m2, h), p.proof_7_theta, p.proof_7_pi);
}

impl Proof {
    /// Proves a vouch: commits to the credential's signature, the vouch's
    /// signature, the user's key, the attribute commitment and the KZG opening
    /// `kzg_pi`, and proves the seven equations about them.
    pub fn prove(
        pp: &PublicParams,
        pk: &ProverKey,
        vouch: &Vouch,
        credential: &Credential,
        user_vk: &flipped::VerificationKey,
        m2_poly_val: &G1,
        kzg_pi: &G2,
        rng: &mut StdRng,
    ) -> (res: Proof)
        ensures
            forall|vi: int, st: int|
                provable(pp, user_vk.v@, credential, vouch, m2_poly_val@, kzg_pi@, vi, st)
                    ==> #[trigger] proof_verifies(pp, pk, vi, st, m2_poly_val@, &res),
            exists|
                r_r: [Scalar; 2],
                r_s: [Scalar; 2],
                r_t1: [Scalar; 2],
                r_t2: [Scalar; 2],
                r_vu: [Scalar; 2],
                r_att: [Scalar; 2],
                r_pi: [Scalar; 2],
                r_rst: [Scalar; 2],
                r_sst: [Scalar; 2],
                r_tst1: [Scalar; 2],
                r_tst2: [Scalar; 2],
            |
                #[trigger] proved_vouch_with(
                    pp, pk, credential, vouch, user_vk.v@, m2_poly_val@, kzg_pi@,
                    r_r, r_s, r_t1, r_t2, r_vu, r_att, r_pi, r_rst, r_sst, r_tst1, r_tst2, &res,
                ),
    {
        // Witnesses
        let r = credential.sigma.r;
        let s = credential.sigma.s;
        let t1 = credential.sigma.t1;
        let t2 = credential.sigma.t2;
        let com_att = credential.com_att;
        let rst = vouch.sigma_vouch.r;
        let sst = vouch.sigma_vouch.s;
        let tst1 = vouch.sigma_vouch.t1;
        let tst2 = vouch.sigma_vouch.t2;

        // Commitments
        let (com_r, r_r) = pk.commit_g1(&r, rng);
        let (com_s, r_s) = pk.commit_g2(&s, rng);
        let (com_t1, r_t1) = pk.commit_g2(&t1, rng);
        let (com_t2, r_t2) = pk.commit_g2(&t2, rng);
        let (com_vu, r_vu) = pk.commit_g2(&user_vk.v, rng);
        let (com_att_c, r_com_att) = pk.commit_g2(&com_att, rng);
        let (com_pi_idx, r_pi_idx) = pk.commit_g2(kzg_pi, rng);
        let (com_rst, r_rst) = pk.commit_g2(&rst, rng);
        let (com_sst, r_sst) = pk.commit_g1(&sst, rng);
        let (com_tst1, r_tst1) = pk.commit_g1(&tst1, rng);
        let (com_tst2, r_tst2) = pk.commit_g1(&tst2, rng);

        let neg_g = pp.gro15_params.g.neg();
        let neg_w1 = pp.flipped_params.w1.neg();
        let neg_w2 = pp.flipped_params.w2.neg();
        let no_lin1: [(&G1, &[Scalar; 2]); 0] = [];
        let lin_vu = [(&neg_g, &r_vu)];
        let lin_att = [(&neg_g, &r_com_att)];
        let lin_kzg = [(m2_poly_val, &r_pi_idx), (&neg_g, &r_com_att)];
        let lin_w1 = [(&neg_w1, &r_vu)];
        let lin_w2 = [(&neg_w2, &r_vu)];

        let ghost g = pp.gro15_params.g@;
        let ghost vu = user_vk.v@;
        let ghost v_vu = seq![(minus(g), com_vu)];
        let ghost v_att = seq![(minus(g), com_att_c)];
        let ghost v_kzg = seq![(m2_poly_val@, com_pi_idx), (minus(g), com_att_c)];
        let ghost v_w1 = seq![(minus(pp.flipped_params.w1@), com_vu)];
        let ghost v_w2 = seq![(minus(pp.flipped_params.w2@), com_vu)];
        let ghost v_none: Seq<(int, [G2; 2])> = seq![];
        let ghost d_none: Seq<int> = seq![];
        let ghost d_vu = seq![vu];
        let ghost d_att = seq![com_att@];
        let ghost d_kzg = seq![kzg_pi@, com_att@];
        let ghost q_1 = Some((&com_r, &com_s));
        let ghost q_2 = Some((&com_r, &com_t1));
        let ghost q_3 = Some((&com_r, &com_t2));
        let ghost q_5 = Some((&com_sst, &com_rst));
        let ghost q_6 = Some((&com_tst1, &com_rst));
        let ghost q_7 = Some((&com_tst2, &com_rst));
        proof {
            assert(lin1_committed(pk, no_lin1@, v_none, d_none));
            assert(lin1_committed(pk, lin_vu@, v_vu, d_vu));
            assert(lin1_committed(pk, lin_att@, v_att, d_att));
            assert(lin1_committed(pk, lin_kzg@, v_kzg, d_kzg));
            assert(lin1_committed(pk, lin_w1@, v_w1, d_vu));
            assert(lin1_committed(pk, lin_w2@, v_w2, d_vu));
        }

        proof {
            assert(sum_lin1(no_lin1@, d_none) == 0);
            lemma_sum_lin1_one(lin_vu@, d_vu);
            lemma_sum_lin1_one(lin_att@, d_att);
            lemma_sum_lin1_two(lin_kzg@, d_kzg);
            lemma_sum_lin1_one(lin_w1@, d_vu);
            lemma_sum_lin1_one(lin_w2@, d_vu);
        }
        // Eq 1: e(R, S) = e(g, Y1) * e(VI, h)
        let proof_1 = prove_equation(pk, rng, Some((&r, &r_r, &s, &r_s)), &no_lin1,
            Ghost(q_1), Ghost(v_none), Ghost(d_none), Ghost(r@ * s@));
        // Eq 2: e(R, T1) + e(-g, VU) = e(VI, Y1)
        let proof_2 = prove_equation(pk, rng, Some((&r, &r_r, &t1, &r_t1)), &lin_vu,
            Ghost(q_2), Ghost(v_vu), Ghost(d_vu), Ghost(r@ * t1@ + minus(g) * vu));
        // Eq 3: e(R, T2) + e(-g, com_att) = e(VI, Y2)
        let proof_3 = prove_equation(pk, rng, Some((&r, &r_r, &t2, &r_t2)), &lin_att,
            Ghost(q_3), Ghost(v_att), Ghost(d_att), Ghost(r@ * t2@ + minus(g) * com_att@));
        // Eq 4: e(M2, pi_idx) + e(-g, com_att) = 0
        let proof_4 = prove_equation(pk, rng, None, &lin_kzg,
            Ghost(None), Ghost(v_kzg), Ghost(d_kzg), Ghost(m2_poly_val@ * kzg_pi@ + minus(g) * com_att@));
        // Eq 5: e(Sst, Rst) + e(-g, VU) = e(W1, h)
        let proof_5 = prove_equation(pk, rng, Some((&sst, &r_sst, &rst, &r_rst)), &lin_vu,
            Ghost(q_5), Ghost(v_vu), Ghost(d_vu), Ghost(sst@ * rst@ + minus(g) * vu));
        // Eq 6: e(Tst1, Rst) + e(-W1, VU) = e(M1, h)
        let proof_6 = prove_equation(pk, rng, Some((&tst1, &r_tst1, &rst, &r_rst)), &lin_w1,
            Ghost(q_6), Ghost(v_w1), Ghost(d_vu), Ghost(tst1@ * rst@ + minus(pp.flipped_params.w1@) * vu));
        // Eq 7: e(Tst2, Rst) + e(-W2, VU) = e(M2, h)
        let proof_7 = prove_equation(pk, rng, Some((&tst2, &r_tst2, &rst, &r_rst)), &lin_w2,
            Ghost(q_7), Ghost(v_w2), Ghost(d_vu), Ghost(tst2@ * rst@ + minus(pp.flipped_params.w2@) * vu));

        let res = Proof {
            com_r,
            com_s,
            com_t1,
            com_t2,
            com_vu,
            com_att: com_att_c,
            com_pi_idx,
            com_rst,
            com_sst,
            com_tst1,
            com_tst2,
            proof_1_theta: proof_1.0,
            proof_1_pi: proof_1.1,
            proof_2_theta: proof_2.0,
            proof_2_pi: proof_2.1,
            proof_3_theta: proof_3.0,
            proof_3_pi: proof_3.1,
            proof_4_theta: proof_4.0,
            proof_4_pi: proof_4.1,
            proof_5_theta: proof_5.0,
            proof_5_pi: proof_5.1,
            proof_6_theta: proof_6.0,
            proof_6_pi: proof_6.1,
            proof_7_theta: proof_7.0,
            proof_7_pi: proof_7.1,
        };
        proof {
            assert(lin1_values(no_lin1@) =~= seq![]);
            assert(lin1_values(lin_vu@) =~= seq![(minus(g), r_vu)]);
            assert(lin1_values(lin_att@) =~= seq![(minus(g), r_com_att)]);
            assert(lin1_values(lin_kzg@) =~= seq![(m2_poly_val@, r_pi_idx), (minus(g), r_com_att)]);
            assert(lin1_values(lin_w1@) =~= seq![(minus(pp.flipped_params.w1@), r_vu)]);
            assert(lin1_values(lin_w2@) =~= seq![(minus(pp.flipped_params.w2@), r_vu)]);
            assert(proved_vouch_with(
                pp, pk, credential, vouch, vu, m2_poly_val@, kzg_pi@,
                r_r, r_s, r_t1, r_t2, r_vu, r_com_att, r_pi_idx, r_rst, r_sst, r_tst1, r_tst2, &res,
            ));
            lemma_prove_complete(pp, pk, vu, credential, vouch, m2_poly_val@, kzg_pi@, &res);
        }
        res
    }
}

/// A vouch is valid exactly when the statement of its Groth-Sahai proof holds:
/// over parameters whose two Groth15 sets share their generators, for the
/// credential the vouch carries, the vouch is valid under the issuer key `vi`
/// for the statement `st` and the KZG opening `kzg_pi` pairs with its
/// commitments (`e(M2, pi) = e(g, com_att)`, `M2` the commitment to the
/// revealed values) exactly when the seven equations are provable, which asks
/// the issuer's and the user's full Groth15 signature checks.
pub proof fn lemma_valid_vouch_iff_provable(
    pp: &PublicParams,
    credential: &Credential,
    vouch: &Vouch,
    kzg_pi: int,
    vi: int,
    st: int,
)
    requires
        pp.flipped_params.g@ == pp.gro15_params.g@,
        pp.flipped_params.h@ == pp.gro15_params.h@,
        vouch.v_u == credential.v_u,
        vouch.com_att == credential.com_att,
        vouch.sigma_cred == credential.sigma,
    ensures
        (valid_vouch(pp, vi, st, vouch) && pair(revealed_commitment(pp, vouch.revealed_values@), kzg_pi) == pair(
            pp.gro15_params.g@,
            credential.com_att@,
        )) <==> provable(
            pp,
            credential.v_u@,
            credential,
            vouch,
            revealed_commitment(pp, vouch.revealed_values@),
            kzg_pi,
            vi,
            st,
        ),
{
}

} // verus!
