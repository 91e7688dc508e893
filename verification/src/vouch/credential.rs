//! Credentials: issuance by the issuer and vouching by the user.
use vstd::prelude::*;
use ark_std::rand::rngs::StdRng;
use crate::curve::{group_order, Scalar, G2};
use crate::gro15::{flipped, standard};
use crate::modular::{lemma_cong_mod, lemma_cong_residues, lemma_times_cong, times};
use crate::poly::{
    eval, from_roots, lemma_eval_from_roots, lemma_from_roots_concat_coeffs, lemma_from_roots_len, lemma_from_roots_move_last, poly_mul,
    root_product, values, DensePolynomial,
};
use super::params::{crs_of, g1_logs, g2_logs, lemma_commit_evaluates, poly_commitment, PublicParams};
use super::vouch::Vouch;

pub use crate::gro15::flipped::SchnorrProof;

verus! {

/// The credential stored by the user.
#[derive(Clone, Debug)]
pub struct Credential {
    /// The user's public key
    pub v_u: G2,
    /// The commitment to the attributes
    pub com_att: G2,
    /// The issuer's signature on `(v_u, com_att)`
    pub sigma: standard::Signature,
    /// The user's secret key, which only the user holds
    pub v_u_sk: Option<flipped::SecretKey>,
}

/// The attribute commitment of `attributes`: the KZG commitment in G2 to
/// `prod (X - a)` over the attributes.
pub open spec fn attribute_commitment(pp: &PublicParams, attributes: Seq<Scalar>) -> int {
    poly_commitment(g2_logs(pp.crs_g2@), from_roots(values(attributes)))
}

/// The commitment in G1 to `prod (X - a)` over the revealed attributes.
pub open spec fn revealed_commitment(pp: &PublicParams, revealed: Seq<Scalar>) -> int {
    poly_commitment(g1_logs(pp.crs_g1@), from_roots(values(revealed)))
}

/// The attributes at the positions `idx`, in the order of `idx`.
pub open spec fn selected(attributes: Seq<Scalar>, idx: Seq<usize>) -> Seq<Scalar> {
    idx.map_values(|i: usize| attributes[i as int])
}

/// Over parameters made with the trapdoor `tau`, the attribute commitment is
/// `h^{f_att(tau)}` with `f_att(X) = prod (X - a)` over the attributes.
pub proof fn lemma_attribute_commitment(pp: &PublicParams, tau: int, max_degree: int, attributes: Seq<Scalar>)
    requires
        crs_of(pp, tau, max_degree),
        attributes.len() <= max_degree,
    ensures
        attribute_commitment(pp, attributes) == times(pp.gro15_params.h@, root_product(values(attributes), tau)),
{
    let roots = values(attributes);
    let h = pp.gro15_params.h@;
    lemma_from_roots_len(roots);
    lemma_commit_evaluates(pp, tau, max_degree, from_roots(roots));
    lemma_eval_from_roots(roots, tau);
    lemma_times_cong(h, eval(from_roots(roots), tau), h, root_product(roots, tau));
    lemma_cong_mod(h * root_product(roots, tau));
    lemma_cong_residues(times(h, eval(from_roots(roots), tau)), times(h, root_product(roots, tau)));
}

/// Over parameters made with the trapdoor `tau`, the commitment to the revealed
/// attributes is `g^{prod (tau - a)}` over them.
pub proof fn lemma_revealed_commitment(pp: &PublicParams, tau: int, max_degree: int, revealed: Seq<Scalar>)
    requires
        crs_of(pp, tau, max_degree),
        revealed.len() <= max_degree,
    ensures
        revealed_commitment(pp, revealed) == times(pp.gro15_params.g@, root_product(values(revealed), tau)),
{
    let roots = values(revealed);
    let g = pp.gro15_params.g@;
    lemma_from_roots_len(roots);
    lemma_commit_evaluates(pp, tau, max_degree, from_roots(roots));
    lemma_eval_from_roots(roots, tau);
    lemma_times_cong(g, eval(from_roots(roots), tau), g, root_product(roots, tau));
    lemma_cong_mod(g * root_product(roots, tau));
    lemma_cong_residues(times(g, eval(from_roots(roots), tau)), times(g, root_product(roots, tau)));
}

impl Credential {
    /// Issues a credential on the user's key and attributes, if the user's proof
    /// of knowledge of the key verifies; the credential holds no secret key.
    pub fn issue(
        pp: &PublicParams,
        issuer_sk: &standard::SecretKey,
        user_vk: &flipped::VerificationKey,
        user_proof: &SchnorrProof,
        attributes: &[Scalar],
        rng: &mut StdRng,
    ) -> (res: Option<Credential>)
        requires
            flipped::valid_knowledge_proof(&pp.flipped_params, user_vk.v@, user_proof) ==> {
                &&& attributes@.len() + 1 <= pp.crs_g2@.len()
                &&& attributes@.len() < 0xffff_ffff
            },
        ensures
            res is None <==> !flipped::valid_knowledge_proof(&pp.flipped_params, user_vk.v@, user_proof),
            res is None ==> *final(rng) == *old(rng),
            res matches Some(c) ==> {
                &&& c.v_u == user_vk.v
                &&& c.com_att@ == attribute_commitment(pp, attributes@)
                &&& c.v_u_sk is None
                &&& exists|r: int|
                    0 < r < group_order() && #[trigger] standard::signed_with(
                        &pp.gro15_params,
                        issuer_sk,
                        user_vk.v@,
                        c.com_att@,
                        r,
                        &c.sigma,
                    )
            },
    {
        // The issuer checks the user's proof of knowledge of the key
        if !user_vk.verify_knowledge(&pp.flipped_params, user_proof) {
            return None;
        }
        // f_att(X) and its KZG commitment h^{f_att(tau)}
        let poly = compute_polynomial(attributes);
        proof { lemma_from_roots_len(values(attributes@)); }
        let com_att = pp.commit_g2(&poly);
        // The issuer signs (V_U, com_att)
        let sig = issuer_sk.sign(&pp.gro15_params, &user_vk.v, &com_att, rng);
        let ghost r = choose|r: int|
            0 < r < group_order() && #[trigger] standard::signed_with(
                &pp.gro15_params,
                issuer_sk,
                user_vk.v@,
                com_att@,
                r,
                &sig,
            );
        let c = Credential { v_u: user_vk.v, com_att, sigma: sig, v_u_sk: None };
        assert(0 < r < group_order() && standard::signed_with(&pp.gro15_params, issuer_sk, user_vk.v@, c.com_att@, r, &c.sigma));
        Some(c)
    }

    /// Vouches for `statement`, revealing the attributes at positions `idx`: the
    /// user signs `(g^statement, commitment to the revealed attributes)`.
    pub fn vouch(
        &self,
        pp: &PublicParams,
        attributes: &[Scalar],
        idx: &[usize],
        statement: &Scalar,
        rng: &mut StdRng,
    ) -> (res: Vouch)
        requires
            forall|k: int| 0 <= k < idx@.len() ==> #[trigger] idx@[k] < attributes@.len(),
            self.v_u_sk is Some,
            idx@.len() + 1 <= pp.crs_g1@.len(),
            idx@.len() < 0xffff_ffff,
        ensures
            res.v_u == self.v_u,
            res.com_att == self.com_att,
            res.sigma_cred == self.sigma,
            res.revealed_indices@ == idx@,
            res.revealed_values@ == selected(attributes@, idx@),
            exists|r: int|
                0 < r < group_order() && #[trigger] flipped::signed_with(
                    &pp.flipped_params,
                    &self.v_u_sk->0,
                    times(pp.gro15_params.g@, statement@),
                    revealed_commitment(pp, res.revealed_values@),
                    r,
                    &res.sigma_vouch,
                ),
    {
        // M1 = g^st
        let m1 = pp.gro15_params.g.mul(statement);
        // the revealed attributes
        let mut revealed_vals: Vec<Scalar> = Vec::new();
        let mut revealed_indices: Vec<usize> = Vec::new();
        let mut k: usize = 0;
        while k < idx.len()
            invariant
                k <= idx@.len(),
                forall|j: int| 0 <= j < idx@.len() ==> #[trigger] idx@[j] < attributes@.len(),
                revealed_vals@ == selected(attributes@, idx@.take(k as int)),
                revealed_indices@ == idx@.take(k as int),
            decreases idx@.len() - k,
        {
            revealed_vals.push(attributes[idx[k]]);
            revealed_indices.push(idx[k]);
            assert(idx@.take(k + 1) =~= idx@.take(k as int).push(idx@[k as int]));
            assert(selected(attributes@, idx@.take(k + 1)) =~= selected(attributes@, idx@.take(k as int)).push(
                attributes@[idx@[k as int] as int],
            ));
            k = k + 1;
        }
        assert(idx@.take(idx@.len() as int) =~= idx@);
        // M2 = g^{prod_{i in idx} (tau - att[i])}
        let subset_poly = compute_polynomial(&revealed_vals);
        proof { lemma_from_roots_len(values(revealed_vals@)); }
        let m2 = pp.commit_g1(&subset_poly);
        // the user signs (M1, M2)
        let user_sk = match &self.v_u_sk {
            Some(sk) => sk,
            None => vstd::pervasive::unreached(),
        };
        let sigma_vouch = user_sk.sign(&pp.flipped_params, &m1, &m2, rng);
        let ghost r = choose|r: int|
            0 < r < group_order() && #[trigger] flipped::signed_with(
                &pp.flipped_params,
                user_sk,
                m1@,
                m2@,
                r,
                &sigma_vouch,
            );
        let res = Vouch {
            v_u: self.v_u,
            com_att: self.com_att,
            sigma_cred: self.sigma,
            sigma_vouch,
            revealed_indices,
            revealed_values: revealed_vals,
        };
        assert(0 < r < group_order() && flipped::signed_with(
            &pp.flipped_params,
            &self.v_u_sk->0,
            times(pp.gro15_params.g@, statement@),
            revealed_commitment(pp, res.revealed_values@),
            r,
            &res.sigma_vouch,
        ));
        res
    }
}

/// The polynomial `prod (X - a)` over the attributes, in order.
pub fn compute_polynomial(attributes: &[Scalar]) -> (res: DensePolynomial)
    requires
        attributes@.len() < 0xffff_ffff,
    ensures
        res.spec_coeffs() == from_roots(values(attributes@)),
{
    // start with the constant polynomial one
    let one = Scalar::one();
    let init = vec![one];
    assert(values(init@) =~= seq![1int]);
    let mut poly = DensePolynomial::from_coefficients_vec(init);
    let mut i: usize = 0;
    while i < attributes.len()
        invariant
            i <= attributes@.len(),
            attributes@.len() < 0xffff_ffff,
            poly.spec_coeffs() == from_roots(values(attributes@.take(i as int))),
            poly.coeffs@.len() <= i + 1,
        decreases attributes@.len() - i,
    {
        let att = attributes[i];
        // (X - att)
        let term_coeffs = vec![att.neg(), Scalar::one()];
        assert(values(term_coeffs@) =~= seq![(-att@) % group_order(), 1int]);
        let term = DensePolynomial::from_coefficients_vec(term_coeffs);
        let ghost prev = values(attributes@.take(i as int));
        poly = poly.mul(&term);
        proof {
            assert(values(attributes@.take(i + 1)).drop_last() =~= prev);
            lemma_from_roots_len(prev);
            crate::poly::lemma_poly_mul_len(from_roots(prev), seq![(-att@) % group_order(), 1int]);
        }
        i = i + 1;
    }
    assert(attributes@.take(attributes@.len() as int) =~= attributes@);
    poly
}

/// `compute_polynomial` is multiplicative over concatenation: the polynomial of
/// `a` followed by `b` has the coefficients of the product of the polynomials
/// of `a` and of `b`.
pub proof fn lemma_compute_polynomial_concat(a: Seq<Scalar>, b: Seq<Scalar>)
    ensures
        from_roots(values(a + b)) == poly_mul(from_roots(values(a)), from_roots(values(b))),
{
    assert(values(a + b) =~= values(a) + values(b));
    lemma_from_roots_concat_coeffs(values(a), values(b));
}

/// `compute_polynomial` does not depend on the order of the attributes: two
/// sequences of attributes with the same multiset give the same coefficients.
pub proof fn lemma_compute_polynomial_permutation(s1: Seq<Scalar>, s2: Seq<Scalar>)
    requires
        s1.to_multiset() == s2.to_multiset(),
    ensures
        from_roots(values(s1)) == from_roots(values(s2)),
    decreases s1.len(),
{
    broadcast use vstd::seq_lib::group_to_multiset_ensures;
    vstd::seq_lib::to_multiset_len(s1);
    vstd::seq_lib::to_multiset_len(s2);
    if s1.len() == 0 {
        assert(values(s2) =~= values(s1));
    } else {
        let e = s1.last();
        let s1p = s1.drop_last();
        assert(s1p.push(e) =~= s1);
        assert(s2.to_multiset().count(e) > 0);
        assert(s2.contains(e));
        let j = choose|j: int| 0 <= j < s2.len() && s2[j] == e;
        let s2p = s2.remove(j);
        assert(s1p.to_multiset() =~= s2p.to_multiset());
        lemma_compute_polynomial_permutation(s1p, s2p);
        lemma_from_roots_move_last(values(s2), j);
        assert(values(s2).remove(j).push(values(s2)[j]) =~= values(s2p).push(e@));
        assert(values(s1) =~= values(s1p).push(e@));
        assert(values(s1).drop_last() =~= values(s1p));
        assert(values(s2p).push(e@).drop_last() =~= values(s2p));
    }
}

} // verus!
