//! The vouch a user presents to a verifier.
use vstd::prelude::*;
use crate::curve::{group_order, Scalar, G2};
use crate::gro15::{flipped, standard};
use crate::modular::{cong, lemma_cong_sub, times};
use crate::poly::{lemma_from_roots_len, values};
use super::credential::{compute_polynomial, lemma_compute_polynomial_permutation, revealed_commitment, Credential};
use super::params::PublicParams;

verus! {

/// The vouch presented to a verifier.
#[derive(Clone, Debug)]
pub struct Vouch {
    pub v_u: G2,
    pub com_att: G2,
    pub sigma_cred: standard::Signature,
    pub sigma_vouch: flipped::Signature,
    /// Indices of the revealed attributes
    pub revealed_indices: Vec<usize>,
    /// Values of the revealed attributes
    pub revealed_values: Vec<Scalar>,
}

/// A vouch for `statement` is valid under the issuer key of logarithm `vi`: the
/// issuer's signature on `(V_U, com_att)` verifies, and so does the user's
/// signature, under `V_U`, on `g^statement` and the commitment to the revealed
/// attributes.
pub open spec fn valid_vouch(pp: &PublicParams, vi: int, statement: int, vouch: &Vouch) -> bool {
    &&& standard::valid_signature(&pp.gro15_params, vi, vouch.v_u@, vouch.com_att@, &vouch.sigma_cred)
    &&& flipped::valid_signature(
        &pp.flipped_params,
        vouch.v_u@,
        times(pp.gro15_params.g@, statement),
        revealed_commitment(pp, vouch.revealed_values@),
        &vouch.sigma_vouch,
    )
}

impl Vouch {
    pub fn verify(&self, pp: &PublicParams, issuer_vk: &standard::VerificationKey, statement: &Scalar) -> (res: bool)
        requires
            standard::valid_signature(&pp.gro15_params, issuer_vk.v@, self.v_u@, self.com_att@, &self.sigma_cred) ==> {
                &&& self.revealed_values@.len() + 1 <= pp.crs_g1@.len()
                &&& self.revealed_values@.len() < 0xffff_ffff
            },
        ensures
            res == valid_vouch(pp, issuer_vk.v@, statement@, self),
    {
        // 1. the issuer's signature on the credential, on (V_U, com_att)
        let valid_cred = issuer_vk.verify(&pp.gro15_params, &self.v_u, &self.com_att, &self.sigma_cred);
        if !valid_cred {
            return false;
        }
        // 2. M1 = g^st and M2 = g^{P_subset(tau)} from the revealed values
        let m1 = pp.gro15_params.g.mul(statement);
        let subset_poly = compute_polynomial(&self.revealed_values);
        proof { lemma_from_roots_len(values(self.revealed_values@)); }
        let m2 = pp.commit_g1(&subset_poly);
        // 3. the user's signature on (M1, M2) under V_U
        let user_vk_struct = flipped::VerificationKey { v: self.v_u };
        user_vk_struct.verify(&pp.flipped_params, &m1, &m2, &self.sigma_vouch)
    }
}

/// A vouch verifies under the issuer's key when the credential's signature was
/// made by the issuer's key on `(V_U, com_att)` and the vouch's signature was
/// made by the key behind `V_U` on `g^statement` and the commitment to the
/// revealed attributes, both keys matching the parameters.
pub proof fn lemma_vouch_verifies(
    pp: &PublicParams,
    issuer_vk: &standard::VerificationKey,
    issuer_sk: &standard::SecretKey,
    user_sk: &flipped::SecretKey,
    statement: int,
    vouch: &Vouch,
    r_cred: int,
    r_vouch: int,
)
    requires
        issuer_sk.matches(&pp.gro15_params),
        issuer_vk.v@ == times(pp.gro15_params.g@, issuer_sk.secret()),
        user_sk.matches(&pp.flipped_params),
        vouch.v_u@ == times(pp.flipped_params.h@, user_sk.secret()),
        standard::signed_with(&pp.gro15_params, issuer_sk, vouch.v_u@, vouch.com_att@, r_cred, &vouch.sigma_cred),
        flipped::signed_with(
            &pp.flipped_params,
            user_sk,
            times(pp.gro15_params.g@, statement),
            revealed_commitment(pp, vouch.revealed_values@),
            r_vouch,
            &vouch.sigma_vouch,
        ),
    ensures
        valid_vouch(pp, issuer_vk.v@, statement, vouch),
{
    standard::lemma_signature_verifies(
        &pp.gro15_params,
        issuer_vk,
        issuer_sk,
        vouch.v_u@,
        vouch.com_att@,
        r_cred,
        &vouch.sigma_cred,
    );
    let user_vk = flipped::VerificationKey { v: vouch.v_u };
    flipped::lemma_signature_verifies(
        &pp.flipped_params,
        &user_vk,
        user_sk,
        times(pp.gro15_params.g@, statement),
        revealed_commitment(pp, vouch.revealed_values@),
        r_vouch,
        &vouch.sigma_vouch,
    );
}

/// Vouches made by `Credential::vouch` from a credential that
/// `Credential::issue` made verify: with keys made for the parameters, the
/// issuer's signature on the credential and the user's signature on the vouch
/// (as those two functions promise them) make the vouch valid under the
/// issuer's key for its statement.
pub proof fn lemma_issued_vouch_verifies(
    pp: &PublicParams,
    issuer_vk: &standard::VerificationKey,
    issuer_sk: &standard::SecretKey,
    user_vk: &flipped::VerificationKey,
    user_sk: &flipped::SecretKey,
    credential: &Credential,
    statement: int,
    vouch: &Vouch,
)
    requires
        issuer_sk.matches(&pp.gro15_params),
        issuer_vk.v@ == times(pp.gro15_params.g@, issuer_sk.secret()),
        user_sk.matches(&pp.flipped_params),
        user_vk.v@ == times(pp.flipped_params.h@, user_sk.secret()),
        credential.v_u == user_vk.v,
        credential.v_u_sk == Some(*user_sk),
        exists|r: int|
            #[trigger] standard::signed_with(
                &pp.gro15_params,
                issuer_sk,
                user_vk.v@,
                credential.com_att@,
                r,
                &credential.sigma,
            ),
        vouch.v_u == credential.v_u,
        vouch.com_att == credential.com_att,
        vouch.sigma_cred == credential.sigma,
        exists|r: int|
            #[trigger] flipped::signed_with(
                &pp.flipped_params,
                &credential.v_u_sk->0,
                times(pp.gro15_params.g@, statement),
                revealed_commitment(pp, vouch.revealed_values@),
                r,
                &vouch.sigma_vouch,
            ),
    ensures
        valid_vouch(pp, issuer_vk.v@, statement, vouch),
{
    let r_cred = choose|r: int|
        #[trigger] standard::signed_with(&pp.gro15_params, issuer_sk, user_vk.v@, credential.com_att@, r, &credential.sigma);
    let r_vouch = choose|r: int|
        #[trigger] flipped::signed_with(
            &pp.flipped_params,
            &credential.v_u_sk->0,
            times(pp.gro15_params.g@, statement),
            revealed_commitment(pp, vouch.revealed_values@),
            r,
            &vouch.sigma_vouch,
        );
    lemma_vouch_verifies(pp, issuer_vk, issuer_sk, user_sk, statement, vouch, r_cred, r_vouch);
}

/// A vouch is valid for at most one statement: over parameters whose `g` and
/// flipped `h` have logarithm one (as every constructor of the parameters
/// makes them), two statements it is valid for are equal up to the order.
pub proof fn lemma_vouch_statement_unique(pp: &PublicParams, vi: int, st1: int, st2: int, vouch: &Vouch)
    requires
        pp.gro15_params.g@ == 1,
        pp.flipped_params.h@ == 1,
        valid_vouch(pp, vi, st1, vouch),
        valid_vouch(pp, vi, st2, vouch),
    ensures
        cong(st1, st2),
{
    let x = crate::modular::pair(pp.flipped_params.w1@, vouch.v_u@);
    let m1 = times(1, st1);
    let m2 = times(1, st2);
    assert(crate::modular::pair(m1, 1) == m1 % group_order());
    assert(crate::modular::pair(m2, 1) == m2 % group_order());
    crate::modular::lemma_cong_mod(st1);
    crate::modular::lemma_cong_mod(st2);
    crate::modular::lemma_cong_mod(m1);
    crate::modular::lemma_cong_mod(m2);
    lemma_cong_sub(m1 % group_order() + x, x, m2 % group_order() + x, x);
}

/// Whether a vouch is valid does not depend on its revealed indices, nor on
/// the order of its revealed values: two vouches that agree on everything else
/// and reveal the same multiset of values are valid together.
pub proof fn lemma_valid_vouch_permutation(pp: &PublicParams, vi: int, statement: int, v1: &Vouch, v2: &Vouch)
    requires
        v1.v_u == v2.v_u,
        v1.com_att == v2.com_att,
        v1.sigma_cred == v2.sigma_cred,
        v1.sigma_vouch == v2.sigma_vouch,
        v1.revealed_values@.to_multiset() == v2.revealed_values@.to_multiset(),
    ensures
        valid_vouch(pp, vi, statement, v1) == valid_vouch(pp, vi, statement, v2),
{
    lemma_compute_polynomial_permutation(v1.revealed_values@, v2.revealed_values@);
}

} // verus!
