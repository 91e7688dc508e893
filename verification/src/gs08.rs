//! Groth-Sahai proofs over SXDH commitments: commitments to scalars and group
//! elements, and proofs of pairing product equations
//! `e(A, B) + sum e(F_i, D_i) + sum e(C_j, H_j) = T`.
use vstd::prelude::*;
use ark_std::rand::rngs::StdRng;
use crate::curve::{group_order, pairing, Gt, Scalar, G1, G2};
use vstd::arithmetic::mul::{
    group_mul_is_distributive, lemma_mul_is_associative, lemma_mul_is_commutative,
};
use crate::modular::{
    cong, lemma_cong_mod, lemma_cong_mul, lemma_cong_residues, lemma_cong_sub, lemma_lincomb_cong,
    lemma_plus_cong, lemma_sub_cong, lemma_sum4_cong, lemma_times_cong, minus, pair, plus, times,
};

verus! {

/// The commitment key of the SXDH commitment schemes.
#[derive(Debug, Clone, Copy)]
pub struct ProverKey {
    pub p1: G1,
    pub p2: G2,
    pub hg1: G1,
    pub u1: [G1; 2],
    pub u2: [G1; 2],
    pub v1: [G2; 2],
    pub v2: [G2; 2],
    pub u: [G1; 2],
    pub v: [G2; 2],
    pub i1: [G1; 2],
    pub i2: [G2; 2],
}

/// `pk` is the key built from `p1`, `p2` and the exponents `alpha1`, `t1`,
/// `alpha2`, `t2`: `u1 = (p1, p1^alpha1)`, `u2 = u1^t1`, `v1 = (p2, p2^alpha2)`,
/// `v2 = v1^t2`, `u = (u2[0], u2[1] p1)`, `v = (v2[0], v2[1] p2)`, `i1 = u^-1`
/// and `i2 = v^-1`.
pub open spec fn set_up_with(pk: &ProverKey, alpha1: int, t1: int, alpha2: int, t2: int) -> bool {
    &&& pk.u1[0]@ == pk.p1@
    &&& pk.u1[1]@ == times(pk.p1@, alpha1)
    &&& pk.u2[0]@ == times(pk.u1[0]@, t1)
    &&& pk.u2[1]@ == times(pk.u1[1]@, t1)
    &&& pk.v1[0]@ == pk.p2@
    &&& pk.v1[1]@ == times(pk.p2@, alpha2)
    &&& pk.v2[0]@ == times(pk.v1[0]@, t2)
    &&& pk.v2[1]@ == times(pk.v1[1]@, t2)
    &&& pk.u[0]@ == pk.u2[0]@
    &&& pk.u[1]@ == plus(pk.u2[1]@, pk.p1@)
    &&& pk.v[0]@ == pk.v2[0]@
    &&& pk.v[1]@ == plus(pk.v2[1]@, pk.p2@)
    &&& pk.i1[0]@ == minus(pk.u[0]@)
    &&& pk.i1[1]@ == minus(pk.u[1]@)
    &&& pk.i2[0]@ == minus(pk.v[0]@)
    &&& pk.i2[1]@ == minus(pk.v[1]@)
}

/// `com` commits in G1 to the scalar `m` with randomness `r`.
pub open spec fn committed_fr1(pk: &ProverKey, m: int, r: int, com: [G1; 2]) -> bool {
    &&& com[0]@ == plus(times(pk.u1[0]@, r), times(pk.u2[0]@, m))
    &&& com[1]@ == plus(plus(times(pk.u1[1]@, r), times(pk.u2[1]@, m)), times(pk.u1[0]@, m))
}

/// `com` commits in G2 to the scalar `m` with randomness `r`.
pub open spec fn committed_fr2(pk: &ProverKey, m: int, r: int, com: [G2; 2]) -> bool {
    &&& com[0]@ == plus(times(pk.v1[0]@, r), times(pk.v2[0]@, m))
    &&& com[1]@ == plus(plus(times(pk.v1[1]@, r), times(pk.v2[1]@, m)), times(pk.v1[0]@, m))
}

/// `com` commits to the G1 element of logarithm `m` with randomness `r`.
pub open spec fn committed_g1(pk: &ProverKey, m: int, r: [Scalar; 2], com: [G1; 2]) -> bool {
    &&& com[0]@ == plus(times(pk.u1[0]@, r[0]@), times(pk.u2[0]@, r[1]@))
    &&& com[1]@ == plus(plus(times(pk.u1[1]@, r[0]@), times(pk.u2[1]@, r[1]@)), m)
}

/// `com` commits to the G2 element of logarithm `m` with randomness `r`.
pub open spec fn committed_g2(pk: &ProverKey, m: int, r: [Scalar; 2], com: [G2; 2]) -> bool {
    &&& com[0]@ == plus(times(pk.v1[0]@, r[0]@), times(pk.v2[0]@, r[1]@))
    &&& com[1]@ == plus(plus(times(pk.v1[1]@, r[0]@), times(pk.v2[1]@, r[1]@)), m)
}

/// `acc` followed by the terms `F_i^{r_Di[k]}` of the linear terms of the first
/// kind, in order.
pub open spec fn fold_theta(acc: int, lin1: Seq<(&G1, &[Scalar; 2])>, k: int) -> int
    decreases lin1.len(),
{
    if lin1.len() == 0 {
        acc
    } else {
        plus(fold_theta(acc, lin1.drop_last(), k), times(lin1.last().0@, lin1.last().1[k]@))
    }
}

/// `acc` followed by the terms `H_j^{r_Cj[k]}` of the linear terms of the second
/// kind, in order.
pub open spec fn fold_pi(acc: int, lin2: Seq<(&[Scalar; 2], &G2)>, k: int) -> int
    decreases lin2.len(),
{
    if lin2.len() == 0 {
        acc
    } else {
        plus(fold_pi(acc, lin2.drop_last(), k), times(lin2.last().1@, lin2.last().0[k]@))
    }
}

/// `acc` followed by the pairings `e(F_i, Com(D_i)[k])`, in order.
pub open spec fn fold_lin1_pairings(acc: int, lin1: Seq<(int, [G2; 2])>, k: int) -> int
    decreases lin1.len(),
{
    if lin1.len() == 0 {
        acc
    } else {
        plus(fold_lin1_pairings(acc, lin1.drop_last(), k), pair(lin1.last().0, lin1.last().1[k]@))
    }
}

/// `acc` followed by the pairings `e(Com(C_j)[k], H_j)`, in order.
pub open spec fn fold_lin2_pairings(acc: int, lin2: Seq<([G1; 2], int)>, k: int) -> int
    decreases lin2.len(),
{
    if lin2.len() == 0 {
        acc
    } else {
        plus(fold_lin2_pairings(acc, lin2.drop_last(), k), pair(lin2.last().0[k]@, lin2.last().1))
    }
}

/// The linear terms of the first kind as the verifier reads them: the
/// logarithm of each constant `F_i` with the commitment `Com(D_i)`.
pub open spec fn lin1_view(lin1: Seq<(&G1, &[G2; 2])>) -> Seq<(int, [G2; 2])> {
    lin1.map_values(|x: (&G1, &[G2; 2])| (x.0@, *x.1))
}

/// The linear terms of the second kind as the verifier reads them: each
/// commitment `Com(C_j)` with the logarithm of the constant `H_j`.
pub open spec fn lin2_view(lin2: Seq<(&[G1; 2], &G2)>) -> Seq<([G1; 2], int)> {
    lin2.map_values(|x: (&[G1; 2], &G2)| (*x.0, x.1@))
}

/// The product `r_A[i] r_B[j]` of the randomness of the quadratic term, zero
/// without one.
pub open spec fn rs(quad: Option<(&G1, &[Scalar; 2], &G2, &[Scalar; 2])>, i: int, j: int) -> int {
    match quad {
        Some(q) => times(q.1[i]@, q.3[j]@),
        None => 0,
    }
}

/// The quadratic contribution `A^{r_B[k]}` to `theta[k][1]`, if any.
pub open spec fn theta_quad(acc: int, quad: Option<(&G1, &[Scalar; 2], &G2, &[Scalar; 2])>, k: int) -> int {
    match quad {
        Some(q) => plus(acc, times(q.0@, q.3[k]@)),
        None => acc,
    }
}

/// The quadratic contribution `B^{r_A[k]}` to `pi[k][1]`, if any.
pub open spec fn pi_quad(acc: int, quad: Option<(&G1, &[Scalar; 2], &G2, &[Scalar; 2])>, k: int) -> int {
    match quad {
        Some(q) => plus(acc, times(q.2@, q.1[k]@)),
        None => acc,
    }
}

/// `(theta, pi)` is the proof of the equation with the given witnesses and
/// commitment randomness, made with the randomness `tt`.
pub open spec fn proved_ppe_with(
    pk: &ProverKey,
    tt: [[Scalar; 2]; 2],
    quad: Option<(&G1, &[Scalar; 2], &G2, &[Scalar; 2])>,
    lin1: Seq<(&G1, &[Scalar; 2])>,
    lin2: Seq<(&[Scalar; 2], &G2)>,
    theta: [[G1; 2]; 2],
    pi: [[G2; 2]; 2],
) -> bool {
    let d00 = (rs(quad, 0, 0) - tt[0][0]@) % group_order();
    let d01 = (rs(quad, 0, 1) - tt[0][1]@) % group_order();
    let d10 = (rs(quad, 1, 0) - tt[1][0]@) % group_order();
    let d11 = (rs(quad, 1, 1) - tt[1][1]@) % group_order();
    &&& theta[0][0]@ == plus(times(pk.u1[0]@, tt[0][0]@), times(pk.u2[0]@, tt[1][0]@))
    &&& theta[1][0]@ == plus(times(pk.u1[0]@, tt[0][1]@), times(pk.u2[0]@, tt[1][1]@))
    &&& theta[0][1]@ == fold_theta(
        theta_quad(plus(times(pk.u1[1]@, tt[0][0]@), times(pk.u2[1]@, tt[1][0]@)), quad, 0),
        lin1,
        0,
    )
    &&& theta[1][1]@ == fold_theta(
        theta_quad(plus(times(pk.u1[1]@, tt[0][1]@), times(pk.u2[1]@, tt[1][1]@)), quad, 1),
        lin1,
        1,
    )
    &&& pi[0][0]@ == plus(times(pk.v1[0]@, d00), times(pk.v2[0]@, d01))
    &&& pi[1][0]@ == plus(times(pk.v1[0]@, d10), times(pk.v2[0]@, d11))
    &&& pi[0][1]@ == fold_pi(pi_quad(plus(times(pk.v1[1]@, d00), times(pk.v2[1]@, d01)), quad, 0), lin2, 0)
    &&& pi[1][1]@ == fold_pi(pi_quad(plus(times(pk.v1[1]@, d10), times(pk.v2[1]@, d11)), quad, 1), lin2, 1)
}

/// The pairing `e(Com(A)[i], Com(B)[j])` of the committed quadratic term, or
/// nothing without one.
pub open spec fn quad_pairing(quad: Option<(&[G1; 2], &[G2; 2])>, i: int, j: int) -> int {
    match quad {
        Some(q) => plus(0, pair(q.0[i]@, q.1[j]@)),
        None => 0,
    }
}

/// The four verification equations of a proof `(theta, pi)` of
/// `e(A, B) + sum e(F_i, D_i) + sum e(C_j, H_j) = T` from the commitments.
pub open spec fn ppe_verifies(
    pk: &ProverKey,
    quad: Option<(&[G1; 2], &[G2; 2])>,
    lin1: Seq<(int, [G2; 2])>,
    lin2: Seq<([G1; 2], int)>,
    target: int,
    theta: [[G1; 2]; 2],
    pi: [[G2; 2]; 2],
) -> bool {
    let lhs1 = quad_pairing(quad, 0, 0);
    let rhs1 = plus(
        plus(plus(pair(theta[0][0]@, pk.v1[0]@), pair(theta[1][0]@, pk.v2[0]@)), pair(pk.u1[0]@, pi[0][0]@)),
        pair(pk.u2[0]@, pi[1][0]@),
    );
    let lhs2 = fold_lin2_pairings(quad_pairing(quad, 0, 1), lin2, 0);
    let rhs2 = plus(
        plus(plus(pair(theta[0][0]@, pk.v1[1]@), pair(theta[1][0]@, pk.v2[1]@)), pair(pk.u1[0]@, pi[0][1]@)),
        pair(pk.u2[0]@, pi[1][1]@),
    );
    let lhs3 = fold_lin1_pairings(quad_pairing(quad, 1, 0), lin1, 0);
    let rhs3 = plus(
        plus(plus(pair(theta[0][1]@, pk.v1[0]@), pair(theta[1][1]@, pk.v2[0]@)), pair(pk.u1[1]@, pi[0][0]@)),
        pair(pk.u2[1]@, pi[1][0]@),
    );
    let lhs4 = fold_lin2_pairings(fold_lin1_pairings(quad_pairing(quad, 1, 1), lin1, 1), lin2, 1);
    let rhs4 = plus(
        plus(
            plus(plus(target, pair(theta[0][1]@, pk.v1[1]@)), pair(theta[1][1]@, pk.v2[1]@)),
            pair(pk.u1[1]@, pi[0][1]@),
        ),
        pair(pk.u2[1]@, pi[1][1]@),
    );
    &&& lhs1 == rhs1
    &&& lhs2 == rhs2
    &&& lhs3 == rhs3
    &&& lhs4 == rhs4
}

impl ProverKey {
    /// A commitment key with random `p1`, `p2`, `hg1` and exponents.
    pub fn setup(rng: &mut StdRng) -> (res: ProverKey)
        ensures
            exists|alpha1: int, t1: int, alpha2: int, t2: int|
                #[trigger] set_up_with(&res, alpha1, t1, alpha2, t2),
    {
        let p1 = G1::rand(rng);
        let p2 = G2::rand(rng);
        // should be the output of a random oracle hashing to the curve
        let hg1 = G1::rand(rng);
        let alpha1 = Scalar::rand(rng);
        let t1 = Scalar::rand(rng);
        let alpha2 = Scalar::rand(rng);
        let t2 = Scalar::rand(rng);
        let res = ProverKey::setup_with(&p1, &p2, &hg1, &alpha1, &t1, &alpha2, &t2);
        assert(set_up_with(&res, alpha1@, t1@, alpha2@, t2@));
        res
    }

    /// The commitment key built from `p1`, `p2`, `hg1` and the given exponents.
    pub fn setup_with(
        p1: &G1,
        p2: &G2,
        hg1: &G1,
        alpha1: &Scalar,
        t1: &Scalar,
        alpha2: &Scalar,
        t2: &Scalar,
    ) -> (res: ProverKey)
        ensures
            set_up_with(&res, alpha1@, t1@, alpha2@, t2@),
            res.p1 == *p1,
            res.p2 == *p2,
            res.hg1 == *hg1,
    {
        let u1 = [*p1, p1.mul(alpha1)];
        let u2 = [u1[0].mul(t1), u1[1].mul(t1)];
        let v1 = [*p2, p2.mul(alpha2)];
        let v2 = [v1[0].mul(t2), v1[1].mul(t2)];
        let u = [u2[0], u2[1].add(p1)];
        let v = [v2[0], v2[1].add(p2)];
        let i1 = [u[0].neg(), u[1].neg()];
        let i2 = [v[0].neg(), v[1].neg()];
        ProverKey { p1: *p1, p2: *p2, hg1: *hg1, u1, u2, v1, v2, u, v, i1, i2 }
    }

    /// Commits in G1 to the scalar `m`, returning the commitment and its randomness.
    pub fn commit_fr1(&self, m: &Scalar, rng: &mut StdRng) -> (res: ([G1; 2], Scalar))
        ensures
            committed_fr1(self, m@, res.1@, res.0),
    {
        let r = Scalar::rand(rng);
        (
            [
                self.u1[0].mul(&r).add(&self.u2[0].mul(m)),
                self.u1[1].mul(&r).add(&self.u2[1].mul(m)).add(&self.u1[0].mul(m)),
            ],
            r,
        )
    }

    /// Commits in G2 to the scalar `m`, returning the commitment and its randomness.
    pub fn commit_fr2(&self, m: &Scalar, rng: &mut StdRng) -> (res: ([G2; 2], Scalar))
        ensures
            committed_fr2(self, m@, res.1@, res.0),
    {
        let r = Scalar::rand(rng);
        (
            [
                self.v1[0].mul(&r).add(&self.v2[0].mul(m)),
                self.v1[1].mul(&r).add(&self.v2[1].mul(m)).add(&self.v1[0].mul(m)),
            ],
            r,
        )
    }

    /// Commits to a G1 element, returning the commitment and its randomness.
    pub fn commit_g1(&self, m: &G1, rng: &mut StdRng) -> (res: ([G1; 2], [Scalar; 2]))
        ensures
            committed_g1(self, m@, res.1, res.0),
    {
        let r = [Scalar::rand(rng), Scalar::rand(rng)];
        (
            [
                self.u1[0].mul(&r[0]).add(&self.u2[0].mul(&r[1])),
                self.u1[1].mul(&r[0]).add(&self.u2[1].mul(&r[1])).add(m),
            ],
            r,
        )
    }

    /// Commits to a G2 element, returning the commitment and its randomness.
    pub fn commit_g2(&self, m: &G2, rng: &mut StdRng) -> (res: ([G2; 2], [Scalar; 2]))
        ensures
            committed_g2(self, m@, res.1, res.0),
    {
        let r = [Scalar::rand(rng), Scalar::rand(rng)];
        (
            [
                self.v1[0].mul(&r[0]).add(&self.v2[0].mul(&r[1])),
                self.v1[1].mul(&r[0]).add(&self.v2[1].mul(&r[1])).add(m),
            ],
            r,
        )
    }

    /// Proves `e(A, B) + sum e(F_i, D_i) + sum e(C_j, H_j) = T` with random
    /// proof randomness. `quad` holds `A` (a G1 witness), its commitment
    /// randomness, `B` (a G2 witness) and its randomness; `lin1` holds each
    /// constant `F_i` with the randomness of the commitment to the G2 witness
    /// `D_i`; `lin2` the randomness of the commitment to each G1 witness `C_j`
    /// with the constant `H_j`.
    pub fn prove_ppe(
        &self,
        rng: &mut StdRng,
        quad: Option<(&G1, &[Scalar; 2], &G2, &[Scalar; 2])>,
        lin1: &[(&G1, &[Scalar; 2])],
        lin2: &[(&[Scalar; 2], &G2)],
    ) -> (res: ([[G1; 2]; 2], [[G2; 2]; 2]))
        ensures
            exists|tt: [[Scalar; 2]; 2]|
                #[trigger] proved_ppe_with(self, tt, quad, lin1@, lin2@, res.0, res.1),
    {
        let tt = [[Scalar::rand(rng), Scalar::rand(rng)], [Scalar::rand(rng), Scalar::rand(rng)]];
        let res = self.prove_ppe_with(&tt, quad, lin1, lin2);
        assert(proved_ppe_with(self, tt, quad, lin1@, lin2@, res.0, res.1));
        res
    }

    /// The proof of the equation made with the proof randomness `tt`.
    pub fn prove_ppe_with(
        &self,
        tt: &[[Scalar; 2]; 2],
        quad: Option<(&G1, &[Scalar; 2], &G2, &[Scalar; 2])>,
        lin1: &[(&G1, &[Scalar; 2])],
        lin2: &[(&[Scalar; 2], &G2)],
    ) -> (res: ([[G1; 2]; 2], [[G2; 2]; 2]))
        ensures
            proved_ppe_with(self, *tt, quad, lin1@, lin2@, res.0, res.1),
    {
        // rs[i][j] = r_A[i] r_B[j] from the randomness of the quadratic term
        let (rs00, rs01, rs10, rs11) = match quad {
            Some((_, r_a, _, r_b)) => (
                r_a[0].mul(&r_b[0]),
                r_a[0].mul(&r_b[1]),
                r_a[1].mul(&r_b[0]),
                r_a[1].mul(&r_b[1]),
            ),
            None => (Scalar::zero(), Scalar::zero(), Scalar::zero(), Scalar::zero()),
        };
        // Theta, the G1 part of the proof
        let theta00 = self.u1[0].mul(&tt[0][0]).add(&self.u2[0].mul(&tt[1][0]));
        let theta10 = self.u1[0].mul(&tt[0][1]).add(&self.u2[0].mul(&tt[1][1]));
        let mut theta01 = self.u1[1].mul(&tt[0][0]).add(&self.u2[1].mul(&tt[1][0]));
        let mut theta11 = self.u1[1].mul(&tt[0][1]).add(&self.u2[1].mul(&tt[1][1]));
        // quadratic contribution A^{r_B}
        if let Some((a, _, _, r_b)) = quad {
            theta01 = theta01.add(&a.mul(&r_b[0]));
            theta11 = theta11.add(&a.mul(&r_b[1]));
        }
        let ghost theta01_base = theta01@;
        let ghost theta11_base = theta11@;
        // linear contributions F^{r_D} (F a G1 constant, D a G2 witness)
        let mut i: usize = 0;
        while i < lin1.len()
            invariant
                i <= lin1@.len(),
                theta01@ == fold_theta(theta01_base, lin1@.take(i as int), 0),
                theta11@ == fold_theta(theta11_base, lin1@.take(i as int), 1),
            decreases lin1@.len() - i,
        {
            let (f, r_d) = lin1[i];
            theta01 = theta01.add(&f.mul(&r_d[0]));
            theta11 = theta11.add(&f.mul(&r_d[1]));
            assert(lin1@.take(i + 1).drop_last() == lin1@.take(i as int));
            i = i + 1;
        }
        assert(lin1@.take(lin1@.len() as int) == lin1@);
        // Pi, the G2 part of the proof
        let d00 = rs00.sub(&tt[0][0]);
        let d01 = rs01.sub(&tt[0][1]);
        let d10 = rs10.sub(&tt[1][0]);
        let d11 = rs11.sub(&tt[1][1]);
        let pi00 = self.v1[0].mul(&d00).add(&self.v2[0].mul(&d01));
        let pi10 = self.v1[0].mul(&d10).add(&self.v2[0].mul(&d11));
        let mut pi01 = self.v1[1].mul(&d00).add(&self.v2[1].mul(&d01));
        let mut pi11 = self.v1[1].mul(&d10).add(&self.v2[1].mul(&d11));
        // quadratic contribution B^{r_A}
        if let Some((_, r_a, b, _)) = quad {
            pi01 = pi01.add(&b.mul(&r_a[0]));
            pi11 = pi11.add(&b.mul(&r_a[1]));
        }
        let ghost pi01_base = pi01@;
        let ghost pi11_base = pi11@;
        // linear contributions H^{r_C} (H a G2 constant, C a G1 witness)
        let mut j: usize = 0;
        while j < lin2.len()
            invariant
                j <= lin2@.len(),
                pi01@ == fold_pi(pi01_base, lin2@.take(j as int), 0),
                pi11@ == fold_pi(pi11_base, lin2@.take(j as int), 1),
            decreases lin2@.len() - j,
        {
            let (r_c, h) = lin2[j];
            pi01 = pi01.add(&h.mul(&r_c[0]));
            pi11 = pi11.add(&h.mul(&r_c[1]));
            assert(lin2@.take(j + 1).drop_last() == lin2@.take(j as int));
            j = j + 1;
        }
        assert(lin2@.take(lin2@.len() as int) == lin2@);
        ([[theta00, theta01], [theta10, theta11]], [[pi00, pi01], [pi10, pi11]])
    }

    /// Verifies a proof of `e(A, B) + sum e(F_i, D_i) + sum e(C_j, H_j) = T`
    /// from the commitments: `quad` holds `Com(A)` and `Com(B)`, `lin1` each
    /// constant `F_i` with `Com(D_i)`, `lin2` each `Com(C_j)` with the constant `H_j`.
    pub fn verify_ppe(
        &self,
        quad: Option<(&[G1; 2], &[G2; 2])>,
        lin1: &[(&G1, &[G2; 2])],
        lin2: &[(&[G1; 2], &G2)],
        target: Gt,
        theta: &[[G1; 2]; 2],
        pi: &[[G2; 2]; 2],
    ) -> (res: bool)
        ensures
            res == ppe_verifies(self, quad, lin1_view(lin1@), lin2_view(lin2@), target@, *theta, *pi),
    {
        // Check 1: (0,0)
        let mut lhs1 = Gt::zero();
        if let Some((com_a, com_b)) = quad {
            lhs1 = lhs1.add(&pairing(&com_a[0], &com_b[0]));
        }
        let rhs1 = pairing(&theta[0][0], &self.v1[0])
            .add(&pairing(&theta[1][0], &self.v2[0]))
            .add(&pairing(&self.u1[0], &pi[0][0]))
            .add(&pairing(&self.u2[0], &pi[1][0]));
        if !lhs1.equals(&rhs1) {
            return false;
        }
        // Check 2: (0,1)
        let mut lhs2 = Gt::zero();
        if let Some((com_a, com_b)) = quad {
            lhs2 = lhs2.add(&pairing(&com_a[0], &com_b[1]));
        }
        let ghost lhs2_base = lhs2@;
        let mut j: usize = 0;
        while j < lin2.len()
            invariant
                j <= lin2@.len(),
                lhs2@ == fold_lin2_pairings(lhs2_base, lin2_view(lin2@.take(j as int)), 0),
            decreases lin2@.len() - j,
        {
            let (com_c, h) = lin2[j];
            lhs2 = lhs2.add(&pairing(&com_c[0], h));
            assert(lin2_view(lin2@.take(j + 1)).drop_last() =~= lin2_view(lin2@.take(j as int)));
            j = j + 1;
        }
        assert(lin2@.take(lin2@.len() as int) == lin2@);
        let rhs2 = pairing(&theta[0][0], &self.v1[1])
            .add(&pairing(&theta[1][0], &self.v2[1]))
            .add(&pairing(&self.u1[0], &pi[0][1]))
            .add(&pairing(&self.u2[0], &pi[1][1]));
        if !lhs2.equals(&rhs2) {
            return false;
        }
        // Check 3: (1,0)
        let mut lhs3 = Gt::zero();
        if let Some((com_a, com_b)) = quad {
            lhs3 = lhs3.add(&pairing(&com_a[1], &com_b[0]));
        }
        let ghost lhs3_base = lhs3@;
        let mut i: usize = 0;
        while i < lin1.len()
            invariant
                i <= lin1@.len(),
                lhs3@ == fold_lin1_pairings(lhs3_base, lin1_view(lin1@.take(i as int)), 0),
            decreases lin1@.len() - i,
        {
            let (f, com_d) = lin1[i];
            lhs3 = lhs3.add(&pairing(f, &com_d[0]));
            assert(lin1_view(lin1@.take(i + 1)).drop_last() =~= lin1_view(lin1@.take(i as int)));
            i = i + 1;
        }
        assert(lin1@.take(lin1@.len() as int) == lin1@);
        let rhs3 = pairing(&theta[0][1], &self.v1[0])
            .add(&pairing(&theta[1][1], &self.v2[0]))
            .add(&pairing(&self.u1[1], &pi[0][0]))
            .add(&pairing(&self.u2[1], &pi[1][0]));
        if !lhs3.equals(&rhs3) {
            return false;
        }
        // Check 4: (1,1)
        let mut lhs4 = Gt::zero();
        if let Some((com_a, com_b)) = quad {
            lhs4 = lhs4.add(&pairing(&com_a[1], &com_b[1]));
        }
        let ghost lhs4_base = lhs4@;
        let mut i: usize = 0;
        while i < lin1.len()
            invariant
                i <= lin1@.len(),
                lhs4@ == fold_lin1_pairings(lhs4_base, lin1_view(lin1@.take(i as int)), 1),
            decreases lin1@.len() - i,
        {
            let (f, com_d) = lin1[i];
            lhs4 = lhs4.add(&pairing(f, &com_d[1]));
            assert(lin1_view(lin1@.take(i + 1)).drop_last() =~= lin1_view(lin1@.take(i as int)));
            i = i + 1;
        }
        assert(lin1@.take(lin1@.len() as int) == lin1@);
        let ghost lhs4_mid = lhs4@;
        let mut j: usize = 0;
        while j < lin2.len()
            invariant
                j <= lin2@.len(),
                lhs4@ == fold_lin2_pairings(lhs4_mid, lin2_view(lin2@.take(j as int)), 1),
            decreases lin2@.len() - j,
        {
            let (com_c, h) = lin2[j];
            lhs4 = lhs4.add(&pairing(&com_c[1], h));
            assert(lin2_view(lin2@.take(j + 1)).drop_last() =~= lin2_view(lin2@.take(j as int)));
            j = j + 1;
        }
        assert(lin2@.take(lin2@.len() as int) == lin2@);
        let rhs4 = target
            .add(&pairing(&theta[0][1], &self.v1[1]))
            .add(&pairing(&theta[1][1], &self.v2[1]))
            .add(&pairing(&self.u1[1], &pi[0][1]))
            .add(&pairing(&self.u2[1], &pi[1][1]));
        lhs4.equals(&rhs4)
    }
}

/// The witness `A` of the quadratic term, zero without one.
pub open spec fn wit_a(quad: Option<(&G1, &[Scalar; 2], &G2, &[Scalar; 2])>) -> int {
    match quad {
        Some(q) => q.0@,
        None => 0,
    }
}

/// The witness `B` of the quadratic term, zero without one.
pub open spec fn wit_b(quad: Option<(&G1, &[Scalar; 2], &G2, &[Scalar; 2])>) -> int {
    match quad {
        Some(q) => q.2@,
        None => 0,
    }
}

/// The commitment randomness of `A`, zero without a quadratic term.
pub open spec fn rand_a(quad: Option<(&G1, &[Scalar; 2], &G2, &[Scalar; 2])>, i: int) -> int {
    match quad {
        Some(q) => q.1[i]@,
        None => 0,
    }
}

/// The commitment randomness of `B`, zero without a quadratic term.
pub open spec fn rand_b(quad: Option<(&G1, &[Scalar; 2], &G2, &[Scalar; 2])>, j: int) -> int {
    match quad {
        Some(q) => q.3[j]@,
        None => 0,
    }
}

/// The commitments of the quadratic term are commitments to its witnesses with
/// its randomness (and both are absent together).
pub open spec fn quad_committed(
    pk: &ProverKey,
    quad_p: Option<(&G1, &[Scalar; 2], &G2, &[Scalar; 2])>,
    quad_v: Option<(&[G1; 2], &[G2; 2])>,
) -> bool {
    match (quad_p, quad_v) {
        (Some(p), Some(v)) => committed_g1(pk, p.0@, *p.1, *v.0) && committed_g2(pk, p.2@, *p.3, *v.1),
        (None, None) => true,
        _ => false,
    }
}

/// The verifier's linear terms of the first kind carry the prover's constants
/// and commitments to the witnesses `d` with the prover's randomness.
pub open spec fn lin1_committed(
    pk: &ProverKey,
    lin1_p: Seq<(&G1, &[Scalar; 2])>,
    lin1_v: Seq<(int, [G2; 2])>,
    d: Seq<int>,
) -> bool {
    &&& lin1_v.len() == lin1_p.len()
    &&& d.len() == lin1_p.len()
    &&& forall|i: int|
        0 <= i < lin1_p.len() ==> #[trigger] lin1_v[i].0 == lin1_p[i].0@ && committed_g2(
            pk,
            d[i],
            *lin1_p[i].1,
            lin1_v[i].1,
        )
}

/// The verifier's linear terms of the second kind carry commitments to the
/// witnesses `c` with the prover's randomness, and the prover's constants.
pub open spec fn lin2_committed(
    pk: &ProverKey,
    lin2_p: Seq<(&[Scalar; 2], &G2)>,
    lin2_v: Seq<([G1; 2], int)>,
    c: Seq<int>,
) -> bool {
    &&& lin2_v.len() == lin2_p.len()
    &&& c.len() == lin2_p.len()
    &&& forall|j: int|
        0 <= j < lin2_p.len() ==> #[trigger] lin2_v[j].1 == lin2_p[j].1@ && committed_g1(
            pk,
            c[j],
            *lin2_p[j].0,
            lin2_v[j].0,
        )
}

/// `sum F_i r_Di[k]`.
pub open spec fn sum_theta(lin1: Seq<(&G1, &[Scalar; 2])>, k: int) -> int
    decreases lin1.len(),
{
    if lin1.len() == 0 {
        0
    } else {
        sum_theta(lin1.drop_last(), k) + lin1.last().0@ * lin1.last().1[k]@
    }
}

/// `sum H_j r_Cj[k]`.
pub open spec fn sum_pi(lin2: Seq<(&[Scalar; 2], &G2)>, k: int) -> int
    decreases lin2.len(),
{
    if lin2.len() == 0 {
        0
    } else {
        sum_pi(lin2.drop_last(), k) + lin2.last().1@ * lin2.last().0[k]@
    }
}

/// `sum F_i D_i` in the exponent, unreduced.
pub open spec fn sum_lin1(lin1: Seq<(&G1, &[Scalar; 2])>, d: Seq<int>) -> int
    decreases lin1.len(),
{
    if lin1.len() == 0 {
        0
    } else {
        sum_lin1(lin1.drop_last(), d) + lin1.last().0@ * d[lin1.len() - 1]
    }
}

/// `sum C_j H_j` in the exponent, unreduced.
pub open spec fn sum_lin2(lin2: Seq<(&[Scalar; 2], &G2)>, c: Seq<int>) -> int
    decreases lin2.len(),
{
    if lin2.len() == 0 {
        0
    } else {
        sum_lin2(lin2.drop_last(), c) + c[lin2.len() - 1] * lin2.last().1@
    }
}

/// The logarithm of `e(A, B) + sum e(F_i, D_i) + sum e(C_j, H_j)`, unreduced.
pub open spec fn ppe_value(
    quad: Option<(&G1, &[Scalar; 2], &G2, &[Scalar; 2])>,
    lin1: Seq<(&G1, &[Scalar; 2])>,
    lin2: Seq<(&[Scalar; 2], &G2)>,
    d: Seq<int>,
    c: Seq<int>,
) -> int {
    wit_a(quad) * wit_b(quad) + sum_lin1(lin1, d) + sum_lin2(lin2, c)
}

proof fn lemma_fold_theta(acc: int, lin1: Seq<(&G1, &[Scalar; 2])>, k: int)
    ensures
        cong(fold_theta(acc, lin1, k), acc + sum_theta(lin1, k)),
    decreases lin1.len(),
{
    if lin1.len() > 0 {
        let f = lin1.last().0@;
        let r = lin1.last().1[k]@;
        lemma_fold_theta(acc, lin1.drop_last(), k);
        lemma_times_cong(f, r, f, r);
        lemma_plus_cong(
            fold_theta(acc, lin1.drop_last(), k),
            times(f, r),
            acc + sum_theta(lin1.drop_last(), k),
            f * r,
        );
    }
}

proof fn lemma_fold_pi(acc: int, lin2: Seq<(&[Scalar; 2], &G2)>, k: int)
    ensures
        cong(fold_pi(acc, lin2, k), acc + sum_pi(lin2, k)),
    decreases lin2.len(),
{
    if lin2.len() > 0 {
        let h = lin2.last().1@;
        let r = lin2.last().0[k]@;
        lemma_fold_pi(acc, lin2.drop_last(), k);
        lemma_times_cong(h, r, h, r);
        lemma_plus_cong(fold_pi(acc, lin2.drop_last(), k), times(h, r), acc + sum_pi(lin2.drop_last(), k), h * r);
    }
}

/// The components of a commitment to a G2 element are congruent to their
/// unreduced forms.
proof fn lemma_committed_g2(pk: &ProverKey, m: int, r: [Scalar; 2], com: [G2; 2])
    requires
        committed_g2(pk, m, r, com),
    ensures
        cong(com[0]@, pk.v1[0]@ * r[0]@ + pk.v2[0]@ * r[1]@),
        cong(com[1]@, pk.v1[1]@ * r[0]@ + pk.v2[1]@ * r[1]@ + m),
{
    let (a, b) = (r[0]@, r[1]@);
    lemma_lincomb_cong(pk.v1[0]@, a, pk.v2[0]@, b, pk.v1[0]@, a, pk.v2[0]@, b);
    lemma_lincomb_cong(pk.v1[1]@, a, pk.v2[1]@, b, pk.v1[1]@, a, pk.v2[1]@, b);
    lemma_plus_cong(
        plus(times(pk.v1[1]@, a), times(pk.v2[1]@, b)),
        m,
        pk.v1[1]@ * a + pk.v2[1]@ * b,
        m,
    );
}

/// The components of a commitment to a G1 element are congruent to their
/// unreduced forms.
proof fn lemma_committed_g1(pk: &ProverKey, m: int, r: [Scalar; 2], com: [G1; 2])
    requires
        committed_g1(pk, m, r, com),
    ensures
        cong(com[0]@, pk.u1[0]@ * r[0]@ + pk.u2[0]@ * r[1]@),
        cong(com[1]@, pk.u1[1]@ * r[0]@ + pk.u2[1]@ * r[1]@ + m),
{
    let (a, b) = (r[0]@, r[1]@);
    lemma_lincomb_cong(pk.u1[0]@, a, pk.u2[0]@, b, pk.u1[0]@, a, pk.u2[0]@, b);
    lemma_lincomb_cong(pk.u1[1]@, a, pk.u2[1]@, b, pk.u1[1]@, a, pk.u2[1]@, b);
    lemma_plus_cong(
        plus(times(pk.u1[1]@, a), times(pk.u2[1]@, b)),
        m,
        pk.u1[1]@ * a + pk.u2[1]@ * b,
        m,
    );
}

/// The pairings of the first kind of linear terms, from their commitments.
proof fn lemma_fold_lin1_pairings(
    pk: &ProverKey,
    acc: int,
    lin1_p: Seq<(&G1, &[Scalar; 2])>,
    lin1_v: Seq<(int, [G2; 2])>,
    d: Seq<int>,
    k: int,
)
    requires
        lin1_committed(pk, lin1_p, lin1_v, d),
        k == 0 || k == 1,
    ensures
        cong(
            fold_lin1_pairings(acc, lin1_v, k),
            acc + pk.v1[k]@ * sum_theta(lin1_p, 0) + pk.v2[k]@ * sum_theta(lin1_p, 1) + (if k == 1 {
                sum_lin1(lin1_p, d)
            } else {
                0
            }),
        ),
    decreases lin1_p.len(),
{
    if lin1_p.len() > 0 {
        let n = lin1_p.len() - 1;
        let p2 = lin1_p.drop_last();
        let v2 = lin1_v.drop_last();
        let d2 = d.drop_last();
        assert(lin1_committed(pk, p2, v2, d2)) by {
            assert forall|i: int| 0 <= i < p2.len() implies #[trigger] v2[i].0 == p2[i].0@ && committed_g2(
                pk,
                d2[i],
                *p2[i].1,
                v2[i].1,
            ) by {
                assert(lin1_v[i].0 == lin1_p[i].0@);
            }
        }
        lemma_fold_lin1_pairings(pk, acc, p2, v2, d2, k);
        assert(lin1_v[n].0 == lin1_p[n].0@);
        lemma_committed_g2(pk, d[n], *lin1_p[n].1, lin1_v[n].1);
        let f = lin1_p[n].0@;
        let (r0, r1) = (lin1_p[n].1[0]@, lin1_p[n].1[1]@);
        let (a, b) = (pk.v1[k]@, pk.v2[k]@);
        let delta = if k == 1 { d[n] } else { 0 };
        let com = lin1_v[n].1[k]@;
        assert(cong(com, a * r0 + b * r1 + delta));
        lemma_times_cong(f, com, f, a * r0 + b * r1 + delta);
        let rest = if k == 1 { sum_lin1(p2, d2) } else { 0 };
        lemma_plus_cong(
            fold_lin1_pairings(acc, v2, k),
            pair(f, com),
            acc + a * sum_theta(p2, 0) + b * sum_theta(p2, 1) + rest,
            f * (a * r0 + b * r1 + delta),
        );
        lemma_sum_lin1_prefix(p2, d, d2);
        lemma_regroup(acc, a, b, sum_theta(p2, 0), sum_theta(p2, 1), rest, f, r0, r1, delta);
    }
}

/// Distributing one more linear term over the running sums.
proof fn lemma_regroup(acc: int, a: int, b: int, s0: int, s1: int, rest: int, f: int, r0: int, r1: int, delta: int)
    ensures
        acc + a * s0 + b * s1 + rest + f * (a * r0 + b * r1 + delta) == acc + a * (s0 + f * r0) + b * (
        s1 + f * r1) + (rest + f * delta),
        acc + a * s0 + b * s1 + rest + (a * r0 + b * r1 + delta) * f == acc + a * (s0 + f * r0) + b * (
        s1 + f * r1) + (rest + delta * f),
{
    broadcast use group_mul_is_distributive, lemma_mul_is_associative, lemma_mul_is_commutative;

}

/// `sum_lin1` only reads the witnesses of its own terms.
proof fn lemma_sum_lin1_prefix(lin1: Seq<(&G1, &[Scalar; 2])>, d: Seq<int>, d2: Seq<int>)
    requires
        lin1.len() <= d2.len(),
        lin1.len() <= d.len(),
        forall|i: int| 0 <= i < lin1.len() ==> d[i] == d2[i],
    ensures
        sum_lin1(lin1, d) == sum_lin1(lin1, d2),
    decreases lin1.len(),
{
    if lin1.len() > 0 {
        lemma_sum_lin1_prefix(lin1.drop_last(), d, d2);
    }
}

/// `sum_lin2` only reads the witnesses of its own terms.
proof fn lemma_sum_lin2_prefix(lin2: Seq<(&[Scalar; 2], &G2)>, c: Seq<int>, c2: Seq<int>)
    requires
        lin2.len() <= c2.len(),
        lin2.len() <= c.len(),
        forall|i: int| 0 <= i < lin2.len() ==> c[i] == c2[i],
    ensures
        sum_lin2(lin2, c) == sum_lin2(lin2, c2),
    decreases lin2.len(),
{
    if lin2.len() > 0 {
        lemma_sum_lin2_prefix(lin2.drop_last(), c, c2);
    }
}

/// The pairings of the second kind of linear terms, from their commitments.
proof fn lemma_fold_lin2_pairings(
    pk: &ProverKey,
    acc: int,
    lin2_p: Seq<(&[Scalar; 2], &G2)>,
    lin2_v: Seq<([G1; 2], int)>,
    c: Seq<int>,
    k: int,
)
    requires
        lin2_committed(pk, lin2_p, lin2_v, c),
        k == 0 || k == 1,
    ensures
        cong(
            fold_lin2_pairings(acc, lin2_v, k),
            acc + pk.u1[k]@ * sum_pi(lin2_p, 0) + pk.u2[k]@ * sum_pi(lin2_p, 1) + (if k == 1 {
                sum_lin2(lin2_p, c)
            } else {
                0
            }),
        ),
    decreases lin2_p.len(),
{
    if lin2_p.len() > 0 {
        let n = lin2_p.len() - 1;
        let p2 = lin2_p.drop_last();
        let v2 = lin2_v.drop_last();
        let c2 = c.drop_last();
        assert(lin2_committed(pk, p2, v2, c2)) by {
            assert forall|j: int| 0 <= j < p2.len() implies #[trigger] v2[j].1 == p2[j].1@ && committed_g1(
                pk,
                c2[j],
                *p2[j].0,
                v2[j].0,
            ) by {
                assert(lin2_v[j].1 == lin2_p[j].1@);
            }
        }
        lemma_fold_lin2_pairings(pk, acc, p2, v2, c2, k);
        assert(lin2_v[n].1 == lin2_p[n].1@);
        lemma_committed_g1(pk, c[n], *lin2_p[n].0, lin2_v[n].0);
        let h = lin2_p[n].1@;
        let (r0, r1) = (lin2_p[n].0[0]@, lin2_p[n].0[1]@);
        let (a, b) = (pk.u1[k]@, pk.u2[k]@);
        let delta = if k == 1 { c[n] } else { 0 };
        let com = lin2_v[n].0[k]@;
        assert(cong(com, a * r0 + b * r1 + delta));
        lemma_times_cong(com, h, a * r0 + b * r1 + delta, h);
        let rest = if k == 1 { sum_lin2(p2, c2) } else { 0 };
        lemma_plus_cong(
            fold_lin2_pairings(acc, v2, k),
            pair(com, h),
            acc + a * sum_pi(p2, 0) + b * sum_pi(p2, 1) + rest,
            (a * r0 + b * r1 + delta) * h,
        );
        lemma_sum_lin2_prefix(p2, c, c2);
        lemma_regroup(acc, a, b, sum_pi(p2, 0), sum_pi(p2, 1), rest, h, r0, r1, delta);
    }
}

/// The quadratic contribution to `theta[k][1]` is `A r_B[k]`.
proof fn lemma_theta_quad(acc: int, quad: Option<(&G1, &[Scalar; 2], &G2, &[Scalar; 2])>, k: int)
    ensures
        cong(theta_quad(acc, quad, k), acc + wit_a(quad) * rand_b(quad, k)),
{
    if let Some(q) = quad {
        lemma_times_cong(q.0@, q.3[k]@, q.0@, q.3[k]@);
        lemma_plus_cong(acc, times(q.0@, q.3[k]@), acc, q.0@ * q.3[k]@);
    }
}

/// The quadratic contribution to `pi[k][1]` is `B r_A[k]`.
proof fn lemma_pi_quad(acc: int, quad: Option<(&G1, &[Scalar; 2], &G2, &[Scalar; 2])>, k: int)
    ensures
        cong(pi_quad(acc, quad, k), acc + wit_b(quad) * rand_a(quad, k)),
{
    if let Some(q) = quad {
        lemma_times_cong(q.2@, q.1[k]@, q.2@, q.1[k]@);
        lemma_plus_cong(acc, times(q.2@, q.1[k]@), acc, q.2@ * q.1[k]@);
    }
}

/// `rs[i][j] - tt[i][j]` is `r_A[i] r_B[j] - tt[i][j]`.
proof fn lemma_rs_minus(quad: Option<(&G1, &[Scalar; 2], &G2, &[Scalar; 2])>, i: int, j: int, t: int)
    ensures
        cong((rs(quad, i, j) - t) % group_order(), rand_a(quad, i) * rand_b(quad, j) - t),
{
    if let Some(q) = quad {
        lemma_times_cong(q.1[i]@, q.3[j]@, q.1[i]@, q.3[j]@);
    }
    lemma_sub_cong(rs(quad, i, j), t, rand_a(quad, i) * rand_b(quad, j), t);
}

/// The unreduced components of the commitment to `A` (zero without a quadratic term).
pub open spec fn com_a(pk: &ProverKey, quad: Option<(&G1, &[Scalar; 2], &G2, &[Scalar; 2])>, i: int) -> int {
    pk.u1[i]@ * rand_a(quad, 0) + pk.u2[i]@ * rand_a(quad, 1) + (if i == 1 { wit_a(quad) } else { 0 })
}

/// The unreduced components of the commitment to `B` (zero without a quadratic term).
pub open spec fn com_b(pk: &ProverKey, quad: Option<(&G1, &[Scalar; 2], &G2, &[Scalar; 2])>, j: int) -> int {
    pk.v1[j]@ * rand_b(quad, 0) + pk.v2[j]@ * rand_b(quad, 1) + (if j == 1 { wit_b(quad) } else { 0 })
}

/// The pairing of the committed quadratic term is that of the unreduced commitments.
proof fn lemma_quad_pairing(
    pk: &ProverKey,
    quad_p: Option<(&G1, &[Scalar; 2], &G2, &[Scalar; 2])>,
    quad_v: Option<(&[G1; 2], &[G2; 2])>,
    i: int,
    j: int,
)
    requires
        quad_committed(pk, quad_p, quad_v),
        0 <= i < 2,
        0 <= j < 2,
    ensures
        cong(quad_pairing(quad_v, i, j), com_a(pk, quad_p, i) * com_b(pk, quad_p, j)),
        0 <= quad_pairing(quad_v, i, j) < group_order(),
{
    match (quad_p, quad_v) {
        (Some(p), Some(v)) => {
            lemma_committed_g1(pk, p.0@, *p.1, *v.0);
            lemma_committed_g2(pk, p.2@, *p.3, *v.1);
            lemma_times_cong(v.0[i]@, v.1[j]@, com_a(pk, quad_p, i), com_b(pk, quad_p, j));
            lemma_plus_cong(0, pair(v.0[i]@, v.1[j]@), 0, com_a(pk, quad_p, i) * com_b(pk, quad_p, j));
            lemma_cong_mod(0 + pair(v.0[i]@, v.1[j]@));
        },
        _ => {
            assert(com_a(pk, quad_p, i) == 0) by (nonlinear_arith)
                requires
                    rand_a(quad_p, 0) == 0,
                    rand_a(quad_p, 1) == 0,
                    wit_a(quad_p) == 0,
                    com_a(pk, quad_p, i) == pk.u1[i]@ * rand_a(quad_p, 0) + pk.u2[i]@ * rand_a(quad_p, 1) + (
                    if i == 1 { wit_a(quad_p) } else { 0 }),
            ;
        },
    }
}

/// The proof randomness cancels: the identity shared by the four verification
/// equations, with `p` standing for the products of commitment randomness.
proof fn lemma_core(
    x0: int, x1: int, y0: int, y1: int,
    t00: int, t01: int, t10: int, t11: int,
    p00: int, p01: int, p10: int, p11: int,
    e0: int, e1: int, g0: int, g1: int,
)
    ensures
        (x0 * t00 + x1 * t10 + g0) * y0 + (x0 * t01 + x1 * t11 + g1) * y1
            + x0 * (y0 * (p00 - t00) + y1 * (p01 - t01) + e0)
            + x1 * (y0 * (p10 - t10) + y1 * (p11 - t11) + e1)
            == x0 * (y0 * p00 + y1 * p01) + x1 * (y0 * p10 + y1 * p11) + g0 * y0 + g1 * y1 + x0 * e0 + x1 * e1,
{
    broadcast use group_mul_is_distributive, lemma_mul_is_associative, lemma_mul_is_commutative;
}
/// The product of two unreduced commitment components, expanded.
proof fn lemma_prod(x0: int, x1: int, a0: int, a1: int, q: int, y0: int, y1: int, b0: int, b1: int, w: int)
    ensures
        (x0 * a0 + x1 * a1 + q) * (y0 * b0 + y1 * b1 + w) == x0 * (y0 * (a0 * b0) + y1 * (a0 * b1)) + x1 * (
        y0 * (a1 * b0) + y1 * (a1 * b1)) + x0 * (w * a0) + x1 * (w * a1) + q * y0 * b0 + q * y1 * b1 + q * w,
{
    broadcast use group_mul_is_distributive, lemma_mul_is_associative, lemma_mul_is_commutative;
}
/// The identity behind the first verification equation.
proof fn lemma_identity1(u10: int, u20: int, v10: int, v20: int, t00: int, t01: int, t10: int, t11: int, ra0: int, ra1: int, rb0: int, rb1: int)
    ensures
        (u10 * t00 + u20 * t10 + 0) * v10 + (u10 * t01 + u20 * t11 + 0) * v20
            + u10 * (v10 * (ra0 * rb0 - t00) + v20 * (ra0 * rb1 - t01) + 0)
            + u20 * (v10 * (ra1 * rb0 - t10) + v20 * (ra1 * rb1 - t11) + 0)
            == (u10 * ra0 + u20 * ra1 + 0) * (v10 * rb0 + v20 * rb1 + 0),
{
    lemma_core(u10, u20, v10, v20, t00, t01, t10, t11, ra0 * rb0, ra0 * rb1, ra1 * rb0, ra1 * rb1, 0, 0, 0, 0);
    lemma_prod(u10, u20, ra0, ra1, 0, v10, v20, rb0, rb1, 0);
}
/// The identity behind the second verification equation.
proof fn lemma_identity2(u10: int, u20: int, v11: int, v21: int, t00: int, t01: int, t10: int, t11: int, ra0: int, ra1: int, rb0: int, rb1: int, qb: int, h0: int, h1: int)
    ensures
        (u10 * t00 + u20 * t10 + 0) * v11 + (u10 * t01 + u20 * t11 + 0) * v21
            + u10 * (v11 * (ra0 * rb0 - t00) + v21 * (ra0 * rb1 - t01) + (qb * ra0 + h0))
            + u20 * (v11 * (ra1 * rb0 - t10) + v21 * (ra1 * rb1 - t11) + (qb * ra1 + h1))
            == (u10 * ra0 + u20 * ra1 + 0) * (v11 * rb0 + v21 * rb1 + qb) + u10 * h0 + u20 * h1 + 0,
{
    lemma_core(u10, u20, v11, v21, t00, t01, t10, t11, ra0 * rb0, ra0 * rb1, ra1 * rb0, ra1 * rb1, qb * ra0 + h0, qb * ra1 + h1, 0, 0);
    lemma_prod(u10, u20, ra0, ra1, 0, v11, v21, rb0, rb1, qb);
    lemma_small(u10, qb, ra0, h0);
    lemma_small(u20, qb, ra1, h1);
}
/// The identity behind the third verification equation.
proof fn lemma_identity3(u11: int, u21: int, v10: int, v20: int, t00: int, t01: int, t10: int, t11: int, ra0: int, ra1: int, rb0: int, rb1: int, qa: int, s0: int, s1: int)
    ensures
        (u11 * t00 + u21 * t10 + (qa * rb0 + s0)) * v10 + (u11 * t01 + u21 * t11 + (qa * rb1 + s1)) * v20
            + u11 * (v10 * (ra0 * rb0 - t00) + v20 * (ra0 * rb1 - t01) + 0)
            + u21 * (v10 * (ra1 * rb0 - t10) + v20 * (ra1 * rb1 - t11) + 0)
            == (u11 * ra0 + u21 * ra1 + qa) * (v10 * rb0 + v20 * rb1 + 0) + v10 * s0 + v20 * s1 + 0,
{
    lemma_core(u11, u21, v10, v20, t00, t01, t10, t11, ra0 * rb0, ra0 * rb1, ra1 * rb0, ra1 * rb1, 0, 0, qa * rb0 + s0, qa * rb1 + s1);
    lemma_prod(u11, u21, ra0, ra1, qa, v10, v20, rb0, rb1, 0);
    lemma_small2(qa, rb0, s0, v10);
    lemma_small2(qa, rb1, s1, v20);
}
/// The identity behind the fourth verification equation, whose target is
/// `e(A, B) + sum e(F_i, D_i) + sum e(C_j, H_j)`.
proof fn lemma_identity4(u11: int, u21: int, v11: int, v21: int, t00: int, t01: int, t10: int, t11: int, ra0: int, ra1: int, rb0: int, rb1: int, qa: int, qb: int, s0: int, s1: int, h0: int, h1: int, fd: int, ch: int)
    ensures
        (qa * qb + fd + ch) + (u11 * t00 + u21 * t10 + (qa * rb0 + s0)) * v11
            + (u11 * t01 + u21 * t11 + (qa * rb1 + s1)) * v21
            + u11 * (v11 * (ra0 * rb0 - t00) + v21 * (ra0 * rb1 - t01) + (qb * ra0 + h0))
            + u21 * (v11 * (ra1 * rb0 - t10) + v21 * (ra1 * rb1 - t11) + (qb * ra1 + h1))
            == (u11 * ra0 + u21 * ra1 + qa) * (v11 * rb0 + v21 * rb1 + qb) + v11 * s0 + v21 * s1 + fd
            + u11 * h0 + u21 * h1 + ch,
{
    lemma_core(u11, u21, v11, v21, t00, t01, t10, t11, ra0 * rb0, ra0 * rb1, ra1 * rb0, ra1 * rb1, qb * ra0 + h0, qb * ra1 + h1, qa * rb0 + s0, qa * rb1 + s1);
    lemma_prod(u11, u21, ra0, ra1, qa, v11, v21, rb0, rb1, qb);
    lemma_small(u11, qb, ra0, h0);
    lemma_small(u21, qb, ra1, h1);
    lemma_small2(qa, rb0, s0, v11);
    lemma_small2(qa, rb1, s1, v21);
}
/// Distributing a factor over one more term.
proof fn lemma_small(u: int, q: int, r: int, h: int)
    ensures u * (q * r + h) == u * (r * q) + u * h,
{
    broadcast use group_mul_is_distributive, lemma_mul_is_associative, lemma_mul_is_commutative;
}
/// Distributing a factor over one more term, on the other side.
proof fn lemma_small2(q: int, r: int, s: int, v: int)
    ensures (q * r + s) * v == q * v * r + v * s,
{
    broadcast use group_mul_is_distributive, lemma_mul_is_associative, lemma_mul_is_commutative;
}

/// The components of a proof are congruent to their unreduced forms.
proof fn lemma_proof_components(
    pk: &ProverKey,
    tt: [[Scalar; 2]; 2],
    quad: Option<(&G1, &[Scalar; 2], &G2, &[Scalar; 2])>,
    lin1: Seq<(&G1, &[Scalar; 2])>,
    lin2: Seq<(&[Scalar; 2], &G2)>,
    theta: [[G1; 2]; 2],
    pi: [[G2; 2]; 2],
)
    requires
        proved_ppe_with(pk, tt, quad, lin1, lin2, theta, pi),
    ensures
        cong(theta[0][0]@, pk.u1[0]@ * tt[0][0]@ + pk.u2[0]@ * tt[1][0]@ + 0),
        cong(theta[1][0]@, pk.u1[0]@ * tt[0][1]@ + pk.u2[0]@ * tt[1][1]@ + 0),
        cong(
            theta[0][1]@,
            pk.u1[1]@ * tt[0][0]@ + pk.u2[1]@ * tt[1][0]@ + (wit_a(quad) * rand_b(quad, 0) + sum_theta(lin1, 0)),
        ),
        cong(
            theta[1][1]@,
            pk.u1[1]@ * tt[0][1]@ + pk.u2[1]@ * tt[1][1]@ + (wit_a(quad) * rand_b(quad, 1) + sum_theta(lin1, 1)),
        ),
        cong(
            pi[0][0]@,
            pk.v1[0]@ * (rand_a(quad, 0) * rand_b(quad, 0) - tt[0][0]@) + pk.v2[0]@ * (rand_a(quad, 0) * rand_b(
                quad,
                1,
            ) - tt[0][1]@) + 0,
        ),
        cong(
            pi[1][0]@,
            pk.v1[0]@ * (rand_a(quad, 1) * rand_b(quad, 0) - tt[1][0]@) + pk.v2[0]@ * (rand_a(quad, 1) * rand_b(
                quad,
                1,
            ) - tt[1][1]@) + 0,
        ),
        cong(
            pi[0][1]@,
            pk.v1[1]@ * (rand_a(quad, 0) * rand_b(quad, 0) - tt[0][0]@) + pk.v2[1]@ * (rand_a(quad, 0) * rand_b(
                quad,
                1,
            ) - tt[0][1]@) + (wit_b(quad) * rand_a(quad, 0) + sum_pi(lin2, 0)),
        ),
        cong(
            pi[1][1]@,
            pk.v1[1]@ * (rand_a(quad, 1) * rand_b(quad, 0) - tt[1][0]@) + pk.v2[1]@ * (rand_a(quad, 1) * rand_b(
                quad,
                1,
            ) - tt[1][1]@) + (wit_b(quad) * rand_a(quad, 1) + sum_pi(lin2, 1)),
        ),
{
    let (u10, u11, u20, u21) = (pk.u1[0]@, pk.u1[1]@, pk.u2[0]@, pk.u2[1]@);
    let (v10, v11, v20, v21) = (pk.v1[0]@, pk.v1[1]@, pk.v2[0]@, pk.v2[1]@);
    let (t00, t01, t10, t11) = (tt[0][0]@, tt[0][1]@, tt[1][0]@, tt[1][1]@);
    // theta
    lemma_lincomb_cong(u10, t00, u20, t10, u10, t00, u20, t10);
    lemma_lincomb_cong(u10, t01, u20, t11, u10, t01, u20, t11);
    lemma_theta_column(pk, tt, quad, lin1, 0);
    lemma_theta_column(pk, tt, quad, lin1, 1);
    // pi
    let p00 = rand_a(quad, 0) * rand_b(quad, 0);
    let p01 = rand_a(quad, 0) * rand_b(quad, 1);
    let p10 = rand_a(quad, 1) * rand_b(quad, 0);
    let p11 = rand_a(quad, 1) * rand_b(quad, 1);
    lemma_rs_minus(quad, 0, 0, t00);
    lemma_rs_minus(quad, 0, 1, t01);
    lemma_rs_minus(quad, 1, 0, t10);
    lemma_rs_minus(quad, 1, 1, t11);
    let d00 = (rs(quad, 0, 0) - t00) % group_order();
    let d01 = (rs(quad, 0, 1) - t01) % group_order();
    let d10 = (rs(quad, 1, 0) - t10) % group_order();
    let d11 = (rs(quad, 1, 1) - t11) % group_order();
    lemma_lincomb_cong(v10, d00, v20, d01, v10, p00 - t00, v20, p01 - t01);
    lemma_lincomb_cong(v10, d10, v20, d11, v10, p10 - t10, v20, p11 - t11);
    lemma_lincomb_cong(v11, d00, v21, d01, v11, p00 - t00, v21, p01 - t01);
    lemma_lincomb_cong(v11, d10, v21, d11, v11, p10 - t10, v21, p11 - t11);
    let base01 = plus(times(v11, d00), times(v21, d01));
    let base11 = plus(times(v11, d10), times(v21, d11));
    lemma_pi_quad(base01, quad, 0);
    lemma_pi_quad(base11, quad, 1);
    lemma_fold_pi(pi_quad(base01, quad, 0), lin2, 0);
    lemma_fold_pi(pi_quad(base11, quad, 1), lin2, 1);
    crate::modular::lemma_cong_add(pi_quad(base01, quad, 0), sum_pi(lin2, 0), base01 + wit_b(quad) * rand_a(quad, 0), sum_pi(lin2, 0));
    crate::modular::lemma_cong_add(base01, wit_b(quad) * rand_a(quad, 0) + sum_pi(lin2, 0), v11 * (p00 - t00) + v21 * (p01 - t01), wit_b(quad) * rand_a(quad, 0) + sum_pi(lin2, 0));
    crate::modular::lemma_cong_add(pi_quad(base11, quad, 1), sum_pi(lin2, 1), base11 + wit_b(quad) * rand_a(quad, 1), sum_pi(lin2, 1));
    crate::modular::lemma_cong_add(base11, wit_b(quad) * rand_a(quad, 1) + sum_pi(lin2, 1), v11 * (p10 - t10) + v21 * (p11 - t11), wit_b(quad) * rand_a(quad, 1) + sum_pi(lin2, 1));
}

/// The component `theta[k][1]` is congruent to its unreduced form.
proof fn lemma_theta_column(
    pk: &ProverKey,
    tt: [[Scalar; 2]; 2],
    quad: Option<(&G1, &[Scalar; 2], &G2, &[Scalar; 2])>,
    lin1: Seq<(&G1, &[Scalar; 2])>,
    k: int,
)
    requires
        k == 0 || k == 1,
    ensures
        cong(
            fold_theta(theta_quad(plus(times(pk.u1[1]@, tt[0][k]@), times(pk.u2[1]@, tt[1][k]@)), quad, k), lin1, k),
            pk.u1[1]@ * tt[0][k]@ + pk.u2[1]@ * tt[1][k]@ + (wit_a(quad) * rand_b(quad, k) + sum_theta(lin1, k)),
        ),
{
    let (u11, u21, t0, t1) = (pk.u1[1]@, pk.u2[1]@, tt[0][k]@, tt[1][k]@);
    let base = plus(times(u11, t0), times(u21, t1));
    lemma_lincomb_cong(u11, t0, u21, t1, u11, t0, u21, t1);
    lemma_theta_quad(base, quad, k);
    lemma_fold_theta(theta_quad(base, quad, k), lin1, k);
    let q = wit_a(quad) * rand_b(quad, k);
    crate::modular::lemma_cong_add(theta_quad(base, quad, k), sum_theta(lin1, k), base + q, sum_theta(lin1, k));
    crate::modular::lemma_cong_add(base, q + sum_theta(lin1, k), u11 * t0 + u21 * t1, q + sum_theta(lin1, k));
}

proof fn lemma_fold_lin1_pairings_range(acc: int, lin1: Seq<(int, [G2; 2])>, k: int)
    requires
        0 <= acc < group_order(),
    ensures
        0 <= fold_lin1_pairings(acc, lin1, k) < group_order(),
    decreases lin1.len(),
{
    if lin1.len() > 0 {
        lemma_fold_lin1_pairings_range(acc, lin1.drop_last(), k);
        lemma_cong_mod(fold_lin1_pairings(acc, lin1.drop_last(), k) + pair(lin1.last().0, lin1.last().1[k]@));
    }
}

proof fn lemma_fold_lin2_pairings_range(acc: int, lin2: Seq<([G1; 2], int)>, k: int)
    requires
        0 <= acc < group_order(),
    ensures
        0 <= fold_lin2_pairings(acc, lin2, k) < group_order(),
    decreases lin2.len(),
{
    if lin2.len() > 0 {
        lemma_fold_lin2_pairings_range(acc, lin2.drop_last(), k);
        lemma_cong_mod(fold_lin2_pairings(acc, lin2.drop_last(), k) + pair(lin2.last().0[k]@, lin2.last().1));
    }
}

/// The first verification equation holds of an honest proof.
proof fn lemma_check1(
    pk: &ProverKey,
    tt: [[Scalar; 2]; 2],
    quad_p: Option<(&G1, &[Scalar; 2], &G2, &[Scalar; 2])>,
    lin1_p: Seq<(&G1, &[Scalar; 2])>,
    lin2_p: Seq<(&[Scalar; 2], &G2)>,
    quad_v: Option<(&[G1; 2], &[G2; 2])>,
    lin1_v: Seq<(int, [G2; 2])>,
    lin2_v: Seq<([G1; 2], int)>,
    d: Seq<int>,
    c: Seq<int>,
    target: int,
    theta: [[G1; 2]; 2],
    pi: [[G2; 2]; 2],
)
    requires
        proved_ppe_with(pk, tt, quad_p, lin1_p, lin2_p, theta, pi),
        quad_committed(pk, quad_p, quad_v),
        lin1_committed(pk, lin1_p, lin1_v, d),
        lin2_committed(pk, lin2_p, lin2_v, c),
        cong(target, ppe_value(quad_p, lin1_p, lin2_p, d, c)),
    ensures
        quad_pairing(quad_v, 0, 0) == plus(
            plus(plus(pair(theta[0][0]@, pk.v1[0]@), pair(theta[1][0]@, pk.v2[0]@)), pair(pk.u1[0]@, pi[0][0]@)),
            pair(pk.u2[0]@, pi[1][0]@),
        ),
{
    let (u10, u11, u20, u21) = (pk.u1[0]@, pk.u1[1]@, pk.u2[0]@, pk.u2[1]@);
    let (v10, v11, v20, v21) = (pk.v1[0]@, pk.v1[1]@, pk.v2[0]@, pk.v2[1]@);
    let (t00, t01, t10, t11) = (tt[0][0]@, tt[0][1]@, tt[1][0]@, tt[1][1]@);
    let (ra0, ra1, rb0, rb1) = (rand_a(quad_p, 0), rand_a(quad_p, 1), rand_b(quad_p, 0), rand_b(quad_p, 1));
    let (qa, qb) = (wit_a(quad_p), wit_b(quad_p));
    let (s0, s1, h0, h1) = (sum_theta(lin1_p, 0), sum_theta(lin1_p, 1), sum_pi(lin2_p, 0), sum_pi(lin2_p, 1));
    let th00 = u10 * t00 + u20 * t10 + 0;
    let th10 = u10 * t01 + u20 * t11 + 0;
    let pi00 = v10 * (ra0 * rb0 - t00) + v20 * (ra0 * rb1 - t01) + 0;
    let pi10 = v10 * (ra1 * rb0 - t10) + v20 * (ra1 * rb1 - t11) + 0;
    lemma_proof_components(pk, tt, quad_p, lin1_p, lin2_p, theta, pi);
    let (g00, g10) = (theta[0][0]@, theta[1][0]@);
    let (h00, h10) = (pi[0][0]@, pi[1][0]@);
    let ca0 = com_a(pk, quad_p, 0);
    let ca1 = com_a(pk, quad_p, 1);
    let cb0 = com_b(pk, quad_p, 0);
    let cb1 = com_b(pk, quad_p, 1);
    assert(ca0 == u10 * ra0 + u20 * ra1 + 0);
    assert(ca1 == u11 * ra0 + u21 * ra1 + qa);
    assert(cb0 == v10 * rb0 + v20 * rb1 + 0);
    assert(cb1 == v11 * rb0 + v21 * rb1 + qb);

    // Check 1
    let lhs1 = quad_pairing(quad_v, 0, 0);
    lemma_quad_pairing(pk, quad_p, quad_v, 0, 0);
    lemma_times_cong(g00, v10, th00, v10);
    lemma_times_cong(g10, v20, th10, v20);
    lemma_times_cong(u10, h00, u10, pi00);
    lemma_times_cong(u20, h10, u20, pi10);
    lemma_sum4_cong(pair(g00, v10), pair(g10, v20), pair(u10, h00), pair(u20, h10), th00 * v10, th10 * v20, u10 * pi00, u20 * pi10);
    lemma_identity1(u10, u20, v10, v20, t00, t01, t10, t11, ra0, ra1, rb0, rb1);
    let rhs1 = plus(plus(plus(pair(g00, v10), pair(g10, v20)), pair(u10, h00)), pair(u20, h10));
    lemma_cong_mod(plus(plus(pair(g00, v10), pair(g10, v20)), pair(u10, h00)) + pair(u20, h10));
    lemma_cong_residues(lhs1, rhs1);

}

/// The second verification equation holds of an honest proof.
proof fn lemma_check2(
    pk: &ProverKey,
    tt: [[Scalar; 2]; 2],
    quad_p: Option<(&G1, &[Scalar; 2], &G2, &[Scalar; 2])>,
    lin1_p: Seq<(&G1, &[Scalar; 2])>,
    lin2_p: Seq<(&[Scalar; 2], &G2)>,
    quad_v: Option<(&[G1; 2], &[G2; 2])>,
    lin1_v: Seq<(int, [G2; 2])>,
    lin2_v: Seq<([G1; 2], int)>,
    d: Seq<int>,
    c: Seq<int>,
    target: int,
    theta: [[G1; 2]; 2],
    pi: [[G2; 2]; 2],
)
    requires
        proved_ppe_with(pk, tt, quad_p, lin1_p, lin2_p, theta, pi),
        quad_committed(pk, quad_p, quad_v),
        lin1_committed(pk, lin1_p, lin1_v, d),
        lin2_committed(pk, lin2_p, lin2_v, c),
        cong(target, ppe_value(quad_p, lin1_p, lin2_p, d, c)),
    ensures
        fold_lin2_pairings(quad_pairing(quad_v, 0, 1), lin2_v, 0) == plus(
            plus(plus(pair(theta[0][0]@, pk.v1[1]@), pair(theta[1][0]@, pk.v2[1]@)), pair(pk.u1[0]@, pi[0][1]@)),
            pair(pk.u2[0]@, pi[1][1]@),
        ),
{
    let (u10, u11, u20, u21) = (pk.u1[0]@, pk.u1[1]@, pk.u2[0]@, pk.u2[1]@);
    let (v10, v11, v20, v21) = (pk.v1[0]@, pk.v1[1]@, pk.v2[0]@, pk.v2[1]@);
    let (t00, t01, t10, t11) = (tt[0][0]@, tt[0][1]@, tt[1][0]@, tt[1][1]@);
    let (ra0, ra1, rb0, rb1) = (rand_a(quad_p, 0), rand_a(quad_p, 1), rand_b(quad_p, 0), rand_b(quad_p, 1));
    let (qa, qb) = (wit_a(quad_p), wit_b(quad_p));
    let (s0, s1, h0, h1) = (sum_theta(lin1_p, 0), sum_theta(lin1_p, 1), sum_pi(lin2_p, 0), sum_pi(lin2_p, 1));
    let th00 = u10 * t00 + u20 * t10 + 0;
    let th10 = u10 * t01 + u20 * t11 + 0;
    let pi01 = v11 * (ra0 * rb0 - t00) + v21 * (ra0 * rb1 - t01) + (qb * ra0 + h0);
    let pi11 = v11 * (ra1 * rb0 - t10) + v21 * (ra1 * rb1 - t11) + (qb * ra1 + h1);
    lemma_proof_components(pk, tt, quad_p, lin1_p, lin2_p, theta, pi);
    let (g00, g10) = (theta[0][0]@, theta[1][0]@);
    let (h01, h11) = (pi[0][1]@, pi[1][1]@);
    let ca0 = com_a(pk, quad_p, 0);
    let ca1 = com_a(pk, quad_p, 1);
    let cb0 = com_b(pk, quad_p, 0);
    let cb1 = com_b(pk, quad_p, 1);
    assert(ca0 == u10 * ra0 + u20 * ra1 + 0);
    assert(ca1 == u11 * ra0 + u21 * ra1 + qa);
    assert(cb0 == v10 * rb0 + v20 * rb1 + 0);
    assert(cb1 == v11 * rb0 + v21 * rb1 + qb);

    // Check 2
    let qp01 = quad_pairing(quad_v, 0, 1);
    let lhs2 = fold_lin2_pairings(qp01, lin2_v, 0);
    lemma_quad_pairing(pk, quad_p, quad_v, 0, 1);
    lemma_fold_lin2_pairings(pk, qp01, lin2_p, lin2_v, c, 0);
    lemma_fold_lin2_pairings_range(qp01, lin2_v, 0);
    crate::modular::lemma_cong_add(qp01, u10 * h0 + u20 * h1 + 0, ca0 * cb1, u10 * h0 + u20 * h1 + 0);
    lemma_times_cong(g00, v11, th00, v11);
    lemma_times_cong(g10, v21, th10, v21);
    lemma_times_cong(u10, h01, u10, pi01);
    lemma_times_cong(u20, h11, u20, pi11);
    lemma_sum4_cong(pair(g00, v11), pair(g10, v21), pair(u10, h01), pair(u20, h11), th00 * v11, th10 * v21, u10 * pi01, u20 * pi11);
    lemma_identity2(u10, u20, v11, v21, t00, t01, t10, t11, ra0, ra1, rb0, rb1, qb, h0, h1);
    let rhs2 = plus(plus(plus(pair(g00, v11), pair(g10, v21)), pair(u10, h01)), pair(u20, h11));
    lemma_cong_mod(plus(plus(pair(g00, v11), pair(g10, v21)), pair(u10, h01)) + pair(u20, h11));
    lemma_cong_residues(lhs2, rhs2);

}

/// The third verification equation holds of an honest proof.
proof fn lemma_check3(
    pk: &ProverKey,
    tt: [[Scalar; 2]; 2],
    quad_p: Option<(&G1, &[Scalar; 2], &G2, &[Scalar; 2])>,
    lin1_p: Seq<(&G1, &[Scalar; 2])>,
    lin2_p: Seq<(&[Scalar; 2], &G2)>,
    quad_v: Option<(&[G1; 2], &[G2; 2])>,
    lin1_v: Seq<(int, [G2; 2])>,
    lin2_v: Seq<([G1; 2], int)>,
    d: Seq<int>,
    c: Seq<int>,
    target: int,
    theta: [[G1; 2]; 2],
    pi: [[G2; 2]; 2],
)
    requires
        proved_ppe_with(pk, tt, quad_p, lin1_p, lin2_p, theta, pi),
        quad_committed(pk, quad_p, quad_v),
        lin1_committed(pk, lin1_p, lin1_v, d),
        lin2_committed(pk, lin2_p, lin2_v, c),
        cong(target, ppe_value(quad_p, lin1_p, lin2_p, d, c)),
    ensures
        fold_lin1_pairings(quad_pairing(quad_v, 1, 0), lin1_v, 0) == plus(
            plus(plus(pair(theta[0][1]@, pk.v1[0]@), pair(theta[1][1]@, pk.v2[0]@)), pair(pk.u1[1]@, pi[0][0]@)),
            pair(pk.u2[1]@, pi[1][0]@),
        ),
{
    let (u10, u11, u20, u21) = (pk.u1[0]@, pk.u1[1]@, pk.u2[0]@, pk.u2[1]@);
    let (v10, v11, v20, v21) = (pk.v1[0]@, pk.v1[1]@, pk.v2[0]@, pk.v2[1]@);
    let (t00, t01, t10, t11) = (tt[0][0]@, tt[0][1]@, tt[1][0]@, tt[1][1]@);
    let (ra0, ra1, rb0, rb1) = (rand_a(quad_p, 0), rand_a(quad_p, 1), rand_b(quad_p, 0), rand_b(quad_p, 1));
    let (qa, qb) = (wit_a(quad_p), wit_b(quad_p));
    let (s0, s1, h0, h1) = (sum_theta(lin1_p, 0), sum_theta(lin1_p, 1), sum_pi(lin2_p, 0), sum_pi(lin2_p, 1));
    let th01 = u11 * t00 + u21 * t10 + (qa * rb0 + s0);
    let th11 = u11 * t01 + u21 * t11 + (qa * rb1 + s1);
    let pi00 = v10 * (ra0 * rb0 - t00) + v20 * (ra0 * rb1 - t01) + 0;
    let pi10 = v10 * (ra1 * rb0 - t10) + v20 * (ra1 * rb1 - t11) + 0;
    lemma_proof_components(pk, tt, quad_p, lin1_p, lin2_p, theta, pi);
    let (g01, g11) = (theta[0][1]@, theta[1][1]@);
    let (h00, h10) = (pi[0][0]@, pi[1][0]@);
    let ca0 = com_a(pk, quad_p, 0);
    let ca1 = com_a(pk, quad_p, 1);
    let cb0 = com_b(pk, quad_p, 0);
    let cb1 = com_b(pk, quad_p, 1);
    assert(ca0 == u10 * ra0 + u20 * ra1 + 0);
    assert(ca1 == u11 * ra0 + u21 * ra1 + qa);
    assert(cb0 == v10 * rb0 + v20 * rb1 + 0);
    assert(cb1 == v11 * rb0 + v21 * rb1 + qb);

    // Check 3
    let qp10 = quad_pairing(quad_v, 1, 0);
    let lhs3 = fold_lin1_pairings(qp10, lin1_v, 0);
    lemma_quad_pairing(pk, quad_p, quad_v, 1, 0);
    lemma_fold_lin1_pairings(pk, qp10, lin1_p, lin1_v, d, 0);
    lemma_fold_lin1_pairings_range(qp10, lin1_v, 0);
    crate::modular::lemma_cong_add(qp10, v10 * s0 + v20 * s1 + 0, ca1 * cb0, v10 * s0 + v20 * s1 + 0);
    lemma_times_cong(g01, v10, th01, v10);
    lemma_times_cong(g11, v20, th11, v20);
    lemma_times_cong(u11, h00, u11, pi00);
    lemma_times_cong(u21, h10, u21, pi10);
    lemma_sum4_cong(pair(g01, v10), pair(g11, v20), pair(u11, h00), pair(u21, h10), th01 * v10, th11 * v20, u11 * pi00, u21 * pi10);
    lemma_identity3(u11, u21, v10, v20, t00, t01, t10, t11, ra0, ra1, rb0, rb1, qa, s0, s1);
    let rhs3 = plus(plus(plus(pair(g01, v10), pair(g11, v20)), pair(u11, h00)), pair(u21, h10));
    lemma_cong_mod(plus(plus(pair(g01, v10), pair(g11, v20)), pair(u11, h00)) + pair(u21, h10));
    lemma_cong_residues(lhs3, rhs3);

}

/// The fourth verification equation holds of an honest proof.
proof fn lemma_check4(
    pk: &ProverKey,
    tt: [[Scalar; 2]; 2],
    quad_p: Option<(&G1, &[Scalar; 2], &G2, &[Scalar; 2])>,
    lin1_p: Seq<(&G1, &[Scalar; 2])>,
    lin2_p: Seq<(&[Scalar; 2], &G2)>,
    quad_v: Option<(&[G1; 2], &[G2; 2])>,
    lin1_v: Seq<(int, [G2; 2])>,
    lin2_v: Seq<([G1; 2], int)>,
    d: Seq<int>,
    c: Seq<int>,
    target: int,
    theta: [[G1; 2]; 2],
    pi: [[G2; 2]; 2],
)
    requires
        proved_ppe_with(pk, tt, quad_p, lin1_p, lin2_p, theta, pi),
        quad_committed(pk, quad_p, quad_v),
        lin1_committed(pk, lin1_p, lin1_v, d),
        lin2_committed(pk, lin2_p, lin2_v, c),
        cong(target, ppe_value(quad_p, lin1_p, lin2_p, d, c)),
    ensures
        fold_lin2_pairings(fold_lin1_pairings(quad_pairing(quad_v, 1, 1), lin1_v, 1), lin2_v, 1) == plus(
            plus(
                plus(plus(target, pair(theta[0][1]@, pk.v1[1]@)), pair(theta[1][1]@, pk.v2[1]@)),
                pair(pk.u1[1]@, pi[0][1]@),
            ),
            pair(pk.u2[1]@, pi[1][1]@),
        ),
{
    let (u10, u11, u20, u21) = (pk.u1[0]@, pk.u1[1]@, pk.u2[0]@, pk.u2[1]@);
    let (v10, v11, v20, v21) = (pk.v1[0]@, pk.v1[1]@, pk.v2[0]@, pk.v2[1]@);
    let (t00, t01, t10, t11) = (tt[0][0]@, tt[0][1]@, tt[1][0]@, tt[1][1]@);
    let (ra0, ra1, rb0, rb1) = (rand_a(quad_p, 0), rand_a(quad_p, 1), rand_b(quad_p, 0), rand_b(quad_p, 1));
    let (qa, qb) = (wit_a(quad_p), wit_b(quad_p));
    let (s0, s1, h0, h1) = (sum_theta(lin1_p, 0), sum_theta(lin1_p, 1), sum_pi(lin2_p, 0), sum_pi(lin2_p, 1));
    let (fd, ch) = (sum_lin1(lin1_p, d), sum_lin2(lin2_p, c));
    let th01 = u11 * t00 + u21 * t10 + (qa * rb0 + s0);
    let th11 = u11 * t01 + u21 * t11 + (qa * rb1 + s1);
    let pi01 = v11 * (ra0 * rb0 - t00) + v21 * (ra0 * rb1 - t01) + (qb * ra0 + h0);
    let pi11 = v11 * (ra1 * rb0 - t10) + v21 * (ra1 * rb1 - t11) + (qb * ra1 + h1);
    lemma_proof_components(pk, tt, quad_p, lin1_p, lin2_p, theta, pi);
    let (g01, g11) = (theta[0][1]@, theta[1][1]@);
    let (h01, h11) = (pi[0][1]@, pi[1][1]@);
    let ca0 = com_a(pk, quad_p, 0);
    let ca1 = com_a(pk, quad_p, 1);
    let cb0 = com_b(pk, quad_p, 0);
    let cb1 = com_b(pk, quad_p, 1);
    assert(ca0 == u10 * ra0 + u20 * ra1 + 0);
    assert(ca1 == u11 * ra0 + u21 * ra1 + qa);
    assert(cb0 == v10 * rb0 + v20 * rb1 + 0);
    assert(cb1 == v11 * rb0 + v21 * rb1 + qb);

    // Check 4
    let qp11 = quad_pairing(quad_v, 1, 1);
    let mid4 = fold_lin1_pairings(qp11, lin1_v, 1);
    let lhs4 = fold_lin2_pairings(mid4, lin2_v, 1);
    lemma_quad_pairing(pk, quad_p, quad_v, 1, 1);
    lemma_fold_lin1_pairings(pk, qp11, lin1_p, lin1_v, d, 1);
    lemma_fold_lin1_pairings_range(qp11, lin1_v, 1);
    lemma_fold_lin2_pairings(pk, mid4, lin2_p, lin2_v, c, 1);
    lemma_fold_lin2_pairings_range(mid4, lin2_v, 1);
    crate::modular::lemma_cong_add(qp11, v11 * s0 + v21 * s1 + fd, ca1 * cb1, v11 * s0 + v21 * s1 + fd);
    crate::modular::lemma_cong_add(
        mid4,
        u11 * h0 + u21 * h1 + ch,
        ca1 * cb1 + v11 * s0 + v21 * s1 + fd,
        u11 * h0 + u21 * h1 + ch,
    );
    lemma_times_cong(g01, v11, th01, v11);
    lemma_times_cong(g11, v21, th11, v21);
    lemma_times_cong(u11, h01, u11, pi01);
    lemma_times_cong(u21, h11, u21, pi11);
    lemma_plus_cong(target, pair(g01, v11), qa * qb + fd + ch, th01 * v11);
    lemma_sum4_cong(
        plus(target, pair(g01, v11)),
        pair(g11, v21),
        pair(u11, h01),
        pair(u21, h11),
        qa * qb + fd + ch + th01 * v11,
        th11 * v21,
        u11 * pi01,
        u21 * pi11,
    );
    lemma_identity4(u11, u21, v11, v21, t00, t01, t10, t11, ra0, ra1, rb0, rb1, qa, qb, s0, s1, h0, h1, fd, ch);
    let rhs4 = plus(plus(plus(plus(target, pair(g01, v11)), pair(g11, v21)), pair(u11, h01)), pair(u21, h11));
    lemma_cong_mod(plus(plus(plus(target, pair(g01, v11)), pair(g11, v21)), pair(u11, h01)) + pair(u21, h11));
    lemma_cong_residues(lhs4, rhs4);
}

proof fn lemma_regroup_dlog(g: int, a: int, r: int, b: int, x: int, c: int)
    ensures
        g * (a * r + b * x + c * x) == g * x * (b + c) + g * r * a,
{
    assert(g * (a * r + b * x + c * x) == g * x * (b + c) + g * r * a) by (nonlinear_arith);
}

/// Proofs of discrete logarithm from scalar commitments: over a key built by
/// `set_up_with`, if `com` commits in G2 to `x` with randomness `r`, then
/// `theta = g^r` proves `y = g^x` for any base `g`:
/// `e(g, com[k]) = e(y, v[k]) e(theta, v1[k])` for both components.
pub proof fn lemma_dlog_proof_verifies(
    pk: &ProverKey,
    alpha1: int,
    t1: int,
    alpha2: int,
    t2: int,
    g: int,
    x: int,
    r: int,
    com: [G2; 2],
)
    requires
        set_up_with(pk, alpha1, t1, alpha2, t2),
        committed_fr2(pk, x, r, com),
    ensures
        pair(g, com[0]@) == plus(pair(times(g, x), pk.v[0]@), pair(times(g, r), pk.v1[0]@)),
        pair(g, com[1]@) == plus(pair(times(g, x), pk.v[1]@), pair(times(g, r), pk.v1[1]@)),
{
    let (v10, v11, v20, v21, p2) = (pk.v1[0]@, pk.v1[1]@, pk.v2[0]@, pk.v2[1]@, pk.p2@);
    lemma_cong_mod(g * x);
    lemma_cong_mod(g * r);
    // first component: com[0] ~ v1[0] r + v2[0] x, and v[0] = v2[0]
    lemma_lincomb_cong(v10, r, v20, x, v10, r, v20, x);
    lemma_cong_mul(g, com[0]@, g, v10 * r + v20 * x + 0 * x);
    lemma_regroup_dlog(g, v10, r, v20, x, 0);
    lemma_times_cong(times(g, x), v20, g * x, v20 + 0);
    lemma_times_cong(times(g, r), v10, g * r, v10);
    lemma_plus_cong(pair(times(g, x), v20), pair(times(g, r), v10), g * x * (v20 + 0), g * r * v10);
    lemma_cong_mod(g * com[0]@);
    lemma_cong_residues(pair(g, com[0]@), plus(pair(times(g, x), pk.v[0]@), pair(times(g, r), v10)));
    // second component: com[1] ~ v1[1] r + v2[1] x + v1[0] x, v[1] ~ v2[1] + p2 and v1[0] = p2
    lemma_lincomb_cong(v11, r, v21, x, v11, r, v21, x);
    lemma_cong_mod(v10 * x);
    lemma_plus_cong(plus(times(v11, r), times(v21, x)), times(v10, x), v11 * r + v21 * x, v10 * x);
    lemma_cong_mul(g, com[1]@, g, v11 * r + v21 * x + v10 * x);
    lemma_regroup_dlog(g, v11, r, v21, x, v10);
    lemma_cong_mod(v21 + p2);
    lemma_times_cong(times(g, x), pk.v[1]@, g * x, v21 + v10);
    lemma_times_cong(times(g, r), v11, g * r, v11);
    lemma_plus_cong(pair(times(g, x), pk.v[1]@), pair(times(g, r), v11), g * x * (v21 + v10), g * r * v11);
    lemma_cong_mod(g * com[1]@);
    lemma_cong_residues(pair(g, com[1]@), plus(pair(times(g, x), pk.v[1]@), pair(times(g, r), v11)));
}

/// Completeness of the proofs of pairing product equations: whatever the key
/// and the proof randomness, a proof made from witnesses that satisfy
/// `e(A, B) + sum e(F_i, D_i) + sum e(C_j, H_j) = T`, and from the randomness
/// of their commitments, verifies against those commitments.
pub proof fn lemma_ppe_proof_verifies(
    pk: &ProverKey,
    tt: [[Scalar; 2]; 2],
    quad_p: Option<(&G1, &[Scalar; 2], &G2, &[Scalar; 2])>,
    lin1_p: Seq<(&G1, &[Scalar; 2])>,
    lin2_p: Seq<(&[Scalar; 2], &G2)>,
    quad_v: Option<(&[G1; 2], &[G2; 2])>,
    lin1_v: Seq<(int, [G2; 2])>,
    lin2_v: Seq<([G1; 2], int)>,
    d: Seq<int>,
    c: Seq<int>,
    target: int,
    theta: [[G1; 2]; 2],
    pi: [[G2; 2]; 2],
)
    requires
        proved_ppe_with(pk, tt, quad_p, lin1_p, lin2_p, theta, pi),
        quad_committed(pk, quad_p, quad_v),
        lin1_committed(pk, lin1_p, lin1_v, d),
        lin2_committed(pk, lin2_p, lin2_v, c),
        cong(target, ppe_value(quad_p, lin1_p, lin2_p, d, c)),
    ensures
        ppe_verifies(pk, quad_v, lin1_v, lin2_v, target, theta, pi),
{
    lemma_check1(pk, tt, quad_p, lin1_p, lin2_p, quad_v, lin1_v, lin2_v, d, c, target, theta, pi);
    lemma_check2(pk, tt, quad_p, lin1_p, lin2_p, quad_v, lin1_v, lin2_v, d, c, target, theta, pi);
    lemma_check3(pk, tt, quad_p, lin1_p, lin2_p, quad_v, lin1_v, lin2_v, d, c, target, theta, pi);
    lemma_check4(pk, tt, quad_p, lin1_p, lin2_p, quad_v, lin1_v, lin2_v, d, c, target, theta, pi);
}

/// The right-hand side of the fourth verification equation determines its
/// target up to the order.
proof fn lemma_target_shift(t1: int, t2: int, a: int, b: int, c: int, d: int)
    requires
        plus(plus(plus(plus(t1, a), b), c), d) == plus(plus(plus(plus(t2, a), b), c), d),
    ensures
        cong(t1, t2),
{
    crate::modular::lemma_sum4_cong(t1, a, b, c, t1, a, b, c);
    crate::modular::lemma_sum4_cong(t2, a, b, c, t2, a, b, c);
    lemma_plus_cong(plus(plus(plus(t1, a), b), c), d, t1 + a + b + c, d);
    lemma_plus_cong(plus(plus(plus(t2, a), b), c), d, t2 + a + b + c, d);
    lemma_cong_sub(t1 + a + b + c + d, a + b + c + d, t2 + a + b + c + d, a + b + c + d);
}

/// Soundness of honest proofs: a proof made from witnesses and the
/// randomness of their commitments verifies against those commitments exactly
/// when the witnesses satisfy `e(A, B) + sum e(F_i, D_i) + sum e(C_j, H_j) = T`.
pub proof fn lemma_ppe_proof_verifies_iff(
    pk: &ProverKey,
    tt: [[Scalar; 2]; 2],
    quad_p: Option<(&G1, &[Scalar; 2], &G2, &[Scalar; 2])>,
    lin1_p: Seq<(&G1, &[Scalar; 2])>,
    lin2_p: Seq<(&[Scalar; 2], &G2)>,
    quad_v: Option<(&[G1; 2], &[G2; 2])>,
    lin1_v: Seq<(int, [G2; 2])>,
    lin2_v: Seq<([G1; 2], int)>,
    d: Seq<int>,
    c: Seq<int>,
    target: int,
    theta: [[G1; 2]; 2],
    pi: [[G2; 2]; 2],
)
    requires
        proved_ppe_with(pk, tt, quad_p, lin1_p, lin2_p, theta, pi),
        quad_committed(pk, quad_p, quad_v),
        lin1_committed(pk, lin1_p, lin1_v, d),
        lin2_committed(pk, lin2_p, lin2_v, c),
    ensures
        ppe_verifies(pk, quad_v, lin1_v, lin2_v, target, theta, pi) <==> cong(
            target,
            ppe_value(quad_p, lin1_p, lin2_p, d, c),
        ),
{
    let value = ppe_value(quad_p, lin1_p, lin2_p, d, c);
    let t0 = value % group_order();
    lemma_cong_mod(value);
    lemma_ppe_proof_verifies(pk, tt, quad_p, lin1_p, lin2_p, quad_v, lin1_v, lin2_v, d, c, t0, theta, pi);
    if cong(target, value) {
        lemma_ppe_proof_verifies(pk, tt, quad_p, lin1_p, lin2_p, quad_v, lin1_v, lin2_v, d, c, target, theta, pi);
    } else if ppe_verifies(pk, quad_v, lin1_v, lin2_v, target, theta, pi) {
        lemma_target_shift(
            target,
            t0,
            pair(theta[0][1]@, pk.v1[1]@),
            pair(theta[1][1]@, pk.v2[1]@),
            pair(pk.u1[1]@, pi[0][1]@),
            pair(pk.u2[1]@, pi[1][1]@),
        );
    }
}

/// The value that a commitment in G1 opens to under a key with exponent
/// `alpha1`: `Com[1] - alpha1 Com[0]` in the exponent, unreduced.
pub open spec fn opened_g1(com: [G1; 2], alpha1: int) -> int {
    com[1]@ - alpha1 * com[0]@
}

/// The value that a commitment in G2 opens to under a key with exponent
/// `alpha2`: `Com[1] - alpha2 Com[0]` in the exponent, unreduced.
pub open spec fn opened_g2(com: [G2; 2], alpha2: int) -> int {
    com[1]@ - alpha2 * com[0]@
}

/// `e(A, B)` for the values the commitments of the quadratic term open to, or
/// nothing without one.
pub open spec fn opened_quad(quad: Option<(&[G1; 2], &[G2; 2])>, alpha1: int, alpha2: int) -> int {
    match quad {
        Some(q) => opened_g1(*q.0, alpha1) * opened_g2(*q.1, alpha2),
        None => 0,
    }
}

/// `sum e(F_i, D_i)` for the values the commitments `Com(D_i)` open to.
pub open spec fn opened_lin1(lin1: Seq<(int, [G2; 2])>, alpha2: int) -> int
    decreases lin1.len(),
{
    if lin1.len() == 0 {
        0
    } else {
        opened_lin1(lin1.drop_last(), alpha2) + lin1.last().0 * opened_g2(lin1.last().1, alpha2)
    }
}

/// `sum e(C_j, H_j)` for the values the commitments `Com(C_j)` open to.
pub open spec fn opened_lin2(lin2: Seq<([G1; 2], int)>, alpha1: int) -> int
    decreases lin2.len(),
{
    if lin2.len() == 0 {
        0
    } else {
        opened_lin2(lin2.drop_last(), alpha1) + opened_g1(lin2.last().0, alpha1) * lin2.last().1
    }
}

/// `sum F_i Com(D_i)[k]` in the exponent, unreduced.
spec fn lin1_component(lin1: Seq<(int, [G2; 2])>, k: int) -> int
    decreases lin1.len(),
{
    if lin1.len() == 0 {
        0
    } else {
        lin1_component(lin1.drop_last(), k) + lin1.last().0 * lin1.last().1[k]@
    }
}

/// `sum Com(C_j)[k] H_j` in the exponent, unreduced.
spec fn lin2_component(lin2: Seq<([G1; 2], int)>, k: int) -> int
    decreases lin2.len(),
{
    if lin2.len() == 0 {
        0
    } else {
        lin2_component(lin2.drop_last(), k) + lin2.last().0[k]@ * lin2.last().1
    }
}

/// The logarithm of `Com(A)[i]`, zero without a quadratic term.
spec fn com_quad_a(quad: Option<(&[G1; 2], &[G2; 2])>, i: int) -> int {
    match quad {
        Some(q) => q.0[i]@,
        None => 0,
    }
}

/// The logarithm of `Com(B)[j]`, zero without a quadratic term.
spec fn com_quad_b(quad: Option<(&[G1; 2], &[G2; 2])>, j: int) -> int {
    match quad {
        Some(q) => q.1[j]@,
        None => 0,
    }
}

proof fn lemma_fold_lin1_component(acc: int, lin1: Seq<(int, [G2; 2])>, k: int)
    ensures
        cong(fold_lin1_pairings(acc, lin1, k), acc + lin1_component(lin1, k)),
    decreases lin1.len(),
{
    if lin1.len() > 0 {
        let (f, com) = (lin1.last().0, lin1.last().1[k]@);
        lemma_fold_lin1_component(acc, lin1.drop_last(), k);
        lemma_cong_mod(f * com);
        lemma_plus_cong(fold_lin1_pairings(acc, lin1.drop_last(), k), pair(f, com), acc + lin1_component(
            lin1.drop_last(),
            k,
        ), f * com);
    }
}

proof fn lemma_fold_lin2_component(acc: int, lin2: Seq<([G1; 2], int)>, k: int)
    ensures
        cong(fold_lin2_pairings(acc, lin2, k), acc + lin2_component(lin2, k)),
    decreases lin2.len(),
{
    if lin2.len() > 0 {
        let (com, h) = (lin2.last().0[k]@, lin2.last().1);
        lemma_fold_lin2_component(acc, lin2.drop_last(), k);
        lemma_cong_mod(com * h);
        lemma_plus_cong(fold_lin2_pairings(acc, lin2.drop_last(), k), pair(com, h), acc + lin2_component(
            lin2.drop_last(),
            k,
        ), com * h);
    }
}

proof fn lemma_opened_lin1(lin1: Seq<(int, [G2; 2])>, alpha2: int)
    ensures
        opened_lin1(lin1, alpha2) == lin1_component(lin1, 1) - alpha2 * lin1_component(lin1, 0),
    decreases lin1.len(),
{
    if lin1.len() > 0 {
        lemma_opened_lin1(lin1.drop_last(), alpha2);
        let (f, d0, d1) = (lin1.last().0, lin1.last().1[0]@, lin1.last().1[1]@);
        let (c0, c1) = (lin1_component(lin1.drop_last(), 0), lin1_component(lin1.drop_last(), 1));
        assert(c1 - alpha2 * c0 + f * (d1 - alpha2 * d0) == c1 + f * d1 - alpha2 * (c0 + f * d0))
            by (nonlinear_arith);
    }
}

proof fn lemma_opened_lin2(lin2: Seq<([G1; 2], int)>, alpha1: int)
    ensures
        opened_lin2(lin2, alpha1) == lin2_component(lin2, 1) - alpha1 * lin2_component(lin2, 0),
    decreases lin2.len(),
{
    if lin2.len() > 0 {
        lemma_opened_lin2(lin2.drop_last(), alpha1);
        let (c0, c1, h) = (lin2.last().0[0]@, lin2.last().0[1]@, lin2.last().1);
        let (s0, s1) = (lin2_component(lin2.drop_last(), 0), lin2_component(lin2.drop_last(), 1));
        assert(s1 - alpha1 * s0 + (c1 - alpha1 * c0) * h == s1 + c1 * h - alpha1 * (s0 + c0 * h))
            by (nonlinear_arith);
    }
}

/// The second component of each commitment basis vector is the first raised to
/// the key's exponent.
proof fn lemma_key_exponents(pk: &ProverKey, alpha1: int, t1: int, alpha2: int, t2: int)
    requires
        set_up_with(pk, alpha1, t1, alpha2, t2),
    ensures
        cong(pk.u1[1]@, alpha1 * pk.u1[0]@),
        cong(pk.u2[1]@, alpha1 * pk.u2[0]@),
        cong(pk.v1[1]@, alpha2 * pk.v1[0]@),
        cong(pk.v2[1]@, alpha2 * pk.v2[0]@),
{
    let (u10, u11, v10, v11) = (pk.u1[0]@, pk.u1[1]@, pk.v1[0]@, pk.v1[1]@);
    lemma_cong_mod(u10 * alpha1);
    lemma_cong_mod(v10 * alpha2);
    assert(u10 * alpha1 == alpha1 * u10 && v10 * alpha2 == alpha2 * v10) by (nonlinear_arith);
    // u2[1] = u1[1] t1 ~ alpha1 u1[0] t1 ~ alpha1 u2[0]
    lemma_cong_mod(u11 * t1);
    lemma_cong_mul(u11, t1, alpha1 * u10, t1);
    lemma_cong_mod(u10 * t1);
    lemma_cong_mul(alpha1, u10 * t1, alpha1, pk.u2[0]@);
    assert(alpha1 * u10 * t1 == alpha1 * (u10 * t1)) by (nonlinear_arith);
    lemma_cong_mod(v11 * t2);
    lemma_cong_mul(v11, t2, alpha2 * v10, t2);
    lemma_cong_mod(v10 * t2);
    lemma_cong_mul(alpha2, v10 * t2, alpha2, pk.v2[0]@);
    assert(alpha2 * v10 * t2 == alpha2 * (v10 * t2)) by (nonlinear_arith);
}

/// The quadratic pairing is the product of the commitments' logarithms.
proof fn lemma_quad_pairing_cong(quad: Option<(&[G1; 2], &[G2; 2])>, i: int, j: int)
    ensures
        cong(quad_pairing(quad, i, j), com_quad_a(quad, i) * com_quad_b(quad, j)),
{
    if let Some(q) = quad {
        lemma_cong_mod(q.0[i]@ * q.1[j]@);
        lemma_plus_cong(0, pair(q.0[i]@, q.1[j]@), 0, q.0[i]@ * q.1[j]@);
    }
}

/// The identity behind soundness: combining the four verification equations
/// with the key's exponents cancels the proof and leaves the opened equation.
proof fn lemma_sound_identity(
    a0: int, a1: int, b0: int, b1: int,
    l10: int, l11: int, l20: int, l21: int, t: int,
    th00: int, th10: int, th01: int, th11: int,
    pi00: int, pi10: int, pi01: int, pi11: int,
    u10: int, u20: int, v10: int, v20: int, al1: int, al2: int,
)
    ensures
        (a1 * b1 + l11 + l21 - (t + th01 * (al2 * v10) + th11 * (al2 * v20) + (al1 * u10) * pi01 + (al1 * u20) * pi11))
            - al2 * (a1 * b0 + l10 - (th01 * v10 + th11 * v20 + (al1 * u10) * pi00 + (al1 * u20) * pi10))
            - al1 * (a0 * b1 + l20 - (th00 * (al2 * v10) + th10 * (al2 * v20) + u10 * pi01 + u20 * pi11))
            + al1 * al2 * (a0 * b0 - (th00 * v10 + th10 * v20 + u10 * pi00 + u20 * pi10))
            == (a1 - al1 * a0) * (b1 - al2 * b0) + (l11 - al2 * l10) + (l21 - al1 * l20) - t,
{
    broadcast use group_mul_is_distributive, lemma_mul_is_associative, lemma_mul_is_commutative;
}

/// `x` and `y` are congruent exactly when their difference is congruent to zero.
proof fn lemma_cong_diff(x: int, y: int)
    requires
        cong(x, y),
    ensures
        cong(x - y, 0),
{
    lemma_cong_sub(x, y, y, y);
}

/// Soundness of the proofs of pairing product equations: over a key built by
/// `set_up_with` with exponents `alpha1` and `alpha2` (a binding key), whatever
/// `theta` and `pi`, a proof that verifies shows the equation
/// `e(A, B) + sum e(F_i, D_i) + sum e(C_j, H_j) = T` for the values
/// `Com[1] - alpha Com[0]` that the commitments open to.
pub proof fn lemma_ppe_verifies_sound(
    pk: &ProverKey,
    alpha1: int,
    t1: int,
    alpha2: int,
    t2: int,
    quad: Option<(&[G1; 2], &[G2; 2])>,
    lin1: Seq<(int, [G2; 2])>,
    lin2: Seq<([G1; 2], int)>,
    target: int,
    theta: [[G1; 2]; 2],
    pi: [[G2; 2]; 2],
)
    requires
        set_up_with(pk, alpha1, t1, alpha2, t2),
        ppe_verifies(pk, quad, lin1, lin2, target, theta, pi),
    ensures
        cong(target, opened_quad(quad, alpha1, alpha2) + opened_lin1(lin1, alpha2) + opened_lin2(lin2, alpha1)),
{
    let (u10, u11, u20, u21) = (pk.u1[0]@, pk.u1[1]@, pk.u2[0]@, pk.u2[1]@);
    let (v10, v11, v20, v21) = (pk.v1[0]@, pk.v1[1]@, pk.v2[0]@, pk.v2[1]@);
    let (th00, th10, th01, th11) = (theta[0][0]@, theta[1][0]@, theta[0][1]@, theta[1][1]@);
    let (pi00, pi10, pi01, pi11) = (pi[0][0]@, pi[1][0]@, pi[0][1]@, pi[1][1]@);
    let (a0, a1, b0, b1) = (com_quad_a(quad, 0), com_quad_a(quad, 1), com_quad_b(quad, 0), com_quad_b(quad, 1));
    let (l10, l11, l20, l21) = (
        lin1_component(lin1, 0),
        lin1_component(lin1, 1),
        lin2_component(lin2, 0),
        lin2_component(lin2, 1),
    );
    let (al1, al2) = (alpha1, alpha2);
    lemma_key_exponents(pk, alpha1, t1, alpha2, t2);
    lemma_cong_mod(th00 * v10);
    lemma_cong_mod(th10 * v20);
    lemma_cong_mod(u10 * pi00);
    lemma_cong_mod(u20 * pi10);
    // Check 1
    lemma_quad_pairing_cong(quad, 0, 0);
    lemma_sum4_cong(pair(th00, v10), pair(th10, v20), pair(u10, pi00), pair(u20, pi10), th00 * v10, th10 * v20,
        u10 * pi00, u20 * pi10);
    let d1 = a0 * b0 - (th00 * v10 + th10 * v20 + u10 * pi00 + u20 * pi10);
    lemma_cong_diff(a0 * b0, th00 * v10 + th10 * v20 + u10 * pi00 + u20 * pi10);
    // Check 2
    let qp01 = quad_pairing(quad, 0, 1);
    lemma_quad_pairing_cong(quad, 0, 1);
    lemma_fold_lin2_component(qp01, lin2, 0);
    crate::modular::lemma_cong_add(qp01, l20, a0 * b1, l20);
    lemma_times_cong(th00, v11, th00, al2 * v10);
    lemma_times_cong(th10, v21, th10, al2 * v20);
    lemma_cong_mod(u10 * pi01);
    lemma_cong_mod(u20 * pi11);
    lemma_sum4_cong(pair(th00, v11), pair(th10, v21), pair(u10, pi01), pair(u20, pi11), th00 * (al2 * v10),
        th10 * (al2 * v20), u10 * pi01, u20 * pi11);
    let d2 = a0 * b1 + l20 - (th00 * (al2 * v10) + th10 * (al2 * v20) + u10 * pi01 + u20 * pi11);
    lemma_cong_diff(a0 * b1 + l20, th00 * (al2 * v10) + th10 * (al2 * v20) + u10 * pi01 + u20 * pi11);
    // Check 3
    let qp10 = quad_pairing(quad, 1, 0);
    lemma_quad_pairing_cong(quad, 1, 0);
    lemma_fold_lin1_component(qp10, lin1, 0);
    crate::modular::lemma_cong_add(qp10, l10, a1 * b0, l10);
    lemma_cong_mod(th01 * v10);
    lemma_cong_mod(th11 * v20);
    lemma_times_cong(u11, pi00, al1 * u10, pi00);
    lemma_times_cong(u21, pi10, al1 * u20, pi10);
    lemma_sum4_cong(pair(th01, v10), pair(th11, v20), pair(u11, pi00), pair(u21, pi10), th01 * v10, th11 * v20,
        (al1 * u10) * pi00, (al1 * u20) * pi10);
    let d3 = a1 * b0 + l10 - (th01 * v10 + th11 * v20 + (al1 * u10) * pi00 + (al1 * u20) * pi10);
    lemma_cong_diff(a1 * b0 + l10, th01 * v10 + th11 * v20 + (al1 * u10) * pi00 + (al1 * u20) * pi10);
    // Check 4
    let qp11 = quad_pairing(quad, 1, 1);
    let mid = fold_lin1_pairings(qp11, lin1, 1);
    lemma_quad_pairing_cong(quad, 1, 1);
    lemma_fold_lin1_component(qp11, lin1, 1);
    lemma_fold_lin2_component(mid, lin2, 1);
    crate::modular::lemma_cong_add(qp11, l11, a1 * b1, l11);
    crate::modular::lemma_cong_add(mid, l21, a1 * b1 + l11, l21);
    lemma_times_cong(th01, v11, th01, al2 * v10);
    lemma_plus_cong(target, pair(th01, v11), target, th01 * (al2 * v10));
    lemma_times_cong(th11, v21, th11, al2 * v20);
    lemma_times_cong(u11, pi01, al1 * u10, pi01);
    lemma_times_cong(u21, pi11, al1 * u20, pi11);
    lemma_sum4_cong(plus(target, pair(th01, v11)), pair(th11, v21), pair(u11, pi01), pair(u21, pi11),
        target + th01 * (al2 * v10), th11 * (al2 * v20), (al1 * u10) * pi01, (al1 * u20) * pi11);
    let d4 = a1 * b1 + l11 + l21 - (target + th01 * (al2 * v10) + th11 * (al2 * v20) + (al1 * u10) * pi01 + (al1
        * u20) * pi11);
    lemma_cong_diff(a1 * b1 + l11 + l21, target + th01 * (al2 * v10) + th11 * (al2 * v20) + (al1 * u10) * pi01 + (
    al1 * u20) * pi11);
    // d4 - al2 d3 - al1 d2 + al1 al2 d1 ~ 0
    lemma_cong_mul(al2, d3, al2, 0);
    lemma_cong_mul(al1, d2, al1, 0);
    lemma_cong_mul(al1 * al2, d1, al1 * al2, 0);
    assert(al2 * 0 == 0 && al1 * 0 == 0 && al1 * al2 * 0 == 0) by (nonlinear_arith);
    lemma_cong_sub(d4, al2 * d3, 0, 0);
    lemma_cong_sub(d4 - al2 * d3, al1 * d2, 0, 0);
    crate::modular::lemma_cong_add(d4 - al2 * d3 - al1 * d2, al1 * al2 * d1, 0, 0);
    lemma_sound_identity(a0, a1, b0, b1, l10, l11, l20, l21, target, th00, th10, th01, th11, pi00, pi10, pi01,
        pi11, u10, u20, v10, v20, al1, al2);
    let opened = (a1 - al1 * a0) * (b1 - al2 * b0) + (l11 - al2 * l10) + (l21 - al1 * l20);
    crate::modular::lemma_cong_add(opened - target, target, 0, target);
    // the opened values
    lemma_opened_lin1(lin1, alpha2);
    lemma_opened_lin2(lin2, alpha1);
    assert(opened_quad(quad, alpha1, alpha2) == (a1 - al1 * a0) * (b1 - al2 * b0)) by (nonlinear_arith)
        requires
            quad is None ==> a0 == 0 && a1 == 0 && b0 == 0 && b1 == 0 && opened_quad(quad, alpha1, alpha2) == 0,
            quad is Some ==> opened_quad(quad, alpha1, alpha2) == (a1 - al1 * a0) * (b1 - al2 * b0),
    ;
}

/// Commitments are binding under a key built by `set_up_with`: a commitment to
/// `m` opens to `m`, whatever its randomness.
pub proof fn lemma_commitment_opens(
    pk: &ProverKey,
    alpha1: int,
    t1: int,
    alpha2: int,
    t2: int,
    m1: int,
    r1: [Scalar; 2],
    com1: [G1; 2],
    m2: int,
    r2: [Scalar; 2],
    com2: [G2; 2],
)
    requires
        set_up_with(pk, alpha1, t1, alpha2, t2),
        committed_g1(pk, m1, r1, com1),
        committed_g2(pk, m2, r2, com2),
    ensures
        cong(opened_g1(com1, alpha1), m1),
        cong(opened_g2(com2, alpha2), m2),
{
    lemma_key_exponents(pk, alpha1, t1, alpha2, t2);
    lemma_committed_g1(pk, m1, r1, com1);
    lemma_committed_g2(pk, m2, r2, com2);
    let (u10, u11, u20, u21) = (pk.u1[0]@, pk.u1[1]@, pk.u2[0]@, pk.u2[1]@);
    let (v10, v11, v20, v21) = (pk.v1[0]@, pk.v1[1]@, pk.v2[0]@, pk.v2[1]@);
    let (a, b) = (r1[0]@, r1[1]@);
    let (c, d) = (r2[0]@, r2[1]@);
    // com1[1] - alpha1 com1[0] ~ (u11 - alpha1 u10) a + (u21 - alpha1 u20) b + m1 ~ m1
    lemma_cong_mul(alpha1, com1[0]@, alpha1, u10 * a + u20 * b);
    lemma_cong_sub(com1[1]@, alpha1 * com1[0]@, u11 * a + u21 * b + m1, alpha1 * (u10 * a + u20 * b));
    lemma_cong_mul(u11, a, alpha1 * u10, a);
    lemma_cong_mul(u21, b, alpha1 * u20, b);
    crate::modular::lemma_cong_add(u11 * a, u21 * b, alpha1 * u10 * a, alpha1 * u20 * b);
    crate::modular::lemma_cong_add(u11 * a + u21 * b, m1, alpha1 * u10 * a + alpha1 * u20 * b, m1);
    lemma_cong_sub(u11 * a + u21 * b + m1, alpha1 * (u10 * a + u20 * b), alpha1 * u10 * a + alpha1 * u20 * b + m1,
        alpha1 * (u10 * a + u20 * b));
    assert(alpha1 * u10 * a + alpha1 * u20 * b + m1 - alpha1 * (u10 * a + u20 * b) == m1) by (nonlinear_arith);
    lemma_cong_mul(alpha2, com2[0]@, alpha2, v10 * c + v20 * d);
    lemma_cong_sub(com2[1]@, alpha2 * com2[0]@, v11 * c + v21 * d + m2, alpha2 * (v10 * c + v20 * d));
    lemma_cong_mul(v11, c, alpha2 * v10, c);
    lemma_cong_mul(v21, d, alpha2 * v20, d);
    crate::modular::lemma_cong_add(v11 * c, v21 * d, alpha2 * v10 * c, alpha2 * v20 * d);
    crate::modular::lemma_cong_add(v11 * c + v21 * d, m2, alpha2 * v10 * c + alpha2 * v20 * d, m2);
    lemma_cong_sub(v11 * c + v21 * d + m2, alpha2 * (v10 * c + v20 * d), alpha2 * v10 * c + alpha2 * v20 * d + m2,
        alpha2 * (v10 * c + v20 * d));
    assert(alpha2 * v10 * c + alpha2 * v20 * d + m2 - alpha2 * (v10 * c + v20 * d) == m2) by (nonlinear_arith);
}

} // verus!
