//! Public parameters of the credential system: both Groth15 parameter sets and
//! a KZG reference string in G1 and G2.
use vstd::prelude::*;
use ark_std::rand::rngs::StdRng;
use crate::curve::{group_order, Scalar, G1, G2};
use crate::gro15::{flipped, standard};
use crate::modular::{
    cong, lemma_cong_mod, lemma_cong_mul, lemma_cong_residues, lemma_plus_cong, lemma_times_cong, pair, plus,
    times,
};
use crate::poly::{eval, eval_prefix, lemma_eval_poly_mul, poly_mul, power, DensePolynomial};

verus! {

/// `tau^i` in the scalar field, computed by repeated multiplication.
pub open spec fn tau_power(tau: int, i: nat) -> int
    decreases i,
{
    if i == 0 {
        1
    } else {
        times(tau_power(tau, (i - 1) as nat), tau)
    }
}

/// The commitment `prod crs[i]^{c[i]}` of the first `n` coefficients, in the
/// exponent: a running sum from the identity.
pub open spec fn commitment(crs: Seq<int>, c: Seq<int>, n: int) -> int
    decreases n,
{
    if n <= 0 {
        0
    } else {
        plus(commitment(crs, c, n - 1), times(crs[n - 1], c[n - 1]))
    }
}

/// The commitment to all the coefficients `c`.
pub open spec fn poly_commitment(crs: Seq<int>, c: Seq<int>) -> int {
    commitment(crs, c, c.len() as int)
}

/// The logarithms of a sequence of G1 elements.
pub open spec fn g1_logs(s: Seq<G1>) -> Seq<int> {
    s.map_values(|p: G1| p@)
}

/// The logarithms of a sequence of G2 elements.
pub open spec fn g2_logs(s: Seq<G2>) -> Seq<int> {
    s.map_values(|p: G2| p@)
}

#[derive(Clone, Debug)]
pub struct PublicParams {
    pub gro15_params: standard::Params,
    pub flipped_params: flipped::Params,
    /// `g^{tau^i}` for `i` up to the maximum degree
    pub crs_g1: Vec<G1>,
    /// `h^{tau^i}` for `i` up to the maximum degree
    pub crs_g2: Vec<G2>,
}

/// The reference strings are those of `tau` for the generators of `gro15`, up
/// to degree `max_degree`.
pub open spec fn crs_of(pp: &PublicParams, tau: int, max_degree: int) -> bool {
    &&& pp.crs_g1@.len() == max_degree + 1
    &&& pp.crs_g2@.len() == max_degree + 1
    &&& forall|i: int| 0 <= i <= max_degree ==> #[trigger] pp.crs_g1@[i]@ == times(pp.gro15_params.g@, tau_power(tau, i as nat))
    &&& forall|i: int| 0 <= i <= max_degree ==> #[trigger] pp.crs_g2@[i]@ == times(pp.gro15_params.h@, tau_power(tau, i as nat))
}

impl PublicParams {
    /// Fresh parameters with a random trapdoor `tau`, supporting polynomials up
    /// to degree `max_degree`.
    pub fn new(max_degree: usize, rng: &mut StdRng) -> (res: PublicParams)
        requires
            max_degree < usize::MAX,
        ensures
            res.gro15_params.g@ == 1,
            res.gro15_params.h@ == 1,
            res.flipped_params.g@ == 1,
            res.flipped_params.h@ == 1,
            exists|tau: int| 0 <= tau < group_order() && #[trigger] crs_of(&res, tau, max_degree as int),
    {
        let gro15_params = standard::Params::new(rng);
        let flipped_params = flipped::Params::new(rng);
        let tau = Scalar::rand(rng);
        proof { use_type_invariant(&tau); tau.lemma_value(); }
        let res = PublicParams::with_trapdoor(max_degree, gro15_params, flipped_params, &tau);
        assert(crs_of(&res, tau@, max_degree as int));
        res
    }

    /// The parameters made of the given Groth15 parameters and the reference
    /// strings of the trapdoor `tau`.
    pub fn with_trapdoor(
        max_degree: usize,
        gro15_params: standard::Params,
        flipped_params: flipped::Params,
        tau: &Scalar,
    ) -> (res: PublicParams)
        requires
            max_degree < usize::MAX,
        ensures
            res.gro15_params == gro15_params,
            res.flipped_params == flipped_params,
            crs_of(&res, tau@, max_degree as int),
    {
        let mut crs_g1: Vec<G1> = Vec::with_capacity(max_degree + 1);
        let mut crs_g2: Vec<G2> = Vec::with_capacity(max_degree + 1);
        let mut cur_tau = Scalar::one();
        let mut i: usize = 0;
        while i <= max_degree
            invariant
                i <= max_degree + 1,
                max_degree < usize::MAX,
                crs_g1@.len() == i,
                crs_g2@.len() == i,
                cur_tau@ == tau_power(tau@, i as nat),
                forall|j: int| 0 <= j < i ==> #[trigger] crs_g1@[j]@ == times(gro15_params.g@, tau_power(tau@, j as nat)),
                forall|j: int| 0 <= j < i ==> #[trigger] crs_g2@[j]@ == times(gro15_params.h@, tau_power(tau@, j as nat)),
            decreases max_degree + 1 - i,
        {
            crs_g1.push(gro15_params.g.mul(&cur_tau));
            crs_g2.push(gro15_params.h.mul(&cur_tau));
            cur_tau = cur_tau.mul(tau);
            i = i + 1;
        }
        PublicParams { gro15_params, flipped_params, crs_g1, crs_g2 }
    }

    /// The KZG commitment `prod crs_g1[i]^{coeffs[i]}` to `poly` in G1.
    pub fn commit_g1(&self, poly: &DensePolynomial) -> (res: G1)
        requires
            poly.coeffs.len() <= self.crs_g1.len(),
        ensures
            res@ == poly_commitment(g1_logs(self.crs_g1@), poly.spec_coeffs()),
    {
        let mut com = G1::zero();
        let mut i: usize = 0;
        while i < poly.coeffs.len()
            invariant
                i <= poly.coeffs.len(),
                poly.coeffs.len() <= self.crs_g1.len(),
                com@ == commitment(g1_logs(self.crs_g1@), poly.spec_coeffs(), i as int),
            decreases poly.coeffs.len() - i,
        {
            com = com.add(&self.crs_g1[i].mul(&poly.coeffs[i]));
            i = i + 1;
        }
        com
    }

    /// The KZG commitment `prod crs_g2[i]^{coeffs[i]}` to `poly` in G2.
    pub fn commit_g2(&self, poly: &DensePolynomial) -> (res: G2)
        requires
            poly.coeffs.len() <= self.crs_g2.len(),
        ensures
            res@ == poly_commitment(g2_logs(self.crs_g2@), poly.spec_coeffs()),
    {
        let mut com = G2::zero();
        let mut i: usize = 0;
        while i < poly.coeffs.len()
            invariant
                i <= poly.coeffs.len(),
                poly.coeffs.len() <= self.crs_g2.len(),
                com@ == commitment(g2_logs(self.crs_g2@), poly.spec_coeffs(), i as int),
            decreases poly.coeffs.len() - i,
        {
            com = com.add(&self.crs_g2[i].mul(&poly.coeffs[i]));
            i = i + 1;
        }
        com
    }
}

/// `tau_power` computes the power of `tau`, up to the order.
proof fn lemma_tau_power(tau: int, i: nat)
    ensures
        cong(tau_power(tau, i), power(tau, i)),
    decreases i,
{
    if i > 0 {
        lemma_tau_power(tau, (i - 1) as nat);
        lemma_times_cong(tau_power(tau, (i - 1) as nat), tau, power(tau, (i - 1) as nat), tau);
    }
}

proof fn lemma_regroup_commitment(base: int, e: int, p: int, c: int)
    ensures
        base * e + base * p * c == base * (e + c * p),
{
    assert(base * e + base * p * c == base * (e + c * p)) by (nonlinear_arith);
}

/// Over the powers of `tau` in the exponent of `base`, the commitment to the
/// first `n` coefficients of `c` is `base^{c_n(tau)}`.
proof fn lemma_commitment_eval(crs: Seq<int>, base: int, tau: int, c: Seq<int>, n: int)
    requires
        0 <= n <= c.len(),
        n <= crs.len(),
        forall|i: int| 0 <= i < crs.len() ==> #[trigger] crs[i] == times(base, tau_power(tau, i as nat)),
    ensures
        commitment(crs, c, n) == times(base, eval_prefix(c, tau, n)),
    decreases n,
{
    if n == 0 {
        assert(base * 0 == 0);
    } else {
        lemma_commitment_eval(crs, base, tau, c, n - 1);
        let e = eval_prefix(c, tau, n - 1);
        let p = power(tau, (n - 1) as nat);
        let cn = c[n - 1];
        let tp = tau_power(tau, (n - 1) as nat);
        lemma_tau_power(tau, (n - 1) as nat);
        lemma_times_cong(base, tp, base, p);
        assert(crs[n - 1] == times(base, tp));
        lemma_times_cong(times(base, tp), cn, base * p, cn);
        lemma_cong_mod(base * e);
        lemma_plus_cong(times(base, e), times(times(base, tp), cn), base * e, base * p * cn);
        lemma_regroup_commitment(base, e, p, cn);
        lemma_cong_mod(base * (e + cn * p));
        lemma_cong_mod(times(base, e) + times(times(base, tp), cn));
        lemma_cong_residues(commitment(crs, c, n), times(base, eval_prefix(c, tau, n)));
    }
}

/// KZG commitments evaluate the polynomial at the trapdoor: over parameters
/// made with `tau`, the commitment in G1 to a polynomial with at most
/// `max_degree + 1` coefficients is `g^{f(tau)}`, and the one in G2 is `h^{f(tau)}`.
pub proof fn lemma_commit_evaluates(pp: &PublicParams, tau: int, max_degree: int, c: Seq<int>)
    requires
        crs_of(pp, tau, max_degree),
        c.len() <= max_degree + 1,
    ensures
        poly_commitment(g1_logs(pp.crs_g1@), c) == times(pp.gro15_params.g@, eval(c, tau)),
        poly_commitment(g2_logs(pp.crs_g2@), c) == times(pp.gro15_params.h@, eval(c, tau)),
{
    let crs1 = g1_logs(pp.crs_g1@);
    let crs2 = g2_logs(pp.crs_g2@);
    assert forall|i: int| 0 <= i < crs1.len() implies #[trigger] crs1[i] == times(pp.gro15_params.g@, tau_power(tau, i as nat)) by {
        assert(pp.crs_g1@[i]@ == times(pp.gro15_params.g@, tau_power(tau, i as nat)));
    }
    assert forall|i: int| 0 <= i < crs2.len() implies #[trigger] crs2[i] == times(pp.gro15_params.h@, tau_power(tau, i as nat)) by {
        assert(pp.crs_g2@[i]@ == times(pp.gro15_params.h@, tau_power(tau, i as nat)));
    }
    lemma_commitment_eval(crs1, pp.gro15_params.g@, tau, c, c.len() as int);
    lemma_commitment_eval(crs2, pp.gro15_params.h@, tau, c, c.len() as int);
}

proof fn lemma_regroup_opening(g: int, h: int, es: int, eq: int)
    ensures
        g * es * (h * eq) == g * (h * (es * eq)),
{
    assert(g * es * (h * eq) == g * (h * (es * eq))) by (nonlinear_arith);
}

/// The KZG opening check: over parameters made with any trapdoor, if
/// `f = s q` then `e(Com_1(s), Com_2(q)) = e(g, Com_2(f))`.
pub proof fn lemma_opening_pairs(pp: &PublicParams, tau: int, max_degree: int, s: Seq<int>, q: Seq<int>)
    requires
        crs_of(pp, tau, max_degree),
        s.len() <= max_degree + 1,
        q.len() <= max_degree + 1,
        poly_mul(s, q).len() <= max_degree + 1,
    ensures
        pair(poly_commitment(g1_logs(pp.crs_g1@), s), poly_commitment(g2_logs(pp.crs_g2@), q)) == pair(
            pp.gro15_params.g@,
            poly_commitment(g2_logs(pp.crs_g2@), poly_mul(s, q)),
        ),
{
    let g = pp.gro15_params.g@;
    let h = pp.gro15_params.h@;
    let es = eval(s, tau);
    let eq = eval(q, tau);
    let ef = eval(poly_mul(s, q), tau);
    lemma_commit_evaluates(pp, tau, max_degree, s);
    lemma_commit_evaluates(pp, tau, max_degree, q);
    lemma_commit_evaluates(pp, tau, max_degree, poly_mul(s, q));
    lemma_eval_poly_mul(s, q, tau);
    // left: e(g^es, h^eq) ~ g es h eq
    lemma_cong_mod(g * es);
    lemma_cong_mod(h * eq);
    lemma_times_cong(times(g, es), times(h, eq), g * es, h * eq);
    // right: e(g, h^ef) ~ g h ef ~ g h es eq
    lemma_cong_mod(h * ef);
    lemma_cong_mul(h, ef, h, es * eq);
    lemma_cong_mul(g, times(h, ef), g, h * (es * eq));
    lemma_cong_mod(g * times(h, ef));
    lemma_regroup_opening(g, h, es, eq);
    lemma_cong_mod(times(g, es) * times(h, eq));
    lemma_cong_residues(pair(times(g, es), times(h, eq)), pair(g, times(h, ef)));
}

} // verus!
