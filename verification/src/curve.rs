//! The BLS12-381 scalar field and groups, as the rest of the library sees them.
//!
//! A scalar is held as its canonical 32-byte little-endian encoding; its view is
//! the integer it encodes, always below the group order.
//!
//! A group element is held as its canonical uncompressed encoding. All three
//! groups (G1, G2 and the target group) are cyclic of the prime order
//! `group_order()`, so an element is determined by its discrete logarithm with
//! respect to a fixed generator: the generators of G1 and G2 given by
//! `PrimeGroup::generator`, and their pairing for the target group. The view of
//! an element is that logarithm. The group law, scalar multiplication and the
//! pairing then act on views as addition and multiplication modulo the order,
//! which is what the trusted items below state.
use vstd::prelude::*;
use ark_bls12_381::{Bls12_381, Fr, G1Affine, G1Projective, G2Affine, G2Projective};
use ark_ec::pairing::{Pairing, PairingOutput};
use ark_ec::PrimeGroup;
use ark_ff::{BigInteger, Field, One, PrimeField, UniformRand, Zero};
use ark_serialize::{CanonicalDeserialize, CanonicalSerialize};
use ark_std::rand::rngs::StdRng;

verus! {

/// The prime order of G1, G2 and the target group, which is also the size of
/// the scalar field.
pub open spec fn group_order() -> int {
    52435875175126190479447740508185965837690552500527637822603658699938581184513int
}

/// The integer that a little-endian byte string encodes.
pub open spec fn le_nat(bytes: Seq<u8>) -> nat
    decreases bytes.len(),
{
    if bytes.len() == 0 {
        0
    } else {
        bytes[0] as nat + 256 * le_nat(bytes.drop_first())
    }
}

/// Discrete logarithm, with respect to the generator of G1, of the element whose
/// uncompressed encoding is `enc`; outside `[0, group_order())` when `enc`
/// encodes no element of G1.
pub uninterp spec fn g1_dlog(enc: Seq<u8>) -> int;

/// Discrete logarithm, with respect to the generator of G2, of the element whose
/// uncompressed encoding is `enc`; outside `[0, group_order())` when `enc`
/// encodes no element of G2.
pub uninterp spec fn g2_dlog(enc: Seq<u8>) -> int;

/// Discrete logarithm, with respect to the pairing of the generators of G1 and
/// G2, of the target-group element whose uncompressed encoding is `enc`;
/// outside `[0, group_order())` when `enc` encodes no element of the target group.
pub uninterp spec fn gt_dlog(enc: Seq<u8>) -> int;

#[verifier::external_type_specification]
#[verifier::external_body]
pub struct ExStdRng(StdRng);

/// An element of the scalar field, held in canonical little-endian form.
#[derive(Clone, Copy, Debug, PartialEq, Eq)]
pub struct Scalar {
    pub(crate) bytes: [u8; 32],
}

impl View for Scalar {
    type V = int;

    closed spec fn view(&self) -> int {
        le_nat(self.bytes@) as int
    }
}

impl Scalar {
    #[verifier::type_invariant]
    pub closed spec fn inv(self) -> bool {
        le_nat(self.bytes@) < group_order()
    }

    /// The canonical little-endian encoding of the scalar.
    pub closed spec fn encoding(&self) -> Seq<u8> {
        self.bytes@
    }

    /// The integer value of the scalar is the one its encoding gives.
    pub proof fn lemma_value(self)
        requires
            self.inv(),
        ensures
            0 <= self@ < group_order(),
            self@ == le_nat(self.encoding()),
            self.encoding().len() == 32,
    {
    }

    pub fn zero() -> (res: Scalar)
        ensures
            res@ == 0,
    {
        fr_zero()
    }

    pub fn one() -> (res: Scalar)
        ensures
            res@ == 1,
    {
        fr_one()
    }

    pub fn from_u64(x: u64) -> (res: Scalar)
        ensures
            res@ == x,
    {
        fr_from_u64(x)
    }

    /// Reads `bytes` as a little-endian integer and reduces it modulo the order.
    pub fn from_le_bytes_mod_order(bytes: &[u8]) -> (res: Scalar)
        ensures
            res@ == (le_nat(bytes@) as int) % group_order(),
    {
        fr_from_le_bytes_mod_order(bytes)
    }

    pub fn to_bytes_le(&self) -> (res: [u8; 32])
        ensures
            res@ == self.encoding(),
            le_nat(res@) == self@,
    {
        self.bytes
    }

    /// A scalar drawn by `rng`.
    pub fn rand(rng: &mut StdRng) -> (res: Scalar) {
        fr_rand(rng)
    }

    pub fn add(&self, other: &Scalar) -> (res: Scalar)
        ensures
            res@ == (self@ + other@) % group_order(),
    {
        fr_add(self, other)
    }

    pub fn sub(&self, other: &Scalar) -> (res: Scalar)
        ensures
            res@ == (self@ - other@) % group_order(),
    {
        fr_sub(self, other)
    }

    pub fn mul(&self, other: &Scalar) -> (res: Scalar)
        ensures
            res@ == (self@ * other@) % group_order(),
    {
        fr_mul(self, other)
    }

    pub fn neg(&self) -> (res: Scalar)
        ensures
            res@ == (-self@) % group_order(),
    {
        fr_neg(self)
    }

    pub fn is_zero(&self) -> (res: bool)
        ensures
            res == (self@ == 0),
    {
        fr_is_zero(self)
    }

    /// The multiplicative inverse of a non-zero scalar.
    pub fn inverse(&self) -> (res: Scalar)
        requires
            self@ != 0,
        ensures
            (self@ * res@) % group_order() == 1,
    {
        proof { use_type_invariant(self); }
        fr_inverse(self)
    }
}

/// `Fr::zero`: the additive identity.
#[verifier::external_body]
fn fr_zero() -> (res: Scalar)
    ensures
        res@ == 0,
{
    Scalar { bytes: Fr::zero().into_bigint().to_bytes_le().try_into().unwrap() }
}

/// `Fr::one`: the multiplicative identity.
#[verifier::external_body]
fn fr_one() -> (res: Scalar)
    ensures
        res@ == 1,
{
    Scalar { bytes: Fr::one().into_bigint().to_bytes_le().try_into().unwrap() }
}

/// `Fr::from(u64)`: the field element whose value is `x`.
#[verifier::external_body]
fn fr_from_u64(x: u64) -> (res: Scalar)
    ensures
        res@ == x,
{
    Scalar { bytes: Fr::from(x).into_bigint().to_bytes_le().try_into().unwrap() }
}

/// `Fr::from_le_bytes_mod_order`: the little-endian integer of `bytes`, reduced
/// modulo the field size.
#[verifier::external_body]
fn fr_from_le_bytes_mod_order(bytes: &[u8]) -> (res: Scalar)
    ensures
        res@ == (le_nat(bytes@) as int) % group_order(),
{
    let f = Fr::from_le_bytes_mod_order(bytes);
    Scalar { bytes: f.into_bigint().to_bytes_le().try_into().unwrap() }
}

/// `Fr::rand`: a field element drawn by `rng`; nothing is stated of its value
/// beyond the scalar type's own range.
#[verifier::external_body]
fn fr_rand(rng: &mut StdRng) -> (res: Scalar)
    ensures
        0 <= res@ < group_order(),
{
    Scalar { bytes: Fr::rand(rng).into_bigint().to_bytes_le().try_into().unwrap() }
}

/// `Fr + Fr`: addition modulo the field size.
#[verifier::external_body]
fn fr_add(a: &Scalar, b: &Scalar) -> (res: Scalar)
    ensures
        res@ == (a@ + b@) % group_order(),
{
    let f = Fr::from_le_bytes_mod_order(&a.bytes) + Fr::from_le_bytes_mod_order(&b.bytes);
    Scalar { bytes: f.into_bigint().to_bytes_le().try_into().unwrap() }
}

/// `Fr - Fr`: subtraction modulo the field size.
#[verifier::external_body]
fn fr_sub(a: &Scalar, b: &Scalar) -> (res: Scalar)
    ensures
        res@ == (a@ - b@) % group_order(),
{
    let f = Fr::from_le_bytes_mod_order(&a.bytes) - Fr::from_le_bytes_mod_order(&b.bytes);
    Scalar { bytes: f.into_bigint().to_bytes_le().try_into().unwrap() }
}

/// `Fr * Fr`: multiplication modulo the field size.
#[verifier::external_body]
fn fr_mul(a: &Scalar, b: &Scalar) -> (res: Scalar)
    ensures
        res@ == (a@ * b@) % group_order(),
{
    let f = Fr::from_le_bytes_mod_order(&a.bytes) * Fr::from_le_bytes_mod_order(&b.bytes);
    Scalar { bytes: f.into_bigint().to_bytes_le().try_into().unwrap() }
}

/// `-Fr`: the additive inverse modulo the field size.
#[verifier::external_body]
fn fr_neg(a: &Scalar) -> (res: Scalar)
    ensures
        res@ == (-a@) % group_order(),
{
    let f = -Fr::from_le_bytes_mod_order(&a.bytes);
    Scalar { bytes: f.into_bigint().to_bytes_le().try_into().unwrap() }
}

/// `Fr::is_zero`.
#[verifier::external_body]
fn fr_is_zero(a: &Scalar) -> (res: bool)
    ensures
        res == (a@ == 0),
{
    Fr::from_le_bytes_mod_order(&a.bytes).is_zero()
}

/// `Fr::inverse`, which is `Some` exactly for non-zero elements: the element
/// whose product with `a` is one.
#[verifier::external_body]
fn fr_inverse(a: &Scalar) -> (res: Scalar)
    requires
        0 < a@ < group_order(),
    ensures
        (a@ * res@) % group_order() == 1,
        0 <= res@ < group_order(),
{
    let f = Fr::from_le_bytes_mod_order(&a.bytes).inverse().unwrap();
    Scalar { bytes: f.into_bigint().to_bytes_le().try_into().unwrap() }
}


/// An element of G1, held as its canonical uncompressed encoding.
#[derive(Clone, Copy, Debug, PartialEq, Eq)]
pub struct G1 {
    bytes: [u8; 96],
}

impl View for G1 {
    type V = int;

    closed spec fn view(&self) -> int {
        g1_dlog(self.bytes@)
    }
}

impl G1 {
    #[verifier::type_invariant]
    pub closed spec fn inv(self) -> bool {
        0 <= g1_dlog(self.bytes@) < group_order()
    }

    /// The canonical uncompressed encoding of the element.
    pub closed spec fn encoding(&self) -> Seq<u8> {
        self.bytes@
    }

    /// The view of an element is its discrete logarithm, which lies below the order.
    pub proof fn lemma_range(self)
        requires
            self.inv(),
        ensures
            0 <= self@ < group_order(),
            self@ == g1_dlog(self.encoding()),
    {
    }

    pub fn to_bytes(&self) -> (res: [u8; 96])
        ensures
            res@ == self.encoding(),
    {
        self.bytes
    }

    /// The fixed generator of the group.
    pub fn generator() -> (res: G1)
        ensures
            res@ == 1,
    {
        g1_generator()
    }

    /// The identity element.
    pub fn zero() -> (res: G1)
        ensures
            res@ == 0,
    {
        g1_zero()
    }

    /// An element drawn by `rng`.
    pub fn rand(rng: &mut StdRng) -> (res: G1) {
        g1_rand(rng)
    }

    pub fn add(&self, other: &G1) -> (res: G1)
        ensures
            res@ == (self@ + other@) % group_order(),
    {
        proof { use_type_invariant(self); use_type_invariant(other); }
        g1_add(self, other)
    }

    pub fn neg(&self) -> (res: G1)
        ensures
            res@ == (-self@) % group_order(),
    {
        proof { use_type_invariant(self); }
        g1_neg(self)
    }

    /// Scalar multiplication.
    pub fn mul(&self, s: &Scalar) -> (res: G1)
        ensures
            res@ == (self@ * s@) % group_order(),
    {
        proof { use_type_invariant(self); }
        g1_mul(self, s)
    }

    pub fn equals(&self, other: &G1) -> (res: bool)
        ensures
            res == (self@ == other@),
    {
        proof { use_type_invariant(self); use_type_invariant(other); }
        g1_eq(self, other)
    }
}

/// An element of G2, held as its canonical uncompressed encoding.
#[derive(Clone, Copy, Debug, PartialEq, Eq)]
pub struct G2 {
    bytes: [u8; 192],
}

impl View for G2 {
    type V = int;

    closed spec fn view(&self) -> int {
        g2_dlog(self.bytes@)
    }
}

impl G2 {
    #[verifier::type_invariant]
    pub closed spec fn inv(self) -> bool {
        0 <= g2_dlog(self.bytes@) < group_order()
    }

    /// The canonical uncompressed encoding of the element.
    pub closed spec fn encoding(&self) -> Seq<u8> {
        self.bytes@
    }

    /// The view of an element is its discrete logarithm, which lies below the order.
    pub proof fn lemma_range(self)
        requires
            self.inv(),
        ensures
            0 <= self@ < group_order(),
            self@ == g2_dlog(self.encoding()),
    {
    }

    pub fn to_bytes(&self) -> (res: [u8; 192])
        ensures
            res@ == self.encoding(),
    {
        self.bytes
    }

    /// The fixed generator of the group.
    pub fn generator() -> (res: G2)
        ensures
            res@ == 1,
    {
        g2_generator()
    }

    /// The identity element.
    pub fn zero() -> (res: G2)
        ensures
            res@ == 0,
    {
        g2_zero()
    }

    /// An element drawn by `rng`.
    pub fn rand(rng: &mut StdRng) -> (res: G2) {
        g2_rand(rng)
    }

    pub fn add(&self, other: &G2) -> (res: G2)
        ensures
            res@ == (self@ + other@) % group_order(),
    {
        proof { use_type_invariant(self); use_type_invariant(other); }
        g2_add(self, other)
    }

    pub fn neg(&self) -> (res: G2)
        ensures
            res@ == (-self@) % group_order(),
    {
        proof { use_type_invariant(self); }
        g2_neg(self)
    }

    /// Scalar multiplication.
    pub fn mul(&self, s: &Scalar) -> (res: G2)
        ensures
            res@ == (self@ * s@) % group_order(),
    {
        proof { use_type_invariant(self); }
        g2_mul(self, s)
    }

    pub fn equals(&self, other: &G2) -> (res: bool)
        ensures
            res == (self@ == other@),
    {
        proof { use_type_invariant(self); use_type_invariant(other); }
        g2_eq(self, other)
    }
}

/// An element of the target group, held as its canonical uncompressed encoding.
#[derive(Clone, Copy, Debug, PartialEq, Eq)]
pub struct Gt {
    bytes: [u8; 576],
}

impl View for Gt {
    type V = int;

    closed spec fn view(&self) -> int {
        gt_dlog(self.bytes@)
    }
}

impl Gt {
    #[verifier::type_invariant]
    pub closed spec fn inv(self) -> bool {
        0 <= gt_dlog(self.bytes@) < group_order()
    }

    /// The canonical uncompressed encoding of the element.
    pub closed spec fn encoding(&self) -> Seq<u8> {
        self.bytes@
    }

    /// The view of an element is its discrete logarithm, which lies below the order.
    pub proof fn lemma_range(self)
        requires
            self.inv(),
        ensures
            0 <= self@ < group_order(),
            self@ == gt_dlog(self.encoding()),
    {
    }

    pub fn to_bytes(&self) -> (res: [u8; 576])
        ensures
            res@ == self.encoding(),
    {
        self.bytes
    }

    /// The identity element.
    pub fn zero() -> (res: Gt)
        ensures
            res@ == 0,
    {
        gt_zero()
    }

    pub fn add(&self, other: &Gt) -> (res: Gt)
        ensures
            res@ == (self@ + other@) % group_order(),
    {
        proof { use_type_invariant(self); use_type_invariant(other); }
        gt_add(self, other)
    }

    pub fn equals(&self, other: &Gt) -> (res: bool)
        ensures
            res == (self@ == other@),
    {
        proof { use_type_invariant(self); use_type_invariant(other); }
        gt_eq(self, other)
    }
}

/// The pairing `e(p, q)`: bilinear, and equal to the target-group generator on
/// the two generators.
pub fn pairing(p: &G1, q: &G2) -> (res: Gt)
    ensures
        res@ == (p@ * q@) % group_order(),
{
    proof { use_type_invariant(p); use_type_invariant(q); }
    bls_pairing(p, q)
}

/// `G1Projective::generator`: the fixed generator, whose logarithm is one.
#[verifier::external_body]
fn g1_generator() -> (res: G1)
    ensures
        g1_dlog(res.bytes@) == 1,
{
    let mut out = Vec::new();
    G1Projective::generator().serialize_uncompressed(&mut out).unwrap();
    G1 { bytes: out.try_into().unwrap() }
}

/// `G1Projective::zero`: the identity, whose logarithm is zero.
#[verifier::external_body]
fn g1_zero() -> (res: G1)
    ensures
        g1_dlog(res.bytes@) == 0,
{
    let mut out = Vec::new();
    G1Projective::zero().serialize_uncompressed(&mut out).unwrap();
    G1 { bytes: out.try_into().unwrap() }
}

/// `G1Projective::rand`: an element of the prime-order group drawn by `rng`; nothing is
/// stated of which one.
#[verifier::external_body]
fn g1_rand(rng: &mut StdRng) -> (res: G1)
    ensures
        0 <= g1_dlog(res.bytes@) < group_order(),
{
    let mut out = Vec::new();
    G1Projective::rand(rng).serialize_uncompressed(&mut out).unwrap();
    G1 { bytes: out.try_into().unwrap() }
}

/// `G1Projective + G1Projective`: the group law, which adds logarithms.
#[verifier::external_body]
fn g1_add(a: &G1, b: &G1) -> (res: G1)
    requires
        0 <= g1_dlog(a.bytes@) < group_order(),
        0 <= g1_dlog(b.bytes@) < group_order(),
    ensures
        g1_dlog(res.bytes@) == (g1_dlog(a.bytes@) + g1_dlog(b.bytes@)) % group_order(),
{
    let x = G1Affine::deserialize_uncompressed_unchecked(&a.bytes[..]).unwrap();
    let y = G1Affine::deserialize_uncompressed_unchecked(&b.bytes[..]).unwrap();
    let mut out = Vec::new();
    (G1Projective::from(x) + y).serialize_uncompressed(&mut out).unwrap();
    G1 { bytes: out.try_into().unwrap() }
}

/// `-G1Projective`: the group inverse, which negates the logarithm.
#[verifier::external_body]
fn g1_neg(a: &G1) -> (res: G1)
    requires
        0 <= g1_dlog(a.bytes@) < group_order(),
    ensures
        g1_dlog(res.bytes@) == (-g1_dlog(a.bytes@)) % group_order(),
{
    let x = G1Affine::deserialize_uncompressed_unchecked(&a.bytes[..]).unwrap();
    let mut out = Vec::new();
    (-G1Projective::from(x)).serialize_uncompressed(&mut out).unwrap();
    G1 { bytes: out.try_into().unwrap() }
}

/// `G1Projective * Fr`: scalar multiplication, which multiplies the logarithm by the scalar.
#[verifier::external_body]
fn g1_mul(a: &G1, s: &Scalar) -> (res: G1)
    requires
        0 <= g1_dlog(a.bytes@) < group_order(),
    ensures
        g1_dlog(res.bytes@) == (g1_dlog(a.bytes@) * s@) % group_order(),
{
    let x = G1Affine::deserialize_uncompressed_unchecked(&a.bytes[..]).unwrap();
    let mut out = Vec::new();
    (x * Fr::from_le_bytes_mod_order(&s.bytes)).serialize_uncompressed(&mut out).unwrap();
    G1 { bytes: out.try_into().unwrap() }
}

/// `G1Projective == G1Projective`: two elements are equal exactly when their logarithms are.
#[verifier::external_body]
fn g1_eq(a: &G1, b: &G1) -> (res: bool)
    requires
        0 <= g1_dlog(a.bytes@) < group_order(),
        0 <= g1_dlog(b.bytes@) < group_order(),
    ensures
        res == (g1_dlog(a.bytes@) == g1_dlog(b.bytes@)),
{
    let x = G1Affine::deserialize_uncompressed_unchecked(&a.bytes[..]).unwrap();
    let y = G1Affine::deserialize_uncompressed_unchecked(&b.bytes[..]).unwrap();
    G1Projective::from(x) == G1Projective::from(y)
}

/// `G2Projective::generator`: the fixed generator, whose logarithm is one.
#[verifier::external_body]
fn g2_generator() -> (res: G2)
    ensures
        g2_dlog(res.bytes@) == 1,
{
    let mut out = Vec::new();
    G2Projective::generator().serialize_uncompressed(&mut out).unwrap();
    G2 { bytes: out.try_into().unwrap() }
}

/// `G2Projective::zero`: the identity, whose logarithm is zero.
#[verifier::external_body]
fn g2_zero() -> (res: G2)
    ensures
        g2_dlog(res.bytes@) == 0,
{
    let mut out = Vec::new();
    G2Projective::zero().serialize_uncompressed(&mut out).unwrap();
    G2 { bytes: out.try_into().unwrap() }
}

/// `G2Projective::rand`: an element of the prime-order group drawn by `rng`; nothing is
/// stated of which one.
#[verifier::external_body]
fn g2_rand(rng: &mut StdRng) -> (res: G2)
    ensures
        0 <= g2_dlog(res.bytes@) < group_order(),
{
    let mut out = Vec::new();
    G2Projective::rand(rng).serialize_uncompressed(&mut out).unwrap();
    G2 { bytes: out.try_into().unwrap() }
}

/// `G2Projective + G2Projective`: the group law, which adds logarithms.
#[verifier::external_body]
fn g2_add(a: &G2, b: &G2) -> (res: G2)
    requires
        0 <= g2_dlog(a.bytes@) < group_order(),
        0 <= g2_dlog(b.bytes@) < group_order(),
    ensures
        g2_dlog(res.bytes@) == (g2_dlog(a.bytes@) + g2_dlog(b.bytes@)) % group_order(),
{
    let x = G2Affine::deserialize_uncompressed_unchecked(&a.bytes[..]).unwrap();
    let y = G2Affine::deserialize_uncompressed_unchecked(&b.bytes[..]).unwrap();
    let mut out = Vec::new();
    (G2Projective::from(x) + y).serialize_uncompressed(&mut out).unwrap();
    G2 { bytes: out.try_into().unwrap() }
}

/// `-G2Projective`: the group inverse, which negates the logarithm.
#[verifier::external_body]
fn g2_neg(a: &G2) -> (res: G2)
    requires
        0 <= g2_dlog(a.bytes@) < group_order(),
    ensures
        g2_dlog(res.bytes@) == (-g2_dlog(a.bytes@)) % group_order(),
{
    let x = G2Affine::deserialize_uncompressed_unchecked(&a.bytes[..]).unwrap();
    let mut out = Vec::new();
    (-G2Projective::from(x)).serialize_uncompressed(&mut out).unwrap();
    G2 { bytes: out.try_into().unwrap() }
}

/// `G2Projective * Fr`: scalar multiplication, which multiplies the logarithm by the scalar.
#[verifier::external_body]
fn g2_mul(a: &G2, s: &Scalar) -> (res: G2)
    requires
        0 <= g2_dlog(a.bytes@) < group_order(),
    ensures
        g2_dlog(res.bytes@) == (g2_dlog(a.bytes@) * s@) % group_order(),
{
    let x = G2Affine::deserialize_uncompressed_unchecked(&a.bytes[..]).unwrap();
    let mut out = Vec::new();
    (x * Fr::from_le_bytes_mod_order(&s.bytes)).serialize_uncompressed(&mut out).unwrap();
    G2 { bytes: out.try_into().unwrap() }
}

/// `G2Projective == G2Projective`: two elements are equal exactly when their logarithms are.
#[verifier::external_body]
fn g2_eq(a: &G2, b: &G2) -> (res: bool)
    requires
        0 <= g2_dlog(a.bytes@) < group_order(),
        0 <= g2_dlog(b.bytes@) < group_order(),
    ensures
        res == (g2_dlog(a.bytes@) == g2_dlog(b.bytes@)),
{
    let x = G2Affine::deserialize_uncompressed_unchecked(&a.bytes[..]).unwrap();
    let y = G2Affine::deserialize_uncompressed_unchecked(&b.bytes[..]).unwrap();
    G2Projective::from(x) == G2Projective::from(y)
}

/// `PairingOutput::zero`: the identity of the target group, whose logarithm is zero.
#[verifier::external_body]
fn gt_zero() -> (res: Gt)
    ensures
        gt_dlog(res.bytes@) == 0,
{
    let mut out = Vec::new();
    PairingOutput::<Bls12_381>::zero().serialize_uncompressed(&mut out).unwrap();
    Gt { bytes: out.try_into().unwrap() }
}

/// `PairingOutput + PairingOutput`: the target-group law, which adds logarithms.
#[verifier::external_body]
fn gt_add(a: &Gt, b: &Gt) -> (res: Gt)
    requires
        0 <= gt_dlog(a.bytes@) < group_order(),
        0 <= gt_dlog(b.bytes@) < group_order(),
    ensures
        gt_dlog(res.bytes@) == (gt_dlog(a.bytes@) + gt_dlog(b.bytes@)) % group_order(),
{
    let x = PairingOutput::<Bls12_381>::deserialize_uncompressed_unchecked(&a.bytes[..]).unwrap();
    let y = PairingOutput::<Bls12_381>::deserialize_uncompressed_unchecked(&b.bytes[..]).unwrap();
    let mut out = Vec::new();
    (x + y).serialize_uncompressed(&mut out).unwrap();
    Gt { bytes: out.try_into().unwrap() }
}

/// `PairingOutput == PairingOutput`: two elements are equal exactly when their
/// logarithms are.
#[verifier::external_body]
fn gt_eq(a: &Gt, b: &Gt) -> (res: bool)
    requires
        0 <= gt_dlog(a.bytes@) < group_order(),
        0 <= gt_dlog(b.bytes@) < group_order(),
    ensures
        res == (gt_dlog(a.bytes@) == gt_dlog(b.bytes@)),
{
    let x = PairingOutput::<Bls12_381>::deserialize_uncompressed_unchecked(&a.bytes[..]).unwrap();
    let y = PairingOutput::<Bls12_381>::deserialize_uncompressed_unchecked(&b.bytes[..]).unwrap();
    x == y
}

/// `Bls12_381::pairing`: bilinear, and sending the two generators to the
/// target-group generator, so the logarithm of `e(p, q)` is the product of the
/// logarithms of `p` and `q`.
#[verifier::external_body]
fn bls_pairing(p: &G1, q: &G2) -> (res: Gt)
    requires
        0 <= g1_dlog(p.bytes@) < group_order(),
        0 <= g2_dlog(q.bytes@) < group_order(),
    ensures
        gt_dlog(res.bytes@) == (g1_dlog(p.bytes@) * g2_dlog(q.bytes@)) % group_order(),
{
    let x = G1Affine::deserialize_uncompressed_unchecked(&p.bytes[..]).unwrap();
    let y = G2Affine::deserialize_uncompressed_unchecked(&q.bytes[..]).unwrap();
    let mut out = Vec::new();
    Bls12_381::pairing(x, y).serialize_uncompressed(&mut out).unwrap();
    Gt { bytes: out.try_into().unwrap() }
}

} // verus!
