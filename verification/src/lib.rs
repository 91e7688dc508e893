//! Pairing-based building blocks for first-person credentials over BLS12-381:
//! Groth15 signatures (standard and flipped), Groth-Sahai proofs of pairing
//! product equations, and vouchable credentials.
//!
//! Group elements are reasoned about through their discrete logarithms (see
//! `curve`), so every contract is a statement of arithmetic modulo the group
//! order.
pub mod curve;
pub mod modular;
pub mod gro15;
pub mod gs08;
pub mod poly;
pub mod vouch;
