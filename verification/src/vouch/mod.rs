//! Vouchable credentials: an issuer signs a user's key together with a
//! commitment to the user's attributes; the user vouches for a statement while
//! revealing some attributes, and can hide the vouch behind a Groth-Sahai proof.
pub mod credential;
pub mod params;
pub mod gs_proof;
pub mod vouch;
