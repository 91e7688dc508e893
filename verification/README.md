# fp_blackbox

Pairing-based building blocks for first-person credentials over BLS12-381,
written in Verus and verified against their contracts:

- `curve`: the scalar field, G1, G2 and the target group, each element viewed
  through its discrete logarithm; the arkworks operations are the trusted base.
- `modular`: congruence modulo the group order, the arithmetic the contracts use.
- `gro15`: Groth15 structure-preserving signatures (standard and flipped) and
  Schnorr proofs of knowledge of the flipped secret key.
- `gs08`: Groth-Sahai SXDH commitments and proofs of pairing product equations.
- `poly`: dense polynomials, their product (computed by arkworks) and evaluation.
- `vouch`: vouchable credentials: public parameters with a KZG reference string,
  issuance, vouching, verification, and the Groth-Sahai proof of a vouch.

The main laws proved are the completeness of each scheme: signatures,
knowledge proofs, Groth-Sahai proofs and vouches verify when made honestly,
KZG commitments evaluate their polynomial at the trapdoor, and an opening
`f = s q` passes the pairing check. Honestly made Groth-Sahai proofs verify
exactly when their witnesses satisfy the equations; a signature verifies for one
message pair and a vouch for one statement; the attribute polynomial is
multiplicative over concatenation and does not depend on the attributes' order.

`tests/` holds the test suite; run it with the crate's usual test command.
