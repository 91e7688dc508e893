//! Congruence modulo the group order, the arithmetic that every contract on
//! discrete logarithms reduces to.
use vstd::prelude::*;
use vstd::arithmetic::div_mod::{
    lemma_add_mod_noop, lemma_mod_twice, lemma_mul_mod_noop, lemma_small_mod, lemma_sub_mod_noop,
};
use crate::curve::group_order;

verus! {

/// `a` and `b` are congruent modulo the group order.
pub open spec fn cong(a: int, b: int) -> bool {
    a % group_order() == b % group_order()
}

/// The logarithm of `e(p, q)` for elements of logarithms `p` and `q`.
pub open spec fn pair(p: int, q: int) -> int {
    (p * q) % group_order()
}

/// Addition in the exponent.
pub open spec fn plus(a: int, b: int) -> int {
    (a + b) % group_order()
}

/// Multiplication in the exponent.
pub open spec fn times(a: int, b: int) -> int {
    (a * b) % group_order()
}

/// Negation in the exponent.
pub open spec fn minus(a: int) -> int {
    (-a) % group_order()
}

/// Reducing modulo the order keeps the residue and lands in range.
pub proof fn lemma_cong_mod(a: int)
    ensures
        cong(a % group_order(), a),
        0 <= a % group_order() < group_order(),
{
    lemma_mod_twice(a, group_order());
}

/// Congruence respects addition.
pub proof fn lemma_cong_add(a: int, b: int, c: int, d: int)
    requires
        cong(a, c),
        cong(b, d),
    ensures
        cong(a + b, c + d),
{
    lemma_add_mod_noop(a, b, group_order());
    lemma_add_mod_noop(c, d, group_order());
}

/// Congruence respects subtraction.
pub proof fn lemma_cong_sub(a: int, b: int, c: int, d: int)
    requires
        cong(a, c),
        cong(b, d),
    ensures
        cong(a - b, c - d),
{
    lemma_sub_mod_noop(a, b, group_order());
    lemma_sub_mod_noop(c, d, group_order());
}

/// Congruence respects multiplication.
pub proof fn lemma_cong_mul(a: int, b: int, c: int, d: int)
    requires
        cong(a, c),
        cong(b, d),
    ensures
        cong(a * b, c * d),
{
    lemma_mul_mod_noop(a, b, group_order());
    lemma_mul_mod_noop(c, d, group_order());
}

/// Two residues that are congruent are equal.
pub proof fn lemma_cong_residues(a: int, b: int)
    requires
        0 <= a < group_order(),
        0 <= b < group_order(),
        cong(a, b),
    ensures
        a == b,
{
    lemma_small_mod(a as nat, group_order() as nat);
    lemma_small_mod(b as nat, group_order() as nat);
}

/// The pairing equation that a Groth15 signature component satisfies: if
/// `s^r = a + b` in the exponent and `g b = c d`, then
/// `e(g^r, s) = e(g, a) e(c, d)`.
pub proof fn lemma_pair_of_unscaled(g: int, r: int, s: int, a: int, b: int, c: int, d: int)
    requires
        times(s, r) == plus(a, b),
        cong(g * b, c * d),
    ensures
        pair(times(g, r), s) == plus(pair(g, a), pair(c, d)),
{
    lemma_cong_mod(g * r);
    lemma_cong_mul(times(g, r), s, g * r, s);
    lemma_cong_mod(s * r);
    lemma_cong_mod(a + b);
    lemma_cong_mul(g, s * r, g, a + b);
    assert(g * r * s == g * (s * r)) by (nonlinear_arith);
    assert(g * (a + b) == g * a + g * b) by (nonlinear_arith);
    lemma_cong_add(g * a, g * b, g * a, c * d);
    lemma_cong_mod(g * a);
    lemma_cong_mod(c * d);
    lemma_cong_add(pair(g, a), pair(c, d), g * a, c * d);
    lemma_cong_mod(pair(g, a) + pair(c, d));
    lemma_cong_mod(times(g, r) * s);
    lemma_cong_residues(pair(times(g, r), s), plus(pair(g, a), pair(c, d)));
}

/// `g (h^v) = (g^v) h` in the exponent.
pub proof fn lemma_exponent_swap(g: int, h: int, v: int)
    ensures
        cong(g * times(h, v), times(g, v) * h),
        cong(g * times(h, v), h * times(g, v)),
{
    lemma_cong_mod(h * v);
    lemma_cong_mod(g * v);
    lemma_cong_mul(g, times(h, v), g, h * v);
    lemma_cong_mul(times(g, v), h, g * v, h);
    assert(g * (h * v) == g * v * h) by (nonlinear_arith);
    assert(times(g, v) * h == h * times(g, v)) by (nonlinear_arith);
}

/// Adding in the exponent respects congruence.
pub proof fn lemma_plus_cong(x: int, y: int, xx: int, yy: int)
    requires
        cong(x, xx),
        cong(y, yy),
    ensures
        cong(plus(x, y), xx + yy),
{
    lemma_cong_mod(x + y);
    lemma_cong_add(x, y, xx, yy);
}

/// Multiplying in the exponent, or pairing, respects congruence.
pub proof fn lemma_times_cong(x: int, y: int, xx: int, yy: int)
    requires
        cong(x, xx),
        cong(y, yy),
    ensures
        cong(times(x, y), xx * yy),
        cong(pair(x, y), xx * yy),
{
    lemma_cong_mod(x * y);
    lemma_cong_mul(x, y, xx, yy);
}

/// Subtracting in the exponent respects congruence.
pub proof fn lemma_sub_cong(x: int, y: int, xx: int, yy: int)
    requires
        cong(x, xx),
        cong(y, yy),
    ensures
        cong((x - y) % group_order(), xx - yy),
{
    lemma_cong_mod(x - y);
    lemma_cong_sub(x, y, xx, yy);
}

/// `x^a y^b`, computed in the exponent, is congruent to `x a + y b`.
pub proof fn lemma_lincomb_cong(x: int, a: int, y: int, b: int, xx: int, aa: int, yy: int, bb: int)
    requires
        cong(x, xx),
        cong(a, aa),
        cong(y, yy),
        cong(b, bb),
    ensures
        cong(plus(times(x, a), times(y, b)), xx * aa + yy * bb),
{
    lemma_times_cong(x, a, xx, aa);
    lemma_times_cong(y, b, yy, bb);
    lemma_plus_cong(times(x, a), times(y, b), xx * aa, yy * bb);
}

/// The reduced sum of four terms is congruent to the sum of what they are
/// congruent to.
pub proof fn lemma_sum4_cong(p1: int, p2: int, p3: int, p4: int, q1: int, q2: int, q3: int, q4: int)
    requires
        cong(p1, q1),
        cong(p2, q2),
        cong(p3, q3),
        cong(p4, q4),
    ensures
        cong(plus(plus(plus(p1, p2), p3), p4), q1 + q2 + q3 + q4),
{
    lemma_plus_cong(p1, p2, q1, q2);
    lemma_plus_cong(plus(p1, p2), p3, q1 + q2, q3);
    lemma_plus_cong(plus(plus(p1, p2), p3), p4, q1 + q2 + q3, q4);
}

} // verus!
