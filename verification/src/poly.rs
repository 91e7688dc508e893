//! Dense univariate polynomials over the scalar field, lowest coefficient first.
use vstd::prelude::*;
use ark_bls12_381::Fr;
use ark_ff::{BigInteger, PrimeField};
use ark_poly::DenseUVPolynomial;
use crate::curve::{group_order, Scalar};
use crate::modular::{cong, lemma_cong_add, lemma_cong_mod, lemma_cong_mul};
use vstd::arithmetic::mul::lemma_mul_is_associative;

verus! {

/// The values of a sequence of scalars.
pub open spec fn values(s: Seq<Scalar>) -> Seq<int> {
    s.map_values(|c: Scalar| c@)
}

/// `s` without its trailing zeros.
pub open spec fn trim(s: Seq<int>) -> Seq<int>
    decreases s.len(),
{
    if s.len() > 0 && s.last() == 0 {
        trim(s.drop_last())
    } else {
        s
    }
}

/// `sum_{i < n} a[i] b[k - i]`, the terms whose index in `b` is in range.
pub open spec fn convolution(a: Seq<int>, b: Seq<int>, k: int, n: int) -> int
    decreases n,
{
    if n <= 0 {
        0
    } else {
        convolution(a, b, k, n - 1) + (if 0 <= k - (n - 1) < b.len() { a[n - 1] * b[k - (n - 1)] } else { 0 })
    }
}

/// The coefficients of the product of the polynomials with coefficients `a` and
/// `b`, reduced modulo the order and without trailing zeros.
pub open spec fn poly_mul(a: Seq<int>, b: Seq<int>) -> Seq<int> {
    if a.len() == 0 || b.len() == 0 {
        Seq::empty()
    } else {
        trim(Seq::new((a.len() + b.len() - 1) as nat, |k: int| convolution(a, b, k, a.len() as int) % group_order()))
    }
}

/// The coefficients of `prod (X - roots[i])`, multiplied in order starting from
/// the constant polynomial one.
pub open spec fn from_roots(roots: Seq<int>) -> Seq<int>
    decreases roots.len(),
{
    if roots.len() == 0 {
        seq![1]
    } else {
        poly_mul(from_roots(roots.drop_last()), seq![(-roots.last()) % group_order(), 1])
    }
}

/// Removing trailing zeros never lengthens.
pub proof fn lemma_trim_len(s: Seq<int>)
    ensures
        trim(s).len() <= s.len(),
    decreases s.len(),
{
    if s.len() > 0 && s.last() == 0 {
        lemma_trim_len(s.drop_last());
    }
}

/// A product has at most as many coefficients as its factors together, less one.
pub proof fn lemma_poly_mul_len(a: Seq<int>, b: Seq<int>)
    ensures
        poly_mul(a, b).len() <= a.len() + b.len() - 1 || poly_mul(a, b).len() == 0,
{
    if a.len() > 0 && b.len() > 0 {
        lemma_trim_len(Seq::new((a.len() + b.len() - 1) as nat, |k: int| convolution(a, b, k, a.len() as int) % group_order()));
    }
}

/// The product of `n` linear factors has at most `n + 1` coefficients.
pub proof fn lemma_from_roots_len(roots: Seq<int>)
    ensures
        from_roots(roots).len() <= roots.len() + 1,
    decreases roots.len(),
{
    if roots.len() > 0 {
        lemma_from_roots_len(roots.drop_last());
        lemma_poly_mul_len(from_roots(roots.drop_last()), seq![(-roots.last()) % group_order(), 1]);
    }
}

/// `x^i`.
pub open spec fn power(x: int, i: nat) -> int
    decreases i,
{
    if i == 0 {
        1
    } else {
        power(x, (i - 1) as nat) * x
    }
}

/// `sum_{i < n} c[i] x^i`, unreduced.
pub open spec fn eval_prefix(c: Seq<int>, x: int, n: int) -> int
    decreases n,
{
    if n <= 0 {
        0
    } else {
        eval_prefix(c, x, n - 1) + c[n - 1] * power(x, (n - 1) as nat)
    }
}

/// The value at `x` of the polynomial with coefficients `c`, unreduced.
pub open spec fn eval(c: Seq<int>, x: int) -> int {
    eval_prefix(c, x, c.len() as int)
}

/// `prod (x - roots[i])`, unreduced.
pub open spec fn root_product(roots: Seq<int>, x: int) -> int
    decreases roots.len(),
{
    if roots.len() == 0 {
        1
    } else {
        root_product(roots.drop_last(), x) * (x - roots.last())
    }
}

/// `sum_{k < m} convolution(a, b, k, n) x^k`, unreduced.
spec fn conv_eval(a: Seq<int>, b: Seq<int>, x: int, m: int, n: int) -> int
    decreases m,
{
    if m <= 0 {
        0
    } else {
        conv_eval(a, b, x, m - 1, n) + convolution(a, b, m - 1, n) * power(x, (m - 1) as nat)
    }
}

/// The coefficient `b[k - d]` of `X^d b(X)`, zero out of range.
spec fn shifted(b: Seq<int>, d: int, k: int) -> int {
    if 0 <= k - d < b.len() {
        b[k - d]
    } else {
        0
    }
}

/// `sum_{k < m} shifted(b, d, k) x^k`, unreduced.
spec fn shifted_eval(b: Seq<int>, x: int, d: int, m: int) -> int
    decreases m,
{
    if m <= 0 {
        0
    } else {
        shifted_eval(b, x, d, m - 1) + shifted(b, d, m - 1) * power(x, (m - 1) as nat)
    }
}

proof fn lemma_power_adds(x: int, m: nat, j: nat)
    ensures
        power(x, m + j) == power(x, m) * power(x, j),
    decreases j,
{
    if j > 0 {
        lemma_power_adds(x, m, (j - 1) as nat);
        assert(power(x, m + j) == power(x, (m + j - 1) as nat) * x);
        lemma_mul_is_associative(power(x, m), power(x, (j - 1) as nat), x);
    }
}

proof fn lemma_eval_prefix_agree(s1: Seq<int>, s2: Seq<int>, x: int, n: int)
    requires
        forall|i: int| 0 <= i < n ==> s1[i] == s2[i],
    ensures
        eval_prefix(s1, x, n) == eval_prefix(s2, x, n),
    decreases n,
{
    if n > 0 {
        lemma_eval_prefix_agree(s1, s2, x, n - 1);
    }
}

/// Trailing zeros do not change the value.
proof fn lemma_eval_trim(s: Seq<int>, x: int)
    ensures
        eval(trim(s), x) == eval(s, x),
    decreases s.len(),
{
    if s.len() > 0 && s.last() == 0 {
        lemma_eval_prefix_agree(s, s.drop_last(), x, s.len() - 1);
        lemma_eval_trim(s.drop_last(), x);
    }
}

proof fn lemma_regroup_split(c: int, a: int, bb: int, p: int, s: int)
    ensures
        (c + a * bb) * p + a * s == c * p + a * (s + bb * p),
{
    assert((c + a * bb) * p + a * s == c * p + a * (s + bb * p)) by (nonlinear_arith);
}

proof fn lemma_regroup_shift(pd: int, e: int, bj: int, pj: int)
    ensures
        pd * e + bj * (pd * pj) == pd * (e + bj * pj),
{
    assert(pd * e + bj * (pd * pj) == pd * (e + bj * pj)) by (nonlinear_arith);
}

proof fn lemma_regroup_product(e: int, a: int, p: int, eb: int)
    ensures
        e * eb + a * (p * eb) == (e + a * p) * eb,
{
    assert(e * eb + a * (p * eb) == (e + a * p) * eb) by (nonlinear_arith);
}

/// Peeling off the last term of `a` from every convolution.
proof fn lemma_conv_eval_split(a: Seq<int>, b: Seq<int>, x: int, m: int, n: int)
    requires
        n >= 1,
    ensures
        conv_eval(a, b, x, m, n) == conv_eval(a, b, x, m, n - 1) + a[n - 1] * shifted_eval(b, x, n - 1, m),
    decreases m,
{
    if m > 0 {
        lemma_conv_eval_split(a, b, x, m - 1, n);
        let p = power(x, (m - 1) as nat);
        let bb = shifted(b, n - 1, m - 1);
        assert(convolution(a, b, m - 1, n) == convolution(a, b, m - 1, n - 1) + a[n - 1] * bb);
        lemma_regroup_split(convolution(a, b, m - 1, n - 1), a[n - 1], bb, p, shifted_eval(b, x, n - 1, m - 1));
    }
}

/// The value of `X^d b(X)` truncated below `X^m`.
proof fn lemma_shifted_eval(b: Seq<int>, x: int, d: int, m: int)
    requires
        d >= 0,
    ensures
        shifted_eval(b, x, d, m) == power(x, d as nat) * eval_prefix(
            b,
            x,
            if m - d < 0 { 0 } else if m - d > b.len() { b.len() as int } else { m - d },
        ),
    decreases m,
{
    let pd = power(x, d as nat);
    if m <= 0 {
        assert(pd * 0 == 0);
    } else {
        lemma_shifted_eval(b, x, d, m - 1);
        let j = m - 1 - d;
        if 0 <= j < b.len() {
            lemma_power_adds(x, d as nat, j as nat);
            assert((d + j) as nat == (m - 1) as nat);
            lemma_regroup_shift(pd, eval_prefix(b, x, j), b[j], power(x, j as nat));
        } else {
            assert(shifted(b, d, m - 1) == 0);
        }
    }
}

proof fn lemma_conv_eval_zero(a: Seq<int>, b: Seq<int>, x: int, m: int)
    ensures
        conv_eval(a, b, x, m, 0) == 0,
    decreases m,
{
    if m > 0 {
        lemma_conv_eval_zero(a, b, x, m - 1);
    }
}

/// Summing the convolutions of the first `n` coefficients of `a` with `b`
/// over all degrees gives `a_n(x) b(x)`.
proof fn lemma_conv_eval_product(a: Seq<int>, b: Seq<int>, x: int, m: int, n: int)
    requires
        0 <= n <= a.len(),
        m >= n - 1 + b.len(),
    ensures
        conv_eval(a, b, x, m, n) == eval_prefix(a, x, n) * eval(b, x),
    decreases n,
{
    if n == 0 {
        lemma_conv_eval_zero(a, b, x, m);
        assert(0 * eval(b, x) == 0);
    } else {
        lemma_conv_eval_split(a, b, x, m, n);
        lemma_conv_eval_product(a, b, x, m, n - 1);
        lemma_shifted_eval(b, x, n - 1, m);
        lemma_regroup_product(eval_prefix(a, x, n - 1), a[n - 1], power(x, (n - 1) as nat), eval(b, x));
    }
}

/// Reducing each coefficient modulo the order keeps the value's residue.
proof fn lemma_conv_eval_reduced(a: Seq<int>, b: Seq<int>, x: int, s: Seq<int>, m: int)
    requires
        0 <= m <= s.len(),
        forall|k: int| 0 <= k < s.len() ==> s[k] == convolution(a, b, k, a.len() as int) % group_order(),
    ensures
        cong(eval_prefix(s, x, m), conv_eval(a, b, x, m, a.len() as int)),
    decreases m,
{
    if m > 0 {
        lemma_conv_eval_reduced(a, b, x, s, m - 1);
        let p = power(x, (m - 1) as nat);
        let c = convolution(a, b, m - 1, a.len() as int);
        lemma_cong_mod(c);
        lemma_cong_mul(s[m - 1], p, c, p);
        lemma_cong_add(eval_prefix(s, x, m - 1), s[m - 1] * p, conv_eval(a, b, x, m - 1, a.len() as int), c * p);
    }
}

/// Evaluation is multiplicative: at every point, the value of a product is
/// congruent to the product of the values.
pub proof fn lemma_eval_poly_mul(a: Seq<int>, b: Seq<int>, x: int)
    ensures
        cong(eval(poly_mul(a, b), x), eval(a, x) * eval(b, x)),
{
    if a.len() == 0 || b.len() == 0 {
        assert(eval(poly_mul(a, b), x) == 0);
        assert(eval(a, x) * eval(b, x) == 0) by (nonlinear_arith)
            requires
                eval(a, x) == 0 || eval(b, x) == 0,
        ;
    } else {
        let n = a.len() + b.len() - 1;
        let s = Seq::new(n as nat, |k: int| convolution(a, b, k, a.len() as int) % group_order());
        lemma_eval_trim(s, x);
        lemma_conv_eval_reduced(a, b, x, s, n);
        lemma_conv_eval_product(a, b, x, n, a.len() as int);
    }
}

/// The polynomial built from its roots takes, at every point, the product of
/// the differences to the roots, up to the order.
pub proof fn lemma_eval_from_roots(roots: Seq<int>, x: int)
    ensures
        cong(eval(from_roots(roots), x), root_product(roots, x)),
    decreases roots.len(),
{
    assert(power(x, 0) == 1);
    assert(power(x, 1) == x);
    if roots.len() == 0 {
        let one = seq![1int];
        assert(eval_prefix(one, x, 0) == 0);
        assert(one[0] == 1);
        assert(eval_prefix(one, x, 1) == 1);
    } else {
        let prev = from_roots(roots.drop_last());
        let c0 = (-roots.last()) % group_order();
        let factor = seq![c0, 1];
        lemma_eval_from_roots(roots.drop_last(), x);
        lemma_eval_poly_mul(prev, factor, x);
        assert(eval_prefix(factor, x, 0) == 0);
        assert(factor[0] == c0 && factor[1] == 1);
        assert(eval_prefix(factor, x, 1) == c0 * 1);
        assert(eval(factor, x) == c0 + x);
        lemma_cong_mod(-roots.last());
        lemma_cong_add((-roots.last()) % group_order(), x, -roots.last(), x);
        lemma_cong_mul(eval(prev, x), eval(factor, x), root_product(roots.drop_last(), x), x - roots.last());
    }
}

/// The coefficient of `X^k` in `s`, zero out of range.
pub open spec fn coef(s: Seq<int>, k: int) -> int {
    if 0 <= k < s.len() {
        s[k]
    } else {
        0
    }
}

/// `s` has no trailing zero.
pub open spec fn is_trimmed(s: Seq<int>) -> bool {
    s.len() == 0 || s.last() != 0
}

/// Every coefficient of `s` is reduced modulo the order.
pub open spec fn is_reduced(s: Seq<int>) -> bool {
    forall|k: int| 0 <= k < s.len() ==> 0 <= #[trigger] s[k] < group_order()
}

/// Removing trailing zeros changes no coefficient and leaves none.
proof fn lemma_trim_coef(s: Seq<int>)
    ensures
        forall|k: int| coef(trim(s), k) == #[trigger] coef(s, k),
        is_trimmed(trim(s)),
    decreases s.len(),
{
    if s.len() > 0 && s.last() == 0 {
        lemma_trim_coef(s.drop_last());
        assert forall|k: int| coef(trim(s), k) == #[trigger] coef(s, k) by {
            assert(coef(trim(s.drop_last()), k) == coef(s.drop_last(), k));
        }
    }
}

/// Convolving with a second factor that is zero at every index reached gives zero.
proof fn lemma_convolution_out_of_range(a: Seq<int>, b: Seq<int>, k: int, n: int)
    requires
        b.len() == 0 || k < 0 || k >= n - 1 + b.len(),
    ensures
        convolution(a, b, k, n) == 0,
    decreases n,
{
    if n > 0 {
        lemma_convolution_out_of_range(a, b, k, n - 1);
    }
}

/// Every coefficient of a product is its convolution, reduced.
proof fn lemma_poly_mul_coef(a: Seq<int>, b: Seq<int>, k: int)
    ensures
        coef(poly_mul(a, b), k) == convolution(a, b, k, a.len() as int) % group_order(),
{
    if a.len() == 0 {
        assert(convolution(a, b, k, 0) == 0);
    } else if b.len() == 0 {
        lemma_convolution_out_of_range(a, b, k, a.len() as int);
    } else {
        let n = a.len() + b.len() - 1;
        let full = Seq::new(n as nat, |j: int| convolution(a, b, j, a.len() as int) % group_order());
        lemma_trim_coef(full);
        assert(coef(trim(full), k) == coef(full, k));
        if !(0 <= k < n) {
            lemma_convolution_out_of_range(a, b, k, a.len() as int);
        }
    }
}

/// A product has no trailing zero and reduced coefficients.
proof fn lemma_poly_mul_canonical(a: Seq<int>, b: Seq<int>)
    ensures
        is_trimmed(poly_mul(a, b)),
        is_reduced(poly_mul(a, b)),
{
    if a.len() > 0 && b.len() > 0 {
        let n = a.len() + b.len() - 1;
        let full = Seq::new(n as nat, |j: int| convolution(a, b, j, a.len() as int) % group_order());
        lemma_trim_coef(full);
        lemma_trim_len(full);
        assert forall|k: int| 0 <= k < trim(full).len() implies 0 <= #[trigger] trim(full)[k] < group_order() by {
            assert(coef(trim(full), k) == coef(full, k));
        }
    }
}

/// Two sequences without trailing zeros and with the same coefficients are equal.
proof fn lemma_coef_equal(s1: Seq<int>, s2: Seq<int>)
    requires
        is_trimmed(s1),
        is_trimmed(s2),
        forall|k: int| #[trigger] coef(s1, k) == coef(s2, k),
    ensures
        s1 == s2,
{
    if s1.len() < s2.len() {
        assert(coef(s2, s2.len() - 1) == coef(s1, s2.len() - 1));
    } else if s2.len() < s1.len() {
        assert(coef(s1, s1.len() - 1) == coef(s2, s1.len() - 1));
    }
    assert forall|k: int| 0 <= k < s1.len() implies s1[k] == s2[k] by {
        assert(coef(s1, k) == coef(s2, k));
    }
    assert(s1 =~= s2);
}

/// Convolving with the linear factor `c + X` over the first `n` coefficients.
proof fn lemma_convolution_linear(b: Seq<int>, c: int, j: int, n: int)
    requires
        n <= b.len(),
    ensures
        convolution(b, seq![c, 1], j, n) == (if 0 <= j < n { b[j] * c } else { 0 }) + (if 0 <= j - 1 < n {
            b[j - 1]
        } else {
            0
        }),
    decreases n,
{
    if n > 0 {
        lemma_convolution_linear(b, c, j, n - 1);
        let lin = seq![c, 1];
        assert(lin.len() == 2 && lin[0] == c && lin[1] == 1);
        if j == n - 1 {
            assert(convolution(b, lin, j, n) == convolution(b, lin, j, n - 1) + b[n - 1] * c);
        } else if j == n {
            assert(convolution(b, lin, j, n) == convolution(b, lin, j, n - 1) + b[n - 1] * 1);
        } else {
            assert(convolution(b, lin, j, n) == convolution(b, lin, j, n - 1));
        }
    }
}

/// Convolving with the constant one over the first `n` coefficients.
proof fn lemma_convolution_one(f: Seq<int>, k: int, n: int)
    requires
        n <= f.len(),
    ensures
        convolution(f, seq![1int], k, n) == (if 0 <= k < n { f[k] } else { 0 }),
    decreases n,
{
    if n > 0 {
        lemma_convolution_one(f, k, n - 1);
    }
}

proof fn lemma_regroup_assoc(c: int, pa: int, pb: int, a: int, bj: int, bj1: int)
    ensures
        c * (pa + a * bj) + (pb + a * bj1) == c * pa + pb + a * (bj * c + bj1),
{
    assert(c * (pa + a * bj) + (pb + a * bj1) == c * pa + pb + a * (bj * c + bj1)) by (nonlinear_arith);
}

/// Convolving with `b (c + X)` is, up to the order, `c` times convolving with
/// `b` plus convolving with `b` one degree lower.
proof fn lemma_convolution_assoc_linear(a: Seq<int>, b: Seq<int>, c: int, k: int, n: int)
    requires
        0 <= n <= a.len(),
    ensures
        cong(
            convolution(a, poly_mul(b, seq![c, 1]), k, n),
            c * convolution(a, b, k, n) + convolution(a, b, k - 1, n),
        ),
    decreases n,
{
    if n > 0 {
        lemma_convolution_assoc_linear(a, b, c, k, n - 1);
        let j = k - (n - 1);
        let bl = poly_mul(b, seq![c, 1]);
        lemma_poly_mul_coef(b, seq![c, 1], j);
        lemma_convolution_linear(b, c, j, b.len() as int);
        let x = coef(b, j) * c + coef(b, j - 1);
        assert(coef(bl, j) == x % group_order());
        lemma_cong_mod(x);
        lemma_cong_mul(a[n - 1], coef(bl, j), a[n - 1], x);
        lemma_cong_add(
            convolution(a, bl, k, n - 1),
            a[n - 1] * coef(bl, j),
            c * convolution(a, b, k, n - 1) + convolution(a, b, k - 1, n - 1),
            a[n - 1] * x,
        );
        lemma_regroup_assoc(
            c,
            convolution(a, b, k, n - 1),
            convolution(a, b, k - 1, n - 1),
            a[n - 1],
            coef(b, j),
            coef(b, j - 1),
        );
    }
}

/// Multiplying by a linear factor associates: `(a b)(c + X) = a (b (c + X))`.
proof fn lemma_poly_mul_assoc_linear(a: Seq<int>, b: Seq<int>, c: int)
    ensures
        poly_mul(poly_mul(a, b), seq![c, 1]) == poly_mul(a, poly_mul(b, seq![c, 1])),
{
    let ab = poly_mul(a, b);
    let lhs = poly_mul(ab, seq![c, 1]);
    let rhs = poly_mul(a, poly_mul(b, seq![c, 1]));
    lemma_poly_mul_canonical(ab, seq![c, 1]);
    lemma_poly_mul_canonical(a, poly_mul(b, seq![c, 1]));
    assert forall|k: int| #[trigger] coef(lhs, k) == coef(rhs, k) by {
        lemma_poly_mul_coef(ab, seq![c, 1], k);
        lemma_convolution_linear(ab, c, k, ab.len() as int);
        lemma_poly_mul_coef(a, b, k);
        lemma_poly_mul_coef(a, b, k - 1);
        let p = convolution(a, b, k, a.len() as int);
        let q = convolution(a, b, k - 1, a.len() as int);
        assert(coef(lhs, k) == (coef(ab, k) * c + coef(ab, k - 1)) % group_order());
        lemma_cong_mod(p);
        lemma_cong_mod(q);
        lemma_cong_mul(coef(ab, k), c, p, c);
        lemma_cong_add(coef(ab, k) * c, coef(ab, k - 1), p * c, q);
        lemma_cong_mod(coef(ab, k) * c + coef(ab, k - 1));
        lemma_poly_mul_coef(a, poly_mul(b, seq![c, 1]), k);
        lemma_convolution_assoc_linear(a, b, c, k, a.len() as int);
        lemma_cong_mod(convolution(a, poly_mul(b, seq![c, 1]), k, a.len() as int));
        assert(c * p == p * c) by (nonlinear_arith);
        crate::modular::lemma_cong_residues(coef(lhs, k), coef(rhs, k));
    }
    lemma_coef_equal(lhs, rhs);
}

/// Built from roots, a polynomial has no trailing zero and reduced coefficients.
proof fn lemma_from_roots_canonical(roots: Seq<int>)
    ensures
        is_trimmed(from_roots(roots)),
        is_reduced(from_roots(roots)),
    decreases roots.len(),
{
    if roots.len() > 0 {
        lemma_poly_mul_canonical(from_roots(roots.drop_last()), seq![(-roots.last()) % group_order(), 1]);
    }
}

/// The polynomial of a concatenation of roots is the product of the
/// polynomials of the two parts.
pub proof fn lemma_from_roots_concat_coeffs(a: Seq<int>, b: Seq<int>)
    ensures
        from_roots(a + b) == poly_mul(from_roots(a), from_roots(b)),
    decreases b.len(),
{
    let fa = from_roots(a);
    if b.len() == 0 {
        assert(a + b =~= a);
        lemma_from_roots_canonical(a);
        lemma_poly_mul_canonical(fa, seq![1int]);
        assert forall|k: int| #[trigger] coef(poly_mul(fa, seq![1int]), k) == coef(fa, k) by {
            lemma_poly_mul_coef(fa, seq![1int], k);
            lemma_convolution_one(fa, k, fa.len() as int);
            if 0 <= k < fa.len() {
                vstd::arithmetic::div_mod::lemma_small_mod(fa[k] as nat, group_order() as nat);
            }
        }
        lemma_coef_equal(poly_mul(fa, seq![1int]), fa);
    } else {
        let e = b.last();
        let lin = seq![(-e) % group_order(), 1];
        lemma_from_roots_concat_coeffs(a, b.drop_last());
        assert((a + b).drop_last() =~= a + b.drop_last());
        assert((a + b).last() == e);
        lemma_poly_mul_assoc_linear(fa, from_roots(b.drop_last()), (-e) % group_order());
    }
}

/// The coefficients of `f (c + X)`, unreduced, from those of `f`.
proof fn lemma_linear_coef(f: Seq<int>, c: int, k: int)
    ensures
        coef(poly_mul(f, seq![c, 1]), k) == (coef(f, k) * c + coef(f, k - 1)) % group_order(),
{
    lemma_poly_mul_coef(f, seq![c, 1], k);
    lemma_convolution_linear(f, c, k, f.len() as int);
}

proof fn lemma_regroup_swap(f0: int, f1: int, f2: int, c1: int, c2: int)
    ensures
        (f0 * c1 + f1) * c2 + (f1 * c1 + f2) == (f0 * c2 + f1) * c1 + (f1 * c2 + f2),
{
    assert((f0 * c1 + f1) * c2 + (f1 * c1 + f2) == (f0 * c2 + f1) * c1 + (f1 * c2 + f2)) by (nonlinear_arith);
}

/// Multiplying by two linear factors in either order gives the same product.
proof fn lemma_linear_factors_commute(f: Seq<int>, c1: int, c2: int)
    ensures
        poly_mul(poly_mul(f, seq![c1, 1]), seq![c2, 1]) == poly_mul(poly_mul(f, seq![c2, 1]), seq![c1, 1]),
{
    let f1 = poly_mul(f, seq![c1, 1]);
    let f2 = poly_mul(f, seq![c2, 1]);
    let lhs = poly_mul(f1, seq![c2, 1]);
    let rhs = poly_mul(f2, seq![c1, 1]);
    lemma_poly_mul_canonical(f1, seq![c2, 1]);
    lemma_poly_mul_canonical(f2, seq![c1, 1]);
    assert forall|k: int| #[trigger] coef(lhs, k) == coef(rhs, k) by {
        let (a0, a1, a2) = (coef(f, k), coef(f, k - 1), coef(f, k - 2));
        lemma_linear_coef(f1, c2, k);
        lemma_linear_coef(f2, c1, k);
        lemma_linear_coef(f, c1, k);
        lemma_linear_coef(f, c1, k - 1);
        lemma_linear_coef(f, c2, k);
        lemma_linear_coef(f, c2, k - 1);
        lemma_cong_mod(a0 * c1 + a1);
        lemma_cong_mod(a1 * c1 + a2);
        lemma_cong_mod(a0 * c2 + a1);
        lemma_cong_mod(a1 * c2 + a2);
        lemma_cong_mul(coef(f1, k), c2, a0 * c1 + a1, c2);
        lemma_cong_add(coef(f1, k) * c2, coef(f1, k - 1), (a0 * c1 + a1) * c2, a1 * c1 + a2);
        lemma_cong_mul(coef(f2, k), c1, a0 * c2 + a1, c1);
        lemma_cong_add(coef(f2, k) * c1, coef(f2, k - 1), (a0 * c2 + a1) * c1, a1 * c2 + a2);
        lemma_regroup_swap(a0, a1, a2, c1, c2);
        lemma_cong_mod(coef(f1, k) * c2 + coef(f1, k - 1));
        lemma_cong_mod(coef(f2, k) * c1 + coef(f2, k - 1));
        crate::modular::lemma_cong_residues(coef(lhs, k), coef(rhs, k));
    }
    lemma_coef_equal(lhs, rhs);
}

/// Adding one root at the end multiplies by its linear factor.
proof fn lemma_from_roots_push(r: Seq<int>, x: int)
    ensures
        from_roots(r.push(x)) == poly_mul(from_roots(r), seq![(-x) % group_order(), 1]),
{
    assert(r.push(x).drop_last() =~= r);
}

/// Moving one root to the end does not change the polynomial.
pub(crate) proof fn lemma_from_roots_move_last(s: Seq<int>, j: int)
    requires
        0 <= j < s.len(),
    ensures
        from_roots(s) == from_roots(s.remove(j).push(s[j])),
    decreases s.len(),
{
    if j == s.len() - 1 {
        assert(s.remove(j).push(s[j]) =~= s);
    } else {
        let t = s.drop_last();
        let l = s.last();
        let u = t.remove(j);
        assert(t.push(l) =~= s);
        lemma_from_roots_move_last(t, j);
        lemma_from_roots_push(t, l);
        lemma_from_roots_push(u.push(s[j]), l);
        lemma_from_roots_push(u, s[j]);
        lemma_from_roots_push(u.push(l), s[j]);
        lemma_from_roots_push(u, l);
        lemma_linear_factors_commute(from_roots(u), (-s[j]) % group_order(), (-l) % group_order());
        assert(u.push(l) =~= s.remove(j));
    }
}

/// A polynomial given by its coefficients, lowest degree first.
#[derive(Clone, Debug)]
pub struct DensePolynomial {
    pub coeffs: Vec<Scalar>,
}

impl DensePolynomial {
    /// The values of the coefficients.
    pub open spec fn spec_coeffs(&self) -> Seq<int> {
        values(self.coeffs@)
    }

    /// The polynomial with coefficients `coeffs`, trailing zeros removed.
    pub fn from_coefficients_vec(coeffs: Vec<Scalar>) -> (res: DensePolynomial)
        ensures
            res.spec_coeffs() == trim(values(coeffs@)),
    {
        let mut coeffs = coeffs;
        let ghost original = values(coeffs@);
        while coeffs.len() > 0 && coeffs[coeffs.len() - 1].is_zero()
            invariant
                trim(values(coeffs@)) == trim(original),
            decreases coeffs.len(),
        {
            let ghost before = values(coeffs@);
            coeffs.pop();
            assert(values(coeffs@) =~= before.drop_last());
        }
        DensePolynomial { coeffs }
    }

    /// Whether this is the zero polynomial: every coefficient is zero.
    pub fn is_zero(&self) -> (res: bool)
        ensures
            res == (trim(self.spec_coeffs()).len() == 0),
    {
        let mut i = self.coeffs.len();
        assert(self.spec_coeffs().take(i as int) =~= self.spec_coeffs());
        while i > 0 && self.coeffs[i - 1].is_zero()
            invariant
                i <= self.coeffs.len(),
                trim(self.spec_coeffs()) == trim(self.spec_coeffs().take(i as int)),
            decreases i,
        {
            assert(self.spec_coeffs().take(i - 1) =~= self.spec_coeffs().take(i as int).drop_last());
            i = i - 1;
        }
        i == 0
    }

    /// The product of two polynomials.
    pub fn mul(&self, other: &DensePolynomial) -> (res: DensePolynomial)
        requires
            self.coeffs.len() + other.coeffs.len() <= 0x1_0000_0000,
        ensures
            res.spec_coeffs() == poly_mul(self.spec_coeffs(), other.spec_coeffs()),
    {
        dense_poly_mul(self, other)
    }
}

/// `&DensePolynomial * &DensePolynomial` of `ark_poly`: the product, computed
/// over an evaluation domain of the product's size, with trailing zeros
/// removed. The bound on the sizes keeps that domain radix-2 (at most 2^32
/// points, the 2-adicity of the scalar field); larger products would need the
/// mixed-radix domain, which this contract does not rely on.
#[verifier::external_body]
fn dense_poly_mul(a: &DensePolynomial, b: &DensePolynomial) -> (res: DensePolynomial)
    requires
        a.coeffs.len() + b.coeffs.len() <= 0x1_0000_0000,
    ensures
        values(res.coeffs@) == poly_mul(values(a.coeffs@), values(b.coeffs@)),
{
    let to_ark = |p: &DensePolynomial| ark_poly::univariate::DensePolynomial::from_coefficients_vec(
        p.coeffs.iter().map(|c| Fr::from_le_bytes_mod_order(&c.bytes)).collect());
    let prod = &to_ark(a) * &to_ark(b);
    let coeffs = prod.coeffs.iter().map(|f| Scalar { bytes: f.into_bigint().to_bytes_le().try_into().unwrap() });
    DensePolynomial { coeffs: coeffs.collect() }
}

} // verus!
