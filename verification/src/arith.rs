//! Small arithmetic facts the geometry proofs lean on.

use vstd::arithmetic::mul::lemma_mul_is_associative;
use vstd::arithmetic::mul::lemma_mul_is_commutative;
use vstd::arithmetic::mul::lemma_mul_is_distributive_add;
use vstd::arithmetic::mul::lemma_mul_is_distributive_add_other_way;
use vstd::arithmetic::mul::lemma_mul_is_distributive_sub;
use vstd::arithmetic::mul::lemma_mul_is_distributive_sub_other_way;
use vstd::prelude::*;

verus! {

/// A product is bounded by the product of the factors' bounds.
pub proof fn lemma_mul_bound(a: int, b: int, m: int, n: int)
    by (nonlinear_arith)
    requires
        -m <= a <= m,
        -n <= b <= n,
        0 <= m,
        0 <= n,
    ensures
        -(m * n) <= a * b <= m * n,
{
}

/// A square is never negative.
pub proof fn lemma_square_nonneg(a: int)
    by (nonlinear_arith)
    ensures
        a * a >= 0,
{
}

/// Multiplying both sides of an inequality by a positive factor keeps it.
pub proof fn lemma_mul_le_mono(a: int, b: int, k: int)
    by (nonlinear_arith)
    requires
        a <= b,
        k > 0,
    ensures
        a * k <= b * k,
{
}

/// Multiplication commutes.
pub proof fn lemma_mul_comm_two(a: int, b: int)
    by (nonlinear_arith)
    ensures
        a * b == b * a,
{
}

/// Regrouping a product of four factors, pairing first with third.
pub proof fn lemma_mul_exchange(a: int, b: int, c: int, d: int)
    ensures
        (a * b) * (c * d) == (a * c) * (b * d),
{
    lemma_mul_is_associative(a, b, c * d);
    lemma_mul_is_associative(b, c, d);
    lemma_mul_is_commutative(b, c);
    lemma_mul_is_associative(c, b, d);
    lemma_mul_is_associative(a, c, b * d);
}

/// Regrouping a product of four factors, swapping the first factors.
pub proof fn lemma_mul_exchange_swap(a: int, b: int, c: int, d: int)
    ensures
        (a * b) * (c * d) == (c * b) * (a * d),
{
    lemma_mul_is_commutative(a, b);
    lemma_mul_exchange(b, a, c, d);
    lemma_mul_is_commutative(b, c);
}

/// Square of a sum.
pub proof fn lemma_sq_add(a: int, b: int)
    ensures
        (a + b) * (a + b) == a * a + 2 * (a * b) + b * b,
{
    lemma_mul_is_distributive_add_other_way(a + b, a, b);
    lemma_mul_is_distributive_add(a, a, b);
    lemma_mul_is_distributive_add(b, a, b);
    lemma_mul_is_commutative(b, a);
}

/// Square of a difference.
pub proof fn lemma_sq_sub(a: int, b: int)
    ensures
        (a - b) * (a - b) == a * a - 2 * (a * b) + b * b,
{
    lemma_mul_is_distributive_sub_other_way(a - b, a, b);
    lemma_mul_is_distributive_sub(a, a, b);
    lemma_mul_is_distributive_sub(b, a, b);
    lemma_mul_is_commutative(b, a);
}

/// Pulling a factor of two out of a triple product.
pub proof fn lemma_double_product(a: int, b: int, c: int)
    ensures
        ((2 * a) * b) * c == 2 * ((a * b) * c),
{
    lemma_mul_is_associative(2, a, b);
    lemma_mul_is_associative(2, a * b, c);
}

/// Transitivity for cross-multiplied fractions with positive
/// denominators: `n1/d1 < n2/d2` and `n2/d2 <= n3/d3` give
/// `n1/d1 < n3/d3`.
pub proof fn lemma_frac_lt_le_trans(n1: int, d1: int, n2: int, d2: int, n3: int, d3: int)
    by (nonlinear_arith)
    requires
        d1 > 0,
        d2 > 0,
        d3 > 0,
        n1 * d2 < n2 * d1,
        n2 * d3 <= n3 * d2,
    ensures
        n1 * d3 < n3 * d1,
{
}

/// The companion transitivity: `n1/d1 <= n2/d2` and `n2/d2 < n3/d3`
/// give `n1/d1 < n3/d3`.
pub proof fn lemma_frac_le_lt_trans(n1: int, d1: int, n2: int, d2: int, n3: int, d3: int)
    by (nonlinear_arith)
    requires
        d1 > 0,
        d2 > 0,
        d3 > 0,
        n1 * d2 <= n2 * d1,
        n2 * d3 < n3 * d2,
    ensures
        n1 * d3 < n3 * d1,
{
}

/// Difference of two squares sharing their first operand.
pub proof fn lemma_diff_sq(p: int, q: int, r: int)
    ensures
        (p - q) * (p - q) - (p - r) * (p - r) == (2 * p - q - r) * (r - q),
{
    lemma_sq_sub(p, q);
    lemma_sq_sub(p, r);
    lemma_mul_is_distributive_sub_other_way(r - q, 2 * p - q, r);
    lemma_mul_is_distributive_sub_other_way(r - q, 2 * p, q);
    lemma_mul_is_distributive_sub(2 * p, r, q);
    lemma_mul_is_distributive_sub(q, r, q);
    lemma_mul_is_distributive_sub(r, r, q);
    lemma_mul_is_associative(2, p, r);
    lemma_mul_is_associative(2, p, q);
    lemma_mul_is_commutative(q, r);
    lemma_mul_is_commutative(r, q);
}

/// The square of a nonzero number is strictly positive.
pub proof fn lemma_square_pos(a: int)
    by (nonlinear_arith)
    requires
        a != 0,
    ensures
        a * a > 0,
{
}

/// Cramer's rule, as a ring identity: the candidate solution of a 2x2
/// system satisfies the first equation, scaled by the determinant.
#[verifier::rlimit(50)]
pub proof fn lemma_cramer(a1: int, b1: int, c1: int, a2: int, b2: int, c2: int)
    by (nonlinear_arith)
    ensures
        a1 * (b2 * c1 - b1 * c2) + b1 * (a1 * c2 - a2 * c1) == c1 * (a1 * b2 - a2 * b1),
        a2 * (b2 * c1 - b1 * c2) + b2 * (a1 * c2 - a2 * c1) == c2 * (a1 * b2 - a2 * b1),
{
}

/// Negating a point and its denominator preserves a linear relation.
pub proof fn lemma_eq_neg(a: int, x: int, b: int, y: int, c: int, d: int)
    by (nonlinear_arith)
    requires
        a * x + b * y == c * d,
    ensures
        a * (-x) + b * (-y) == c * (-d),
{
}

/// Truncated (toward zero) division, matching machine division.
pub open spec fn tdiv(a: int, b: int) -> int {
    if a >= 0 {
        a / b
    } else {
        -((-a) / b)
    }
}

/// Truncated division of a value bounded by a multiple of the divisor
/// stays within the multiplier.
pub proof fn lemma_tdiv_bound(a: int, b: int, m: int)
    requires
        b > 0,
        m >= 0,
        -(m * b) <= a <= m * b,
    ensures
        -m <= tdiv(a, b) <= m,
{
    lemma_mul_is_commutative(m, b);
    vstd::arithmetic::div_mod::lemma_div_multiples_vanish(m, b);
    if a >= 0 {
        vstd::arithmetic::div_mod::lemma_div_is_ordered(a, m * b, b);
        vstd::arithmetic::div_mod::lemma_div_pos_is_pos(a, b);
    } else {
        vstd::arithmetic::div_mod::lemma_div_is_ordered(-a, m * b, b);
        vstd::arithmetic::div_mod::lemma_div_pos_is_pos(-a, b);
    }
}

/// Integer square root, rounded down: the unique `r >= 0` with
/// `r * r <= n < (r + 1) * (r + 1)`.
pub fn isqrt(n: i128) -> (r: i128)
    requires
        0 <= n < 0x4000_0000_0000_0000,  // 2^62
    ensures
        r >= 0,
        r * r <= n < (r + 1) * (r + 1),
        r < 0x8000_0000,  // 2^31
{
    let mut lo: i128 = 0;
    let mut hi: i128 = 0x8000_0000;  // 2^31, whose square exceeds n
    proof {
        assert((0x8000_0000 as int) * (0x8000_0000 as int) == 0x4000_0000_0000_0000)
            by (nonlinear_arith);
    }
    // invariant: lo * lo <= n < hi * hi
    while lo + 1 < hi
        invariant
            0 <= lo < hi <= 0x8000_0000,
            lo * lo <= n,
            n < hi * hi,
        decreases hi - lo,
    {
        let mid = lo + (hi - lo) / 2;
        proof {
            lemma_mul_bound(mid as int, mid as int, 0x8000_0000, 0x8000_0000);
        }
        if mid * mid <= n {
            lo = mid;
        } else {
            hi = mid;
        }
    }
    lo
}

} // verus!
