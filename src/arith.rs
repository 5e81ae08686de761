//! Facts about floor division used by the pricing proofs.

use vstd::arithmetic::div_mod::*;
use vstd::arithmetic::mul::*;
use vstd::prelude::*;

verus! {

/// Dividing by a positive number never increases a natural number.
pub proof fn lemma_div_le(x: nat, d: nat)
    requires
        d > 0,
    ensures
        x / d <= x,
{
    lemma_div_is_ordered_by_denominator(x as int, 1, d as int);
}

/// `floor(a * b / c) <= a` when `b <= c`.
pub proof fn lemma_mul_div_le_left(a: nat, b: nat, c: nat)
    requires
        0 < c,
        b <= c,
    ensures
        a * b / c <= a,
{
    lemma_mul_inequality(b as int, c as int, a as int);
    lemma_mul_is_commutative(a as int, b as int);
    lemma_div_is_ordered((a * b) as int, (c * a) as int, c as int);
    lemma_div_by_multiple(a as int, c as int);
    lemma_mul_is_commutative(a as int, c as int);
}

/// Floor division is monotone in the numerator.
pub proof fn lemma_div_mono(x: nat, y: nat, d: nat)
    requires
        d > 0,
        x <= y,
    ensures
        x / d <= y / d,
{
    lemma_div_is_ordered(x as int, y as int, d as int);
}

/// `floor(x / d) * d <= x`.
pub proof fn lemma_div_mul_le(x: nat, d: nat)
    requires
        d > 0,
    ensures
        (x / d) * d <= x,
        x < (x / d) * d + d,
{
    lemma_fundamental_div_mod(x as int, d as int);
    lemma_mod_bound(x as int, d as int);
    lemma_mul_is_commutative(d as int, (x / d) as int);
}

/// `(x / d) <= q` whenever `x < (q + 1) * d`.
pub proof fn lemma_div_lt_bound(x: nat, d: nat, q: nat)
    requires
        d > 0,
        x < (q + 1) * d,
    ensures
        x / d <= q,
{
    lemma_div_mul_le(x, d);
    if x / d > q {
        lemma_mul_inequality((q + 1) as int, (x / d) as int, d as int);
    }
}

/// `q <= x / d` whenever `q * d <= x`.
pub proof fn lemma_div_ge_bound(x: nat, d: nat, q: nat)
    requires
        d > 0,
        q * d <= x,
    ensures
        q <= x / d,
{
    lemma_div_mul_le(x, d);
    if x / d < q {
        lemma_mul_inequality((x / d + 1) as int, q as int, d as int);
        lemma_mul_is_distributive_add_other_way(d as int, (x / d) as int, 1);
    }
}

/// A product of two naturals below `m` and `n` is below `m * n`.
pub proof fn lemma_mul_lt(a: nat, b: nat, m: nat, n: nat)
    requires
        a < m,
        b < n,
    ensures
        a * b < m * n,
{
    assert(a * b < m * n) by (nonlinear_arith)
        requires
            a < m,
            b < n,
    ;
}

} // verus!
