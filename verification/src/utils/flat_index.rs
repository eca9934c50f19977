//! Arithmetic on flat positions: a position in rows of `n` splits into a
//! row and a place in the row, and the two make the position again.

use vstd::prelude::*;
use vstd::arithmetic::div_mod::{
    lemma_fundamental_div_mod, lemma_fundamental_div_mod_converse, lemma_multiply_divide_lt,
};

verus! {

/// `a` splits into a quotient and a remainder by `n`, both in range.
pub proof fn lemma_split(a: int, n: int, m: int)
    requires
        n >= 1,
        0 <= a < n * m,
    ensures
        a == (a / n) * n + a % n,
        0 <= a % n < n,
        0 <= a / n < m,
{
    lemma_fundamental_div_mod(a, n);
    lemma_multiply_divide_lt(a, n, m);
    assert(n * (a / n) == (a / n) * n) by (nonlinear_arith);
    assert(a / n >= 0) by (nonlinear_arith)
        requires
            a == (a / n) * n + a % n,
            a >= 0,
            a % n < n,
            n >= 1,
    ;
}

/// A quotient `q` and a remainder `r` in range make a number below `n * m`
/// that splits back into them.
pub proof fn lemma_join(q: int, r: int, n: int, m: int)
    requires
        n >= 1,
        0 <= r < n,
        0 <= q < m,
    ensures
        0 <= q * n + r < n * m,
        (q * n + r) / n == q,
        (q * n + r) % n == r,
{
    lemma_fundamental_div_mod_converse(q * n + r, n, q, r);
    assert(0 <= q * n && q * n + n <= n * m) by (nonlinear_arith)
        requires
            0 <= q < m,
            n >= 1,
    ;
}

/// Where the quotient of a number below `n * m` is at one of its ends.
pub proof fn lemma_quotient_ends(a: int, n: int, m: int)
    requires
        n >= 1,
        m >= 1,
        0 <= a < n * m,
    ensures
        (a < n) == (a / n == 0),
        (a >= n * (m - 1)) == (a / n == m - 1),
{
    lemma_split(a, n, m);
    let q = a / n;
    assert(q >= 1 ==> q * n >= n) by (nonlinear_arith)
        requires
            n >= 1,
    ;
    assert(q >= m - 1 ==> q * n >= n * (m - 1)) by (nonlinear_arith)
        requires
            n >= 1,
    ;
    assert(q <= m - 2 ==> q * n + n <= n * (m - 1)) by (nonlinear_arith)
        requires
            n >= 1,
    ;
}

/// Where the remainder of a number is at one of its ends, seen from the
/// number after it.
pub proof fn lemma_remainder_ends(a: int, n: int)
    requires
        n >= 1,
        a >= 0,
    ensures
        ((a + 1) % n == 0) == (a % n == n - 1),
        n >= 2 ==> ((a + 1) % n == 1) == (a % n == 0),
        a % n < n - 1 ==> (a + 1) % n == a % n + 1 && (a + 1) / n == a / n,
{
    lemma_fundamental_div_mod(a, n);
    lemma_fundamental_div_mod(a + 1, n);
    let q = a / n;
    let r = a % n;
    assert(n * q == q * n) by (nonlinear_arith);
    if r == n - 1 {
        assert(a + 1 == (q + 1) * n + 0) by (nonlinear_arith)
            requires
                a == q * n + r,
                r == n - 1,
        ;
        lemma_fundamental_div_mod_converse(a + 1, n, q + 1, 0);
    } else {
        lemma_fundamental_div_mod_converse(a + 1, n, q, r + 1);
    }
}

} // verus!
