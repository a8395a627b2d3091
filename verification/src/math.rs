//! Exact binomial coefficients over `u128`.

use vstd::prelude::*;

verus! {

/// The binomial coefficient `n` choose `k`, by Pascal's rule.
pub open spec fn binom(n: nat, k: nat) -> nat
    decreases n, k,
{
    if k == 0 {
        1
    } else if n == 0 {
        0
    } else {
        binom((n - 1) as nat, (k - 1) as nat) + binom((n - 1) as nat, k)
    }
}

/// Choosing more than `n` elements from `n` is impossible.
proof fn lemma_binom_beyond(n: nat, k: nat)
    requires
        k > n,
    ensures
        binom(n, k) == 0,
    decreases n,
{
    if n > 0 {
        lemma_binom_beyond((n - 1) as nat, (k - 1) as nat);
        lemma_binom_beyond((n - 1) as nat, k);
    }
}

/// There is exactly one way to choose everything.
proof fn lemma_binom_full(n: nat)
    ensures
        binom(n, n) == 1,
    decreases n,
{
    if n > 0 {
        lemma_binom_full((n - 1) as nat);
        lemma_binom_beyond((n - 1) as nat, n);
    }
}

/// Choosing a single element: `n` ways.
proof fn lemma_binom_one(n: nat)
    ensures
        binom(n, 1) == n,
    decreases n,
{
    if n > 0 {
        lemma_binom_one((n - 1) as nat);
        assert(binom((n - 1) as nat, 0) == 1);
    }
}

/// Symmetry of Pascal's triangle: choosing `k` elements is choosing the
/// `n - k` left out.
proof fn lemma_binom_symm(n: nat, k: nat)
    requires
        k <= n,
    ensures
        binom(n, k) == binom(n, (n - k) as nat),
    decreases n,
{
    if k == 0 {
        lemma_binom_full(n);
    } else if k == n {
        lemma_binom_full(n);
    } else {
        lemma_binom_symm((n - 1) as nat, (k - 1) as nat);
        lemma_binom_symm((n - 1) as nat, k);
    }
}

/// The absorption identity, the step behind the multiplicative formula:
/// `binom(n, k) * k == binom(n, k - 1) * (n - k + 1)`.
proof fn lemma_binom_absorb(n: nat, k: nat)
    requires
        1 <= k <= n,
    ensures
        binom(n, k) * k == binom(n, (k - 1) as nat) * (n - k + 1),
    decreases n,
{
    if k == 1 {
        lemma_binom_one(n);
    } else if k == n {
        lemma_binom_full(n);
        lemma_binom_symm(n, (n - 1) as nat);
        lemma_binom_one(n);
        assert(binom(n, n) * n == binom(n, (n - 1) as nat) * 1);
    } else {
        // 2 <= k <= n - 1, so both inductive uses are in range.
        let m = (n - 1) as nat;
        let a = binom(m, (k - 2) as nat);
        let b = binom(m, (k - 1) as nat);
        let c = binom(m, k);
        lemma_binom_absorb(m, k);
        assert(c * k == b * (m - k + 1));
        lemma_binom_absorb(m, (k - 1) as nat);
        assert(b * (k - 1) == a * (m - k + 2));
        assert(binom(n, k) == b + c);
        assert(binom(n, (k - 1) as nat) == a + b);
        assert((b + c) * k == b * k + c * k) by (nonlinear_arith);
        assert(b * k + b * (m - k + 1) == b * (k + m - k + 1)) by (nonlinear_arith);
        assert((a + b) * (n - k + 1) == a * (n - k + 1) + b * (n - k + 1)) by (nonlinear_arith);
        assert(a * (m - k + 2) == a * (n - k + 1));
        assert(b * (k - 1) + b * (n - k + 1) == b * (k - 1 + n - k + 1)) by (nonlinear_arith);
    }
}

/// Along a row, entries grow up to the middle.
proof fn lemma_binom_mono(n: nat, i: nat, j: nat)
    requires
        i <= j,
        2 * j <= n + 1,
    ensures
        binom(n, i) <= binom(n, j),
    decreases j - i,
{
    if i < j {
        lemma_binom_mono(n, i, (j - 1) as nat);
        // One step: binom(n, j - 1) <= binom(n, j), from absorption and
        // n - j + 1 >= j.
        lemma_binom_absorb(n, j);
        let b0 = binom(n, (j - 1) as nat);
        let b1 = binom(n, j);
        assert(b1 * j == b0 * (n - j + 1));
        assert(b0 * (n - j + 1) >= b0 * j) by (nonlinear_arith)
            requires
                n - j + 1 >= j,
                b0 >= 0,
        ;
        assert(b1 >= b0) by (nonlinear_arith)
            requires
                b1 * j >= b0 * j,
                j >= 1,
                b0 >= 0,
                b1 >= 0,
        ;
    }
}

/// The smaller of `k` and `n - k`: the number of multiplicative steps needed
/// to compute `binom(n, k)` after using symmetry.
pub open spec fn lesser_side(n: u128, k: u128) -> int
    recommends
        k <= n,
{
    if 2 * (k as int) <= n as int {
        k as int
    } else {
        n as int - k as int
    }
}

/// The multiplicative computation of `binom(n, k)` stays inside `u128`
/// arithmetic: its largest intermediate product, `binom(n, k)` times the
/// smaller of `k` and `n - k`, fits.
pub open spec fn binom_fits(n: u128, k: u128) -> bool {
    k > n || binom(n as nat, k as nat) * lesser_side(n, k) <= u128::MAX
}

/// `binom(n, k)`, or `None` exactly when the computation would overflow
/// `u128`.
///
/// Uses the multiplicative formula over the smaller side of the row: each
/// step multiplies by `n - i + 1` and divides exactly by `i`, so the running
/// value is always the exact coefficient `binom(n, i)` and the only values
/// ever formed are the products `binom(n, i) * i`, each bounded by
/// `binom(n, k)` times the smaller side.
pub fn checked_binomial_coefficient(n: u128, k: u128) -> (r: Option<u128>)
    ensures
        r matches Some(v) ==> v == binom(n as nat, k as nat),
        r is Some <==> binom_fits(n, k),
{
    if k > n {
        proof {
            lemma_binom_beyond(n as nat, k as nat);
        }
        return Some(0);
    }
    let kk: u128 = if k <= n - k {
        k
    } else {
        n - k
    };
    proof {
        lemma_binom_symm(n as nat, k as nat);
    }

    let mut acc: u128 = 1;
    let mut i: u128 = 1;
    while i <= kk
        invariant
            k <= n,
            2 * kk <= n,
            kk as int == lesser_side(n, k),
            binom(n as nat, kk as nat) == binom(n as nat, k as nat),
            1 <= i <= kk + 1,
            acc == binom(n as nat, (i - 1) as nat),
            binom(n as nat, (i - 1) as nat) * (i - 1) <= u128::MAX,
        decreases kk + 1 - i,
    {
        let q: u128 = n - i + 1;
        proof {
            lemma_binom_absorb(n as nat, i as nat);
            lemma_binom_mono(n as nat, i as nat, kk as nat);
            assert(binom(n as nat, i as nat) * (i as int) <= binom(n as nat, kk as nat) * (
            kk as int)) by (nonlinear_arith)
                requires
                    binom(n as nat, i as nat) <= binom(n as nat, kk as nat),
                    1 <= i as int <= kk as int,
            ;
        }
        match acc.checked_mul(q) {
            Some(prod) => {
                proof {
                    assert(prod == binom(n as nat, i as nat) * (i as int));
                    assert(prod as int / (i as int) == binom(n as nat, i as nat)) by (nonlinear_arith)
                        requires
                            prod == binom(n as nat, i as nat) * (i as int),
                            i as int >= 1,
                    ;
                }
                acc = prod / i;
                i = i + 1;
            },
            None => {
                proof {
                    assert(binom(n as nat, kk as nat) * (kk as int) > u128::MAX);
                }
                return None;
            },
        }
    }
    Some(acc)
}

/// `binom(n, k)` for callers that already know the computation fits `u128`.
pub fn binomial_coefficient(n: u128, k: u128) -> (r: u128)
    requires
        binom_fits(n, k),
    ensures
        r == binom(n as nat, k as nat),
{
    match checked_binomial_coefficient(n, k) {
        Some(v) => v,
        None => {
            proof {
                assert(false);
            }
            0
        },
    }
}

} // verus!
