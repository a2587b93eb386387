//! Integer arithmetic shared by the contracts: the integer square root that
//! weighs a vote, and the basis-point fee taken on a release.

use vstd::prelude::*;

verus! {

/// `r` is the integer square root of `n`: the largest integer whose square
/// does not exceed `n`.
pub open spec fn is_sqrt_of(r: int, n: int) -> bool {
    0 <= r && r * r <= n && n < (r + 1) * (r + 1)
}

/// The integer square root of `n`, for `n >= 0`: the one `r` with
/// `r * r <= n < (r + 1) * (r + 1)`.
pub open spec fn sqrt_floor(n: int) -> int {
    choose|r: int| is_sqrt_of(r, n)
}

/// Two integer square roots of the same number are equal.
pub proof fn lemma_sqrt_unique(a: int, b: int, n: int)
    requires
        is_sqrt_of(a, n),
        is_sqrt_of(b, n),
    ensures
        a == b,
{
    if a < b {
        assert((a + 1) * (a + 1) <= b * b) by (nonlinear_arith)
            requires
                0 <= a,
                a + 1 <= b,
        ;
    } else if b < a {
        assert((b + 1) * (b + 1) <= a * a) by (nonlinear_arith)
            requires
                0 <= b,
                b + 1 <= a,
        ;
    }
}

/// Whoever exhibits an integer square root of `n` has `sqrt_floor(n)`.
pub proof fn lemma_sqrt_floor_is(r: int, n: int)
    requires
        is_sqrt_of(r, n),
    ensures
        sqrt_floor(n) == r,
{
    lemma_sqrt_unique(sqrt_floor(n), r, n);
}

/// One Newton step from `x` never falls below the square root: with
/// `s * s <= n` and `x > 0`, `(x + n / x) / 2 >= s`.
proof fn lemma_newton_step_bound(x: int, n: int, s: int)
    requires
        x > 0,
        0 <= s,
        s * s <= n,
    ensures
        (x + n / x) / 2 >= s,
{
    let q = n / x;
    assert(q * x <= n < (q + 1) * x) by (nonlinear_arith)
        requires
            x > 0,
            q == n / x,
    ;
    if x + q <= 2 * s - 1 {
        assert((q + 1) * x <= (2 * s - x) * x) by (nonlinear_arith)
            requires
                q + 1 <= 2 * s - x,
                x > 0,
        ;
        assert((2 * s - x) * x <= s * s) by (nonlinear_arith);
        assert(false);
    }
}

/// Integer square root by Newton's iteration `x <- (x + n / x) / 2` from
/// `x = n`, stopped when `x` no longer decreases.
pub fn isqrt_wide(n: u128) -> (r: u128)
    requires
        n <= i128::MAX,
    ensures
        is_sqrt_of(r as int, n as int),
        r as int == sqrt_floor(n as int),
        r <= n,
        r <= u64::MAX,
{
    if n == 0 {
        proof {
            lemma_sqrt_floor_is(0, 0);
        }
        return 0;
    }
    let mut x: u128 = n;
    let mut y: u128 = (x + 1) / 2;
    proof {
        assert((n as int + 1) * (n as int + 1) > n as int) by (nonlinear_arith)
            requires
                n as int >= 1,
        ;
        assert(n / n == 1) by (nonlinear_arith)
            requires
                n >= 1,
        ;
    }
    while y < x
        invariant
            0 < x <= n,
            n <= i128::MAX,
            (x as int + 1) * (x as int + 1) > n as int,
            y as int == (x as int + n as int / x as int) / 2,
        decreases x,
    {
        proof {
            let s = sqrt_floor_witness(n as int);
            lemma_newton_step_bound(x as int, n as int, s);
            assert((y as int + 1) * (y as int + 1) > n as int) by (nonlinear_arith)
                requires
                    y as int >= s,
                    (s + 1) * (s + 1) > n as int,
                    s >= 0,
            ;
            assert(y > 0) by {
                if y == 0 {
                    assert(s == 0);
                }
            }
        }
        x = y;
        assert(n / x <= n) by (nonlinear_arith)
            requires
                x > 0,
        ;
        y = (x + n / x) / 2;
    }
    proof {
        // y >= x means n / x >= x, hence x * x <= n.
        let q = n as int / x as int;
        assert(q >= x as int);
        assert(q * x as int <= n as int) by (nonlinear_arith)
            requires
                x as int > 0,
                q == n as int / x as int,
        ;
        assert(x as int * x as int <= q * x as int) by (nonlinear_arith)
            requires
                q >= x as int,
                x as int > 0,
        ;
        lemma_sqrt_floor_is(x as int, n as int);
        lemma_sqrt_is_small(x as int, n as int);
    }
    x
}

/// The integer square root of a number that fits 128 bits fits 64 bits.
pub proof fn lemma_sqrt_is_small(r: int, n: int)
    requires
        is_sqrt_of(r, n),
        n < 0x1_0000_0000_0000_0000_0000_0000_0000_0000,
    ensures
        r < 0x1_0000_0000_0000_0000,
{
    if r >= 0x1_0000_0000_0000_0000 {
        assert(r * r >= 0x1_0000_0000_0000_0000 * 0x1_0000_0000_0000_0000) by (nonlinear_arith)
            requires
                r >= 0x1_0000_0000_0000_0000,
        ;
        assert(0x1_0000_0000_0000_0000 * 0x1_0000_0000_0000_0000
            == 0x1_0000_0000_0000_0000_0000_0000_0000_0000int) by (nonlinear_arith);
    }
}

/// The platform's share of `amount` at `bps` basis points, rounded down.
pub open spec fn fee_of(amount: int, bps: nat) -> int {
    amount * bps / 10000
}

/// The share of `amount` at `bps` basis points, rounded down: the fee that
/// the platform keeps of a released amount.
pub fn platform_fee(amount: i128, bps: u32) -> (fee: i128)
    requires
        amount >= 0,
        bps <= 10000,
    ensures
        fee == fee_of(amount as int, bps as nat),
        0 <= fee <= amount,
{
    let whole: i128 = amount / 10000;
    let rest: i128 = amount % 10000;
    let rate: i128 = bps as i128;
    proof {
        let a = amount as int;
        let b = bps as int;
        let q = a / 10000;
        let r = a % 10000;
        assert(a == q * 10000 + r && 0 <= r < 10000 && q >= 0) by (nonlinear_arith)
            requires
                a >= 0,
                q == a / 10000,
                r == a % 10000,
        ;
        assert(0 <= q * b <= q * 10000) by (nonlinear_arith)
            requires
                q >= 0,
                0 <= b <= 10000,
        ;
        assert(0 <= r * b <= r * 10000) by (nonlinear_arith)
            requires
                r >= 0,
                0 <= b <= 10000,
        ;
        assert(a * b == (q * b) * 10000 + r * b) by (nonlinear_arith)
            requires
                a == q * 10000 + r,
        ;
        let x = r * b;
        let y = q * b;
        assert((y * 10000 + x) / 10000 == y + x / 10000) by (nonlinear_arith)
            requires
                x >= 0,
        ;
        assert(x / 10000 <= r) by (nonlinear_arith)
            requires
                0 <= x <= r * 10000,
        ;
        assert(x / 10000 >= 0) by (nonlinear_arith)
            requires
                0 <= x,
        ;
    }
    whole * rate + (rest * rate) / 10000
}

/// Every non-negative integer has an integer square root; this returns one.
proof fn sqrt_floor_witness(n: int) -> (s: int)
    requires
        n >= 0,
    ensures
        is_sqrt_of(s, n),
    decreases n,
{
    if n == 0 {
        assert(is_sqrt_of(0, 0)) by (nonlinear_arith);
        0
    } else {
        let t = sqrt_floor_witness(n - 1);
        if (t + 1) * (t + 1) <= n {
            let u = t + 1;
            assert(n < (u + 1) * (u + 1)) by (nonlinear_arith)
                requires
                    n - 1 < u * u,
                    u >= 1,
            ;
            u
        } else {
            t
        }
    }
}

} // verus!
