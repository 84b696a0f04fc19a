//! Exact wide integer arithmetic on `u128` limbs.
//!
//! The ratio and fee formulas of the engine multiply a token amount by up to
//! two fixed-point factors and divide by a product of two more, so the exact
//! values involved need up to 384 bits. This module provides exact products
//! of two and three `u128` values as limb tuples, lexicographic comparison of
//! such tuples, and flooring division of a three-limb value by a two-limb
//! value, each with a contract in unbounded integer arithmetic.

use vstd::prelude::*;

verus! {

use vstd::arithmetic::div_mod::lemma_fundamental_div_mod;
use vstd::arithmetic::div_mod::lemma_fundamental_div_mod_converse;

/// 2^64 as an executable constant.
pub const B64: u128 = 0x1_0000_0000_0000_0000;

/// 2^64 as a mathematical integer.
pub open spec fn p64() -> int {
    0x1_0000_0000_0000_0000
}

/// 2^128 as a mathematical integer.
pub open spec fn p128() -> int {
    p64() * p64()
}

/// 2^256 as a mathematical integer.
pub open spec fn p256() -> int {
    p128() * p128()
}

/// The integer a two-limb value stands for: `x.0` is the high limb.
pub open spec fn v2(x: (u128, u128)) -> int {
    x.0 * p128() + x.1
}

/// The integer a three-limb value stands for: `x.0` is the high limb.
pub open spec fn v3(x: (u128, u128, u128)) -> int {
    x.0 * p256() + x.1 * p128() + x.2
}

/// Addition with carry: the pair (sum mod 2^128, carry).
fn addc(a: u128, b: u128) -> (r: (u128, bool))
    ensures
        a + b == r.0 + if r.1 {
            p128()
        } else {
            0
        },
{
    match a.checked_add(b) {
        Some(s) => (s, false),
        None => (a - (u128::MAX - b) - 1, true),
    }
}

/// Exact product of two `u128` values as a two-limb value.
pub fn mul_u128(a: u128, b: u128) -> (r: (u128, u128))
    ensures
        v2(r) == a * b,
{
    let ah: u128 = a / B64;
    let al: u128 = a % B64;
    let bh: u128 = b / B64;
    let bl: u128 = b % B64;
    proof {
        lemma_fundamental_div_mod(a as int, B64 as int);
        lemma_fundamental_div_mod(b as int, B64 as int);
        assert(ah < B64) by (nonlinear_arith)
            requires
                ah == a / B64,
                a <= u128::MAX,
        ;
        assert(bh < B64) by (nonlinear_arith)
            requires
                bh == b / B64,
                b <= u128::MAX,
        ;
        assert(ah * bh <= (B64 - 1) * (B64 - 1) && ah * bl <= (B64 - 1) * (B64 - 1) && al * bh
            <= (B64 - 1) * (B64 - 1) && al * bl <= (B64 - 1) * (B64 - 1)) by (nonlinear_arith)
            requires
                ah < B64,
                al < B64,
                bh < B64,
                bl < B64,
        ;
    }
    let hh: u128 = ah * bh;
    let hl: u128 = ah * bl;
    let lh: u128 = al * bh;
    let ll: u128 = al * bl;
    let hl_hi: u128 = hl / B64;
    let hl_lo: u128 = hl % B64;
    let lh_hi: u128 = lh / B64;
    let lh_lo: u128 = lh % B64;
    proof {
        lemma_fundamental_div_mod(hl as int, B64 as int);
        lemma_fundamental_div_mod(lh as int, B64 as int);
        assert(hl_lo * p64() < p128() && lh_lo * p64() < p128()) by (nonlinear_arith)
            requires
                hl_lo < B64,
                lh_lo < B64,
        ;
        assert(hl_hi <= B64 - 2) by (nonlinear_arith)
            requires
                hl_hi * B64 <= hl,
                hl <= (B64 - 1) * (B64 - 1),
        ;
        assert(lh_hi <= B64 - 2) by (nonlinear_arith)
            requires
                lh_hi * B64 <= lh,
                lh <= (B64 - 1) * (B64 - 1),
        ;
    }
    let (s1, c1) = addc(ll, hl_lo * B64);
    let (s2, c2) = addc(s1, lh_lo * B64);
    let carries: u128 = (if c1 {
        1u128
    } else {
        0u128
    }) + (if c2 {
        1u128
    } else {
        0u128
    });
    proof {
        // hh + hl_hi + lh_hi + carries stays below 2^128.
        assert(hh <= (B64 - 1) * (B64 - 1));
        assert((B64 - 1) * (B64 - 1) + (B64 - 2) + (B64 - 2) + 2 < p128()) by (nonlinear_arith);
    }
    let hi: u128 = hh + hl_hi + lh_hi + carries;
    proof {
        assert(a * b == hh * p128() + (hl + lh) * p64() + ll) by (nonlinear_arith)
            requires
                a == ah * B64 + al,
                b == bh * B64 + bl,
                hh == ah * bh,
                hl == ah * bl,
                lh == al * bh,
                ll == al * bl,
                p64() == B64,
                p128() == p64() * p64(),
        ;
        assert((hl + lh) * p64() == hl_hi * p128() + hl_lo * p64() + lh_hi * p128() + lh_lo * p64())
            by (nonlinear_arith)
            requires
                hl == hl_hi * B64 + hl_lo,
                lh == lh_hi * B64 + lh_lo,
                p64() == B64,
                p128() == p64() * p64(),
        ;
        // The carried sums tie the limbs to the exact value.
        assert(ll + hl_lo * B64 + lh_lo * B64 == s2 + carries * p128());
        assert(v2((hi, s2)) == a * b);
    }
    (hi, s2)
}

/// Exact product of a two-limb value and a `u128` as a three-limb value.
pub fn mul_2x1(x: (u128, u128), c: u128) -> (r: (u128, u128, u128))
    ensures
        v3(r) == v2(x) * c,
{
    let (h1, l1) = mul_u128(x.0, c);
    let (h0, l0) = mul_u128(x.1, c);
    proof {
        assert(h1 <= u128::MAX - 1) by (nonlinear_arith)
            requires
                h1 * p128() + l1 == x.0 * c,
                x.0 <= u128::MAX,
                c <= u128::MAX,
                l1 >= 0,
                p128() == (u128::MAX + 1),
        ;
    }
    let (m, cm) = addc(l1, h0);
    let top: u128 = h1 + (if cm {
        1u128
    } else {
        0u128
    });
    proof {
        assert(v3((top, m, l0)) == v2(x) * c) by (nonlinear_arith)
            requires
                h1 * p128() + l1 == x.0 * c,
                h0 * p128() + l0 == x.1 * c,
                l1 + h0 == m + (if cm {
                    p128()
                } else {
                    0
                }),
                top == h1 + (if cm {
                    1int
                } else {
                    0int
                }),
                v3((top, m, l0)) == top * p256() + m * p128() + l0,
                v2(x) == x.0 * p128() + x.1,
                p256() == p128() * p128(),
        ;
    }
    (top, m, l0)
}

/// Exact product of three `u128` values as a three-limb value.
pub fn mul3_u128(a: u128, b: u128, c: u128) -> (r: (u128, u128, u128))
    ensures
        v3(r) == a * b * c,
{
    let ab = mul_u128(a, b);
    let r = mul_2x1(ab, c);
    proof {
        assert(v2(ab) * c == a * b * c) by (nonlinear_arith)
            requires
                v2(ab) == a * b,
        ;
    }
    r
}

proof fn lemma_v3_high_bounds(x: (u128, u128, u128))
    ensures
        x.0 * p256() <= v3(x),
        v3(x) < (x.0 + 1) * p256(),
        x.1 * p128() + x.2 < p256(),
{
    assert(x.1 * p128() + x.2 < p256() && 0 <= x.1 * p128()) by (nonlinear_arith)
        requires
            x.1 <= u128::MAX,
            x.2 <= u128::MAX,
            p128() == (u128::MAX + 1),
            p256() == p128() * p128(),
    ;
    assert((x.0 + 1) * p256() == x.0 * p256() + p256()) by (nonlinear_arith);
}

proof fn lemma_v3_mid_bounds(x: (u128, u128, u128))
    requires
        x.0 == 0,
    ensures
        x.1 * p128() <= v3(x),
        v3(x) < (x.1 + 1) * p128(),
{
    assert((x.1 + 1) * p128() == x.1 * p128() + p128()) by (nonlinear_arith);
}

/// Whether one exact three-limb value is at most another.
pub fn le3(x: (u128, u128, u128), y: (u128, u128, u128)) -> (r: bool)
    ensures
        r == (v3(x) <= v3(y)),
{
    proof {
        lemma_v3_high_bounds(x);
        lemma_v3_high_bounds(y);
        if x.0 < y.0 {
            assert(v3(x) < (x.0 + 1) * p256());
            assert((x.0 + 1) * p256() <= y.0 * p256()) by (nonlinear_arith)
                requires
                    x.0 + 1 <= y.0,
            ;
        }
        if y.0 < x.0 {
            assert(v3(y) < (y.0 + 1) * p256());
            assert((y.0 + 1) * p256() <= x.0 * p256()) by (nonlinear_arith)
                requires
                    y.0 + 1 <= x.0,
            ;
        }
        if x.0 == y.0 {
            if x.1 < y.1 {
                assert((x.1 + 1) * p128() <= y.1 * p128()) by (nonlinear_arith)
                    requires
                        x.1 + 1 <= y.1,
                ;
                lemma_v3_mid_bounds((0u128, x.1, x.2));
                lemma_v3_mid_bounds((0u128, y.1, y.2));
            }
            if y.1 < x.1 {
                assert((y.1 + 1) * p128() <= x.1 * p128()) by (nonlinear_arith)
                    requires
                        y.1 + 1 <= x.1,
                ;
                lemma_v3_mid_bounds((0u128, x.1, x.2));
                lemma_v3_mid_bounds((0u128, y.1, y.2));
            }
        }
    }
    if x.0 != y.0 {
        x.0 < y.0
    } else if x.1 != y.1 {
        x.1 < y.1
    } else {
        x.2 <= y.2
    }
}

/// Whether one exact three-limb value is strictly below another.
pub fn lt3(x: (u128, u128, u128), y: (u128, u128, u128)) -> (r: bool)
    ensures
        r == (v3(x) < v3(y)),
{
    !le3(y, x)
}

/// Whether two three-limb values are equal.
pub fn eq3(x: (u128, u128, u128), y: (u128, u128, u128)) -> (r: bool)
    ensures
        r == (v3(x) == v3(y)),
{
    let le_a = le3(x, y);
    let le_b = le3(y, x);
    le_a && le_b
}

/// Flooring division of a three-limb value by a two-limb value.
///
/// Returns the quotient and whether the division was exact, or `None` when
/// the quotient does not fit in a `u128`.
pub fn div3_by_2(n: (u128, u128, u128), d: (u128, u128)) -> (r: Option<(u128, bool)>)
    requires
        v2(d) > 0,
    ensures
        match r {
            Some(q) => q.0 == v3(n) / v2(d) && q.1 == (v3(n) % v2(d) == 0),
            None => v3(n) / v2(d) > u128::MAX,
        },
{
    let dshift = (d.0, d.1, 0u128);
    proof {
        assert(v3(dshift) == v2(d) * p128()) by (nonlinear_arith)
            requires
                v3(dshift) == d.0 * p256() + d.1 * p128(),
                v2(d) == d.0 * p128() + d.1,
                p256() == p128() * p128(),
        ;
    }
    if le3(dshift, n) {
        proof {
            // The quotient is at least 2^128, hence above u128::MAX.
            lemma_fundamental_div_mod(v3(n), v2(d));
            assert(v3(n) / v2(d) >= p128()) by (nonlinear_arith)
                requires
                    v2(d) * p128() <= v3(n),
                    v2(d) > 0,
                    v3(n) == v2(d) * (v3(n) / v2(d)) + v3(n) % v2(d),
                    0 <= v3(n) % v2(d) < v2(d),
            ;
        }
        return None;
    }
    let mut lo: u128 = 0;
    let mut hi: u128 = u128::MAX;
    proof {
        assert(0 * v2(d) <= v3(n)) by (nonlinear_arith)
            requires
                v3(n) >= 0,
        ;
        assert(v3(n) < (u128::MAX + 1) * v2(d)) by (nonlinear_arith)
            requires
                v3(n) < v2(d) * p128(),
                p128() == u128::MAX + 1,
        ;
    }
    while lo < hi
        invariant
            v2(d) > 0,
            lo * v2(d) <= v3(n),
            v3(n) < (hi + 1) * v2(d),
            lo <= hi,
        decreases hi - lo,
    {
        let half: u128 = (hi - lo) / 2;
        let mid: u128 = lo + half + (hi - lo) % 2;
        proof {
            lemma_fundamental_div_mod((hi - lo) as int, 2);
        }
        let prod = mul_2x1(d, mid);
        if le3(prod, n) {
            lo = mid;
            proof {
                assert(v2(d) * mid == mid * v2(d)) by (nonlinear_arith);
            }
        } else {
            hi = mid - 1;
            proof {
                assert(v2(d) * mid == mid * v2(d)) by (nonlinear_arith);
            }
        }
    }
    let prod = mul_2x1(d, lo);
    let exact = eq3(prod, n);
    proof {
        assert(v2(d) * lo == lo * v2(d)) by (nonlinear_arith);
        assert((lo + 1) * v2(d) == lo * v2(d) + v2(d)) by (nonlinear_arith);
        lemma_fundamental_div_mod_converse(v3(n), v2(d), lo as int, v3(n) - lo * v2(d));
    }
    Some((lo, exact))
}

} // verus!
