//! Arithmetic of non-negative IEEE 754 double-precision numbers, on integers.
//!
//! A number is a pair of a mantissa and a binary exponent. Each operation
//! rounds its exact result to the nearest representable number, ties to the
//! even mantissa, as the hardware does.

use vstd::arithmetic::div_mod::{
    lemma_div_denominator, lemma_fundamental_div_mod, lemma_fundamental_div_mod_converse,
};
use vstd::arithmetic::power2::{
    lemma2_to64, lemma_pow2_adds, lemma_pow2_pos, lemma_pow2_strictly_increases, lemma_pow2_unfold,
    pow2,
};
use vstd::prelude::*;

verus! {

/// Mantissas have 53 bits: this is the first number that has more.
pub open spec fn mantissa_end() -> nat {
    0x20_0000_0000_0000
}

/// No number has a finer grain than this many binary places.
pub const MAX_EXP: u32 = 1074;

/// How many bits of `num` have to be dropped for 53 bits to remain.
pub open spec fn excess(num: nat) -> nat
    decreases num,
{
    if num < mantissa_end() {
        0
    } else {
        1 + excess(num / 2)
    }
}

/// The integer nearest to `num / d`, ties to the even one.
pub open spec fn half_even(num: nat, d: nat) -> nat {
    let q = num / d;
    let r = num % d;
    if 2 * r > d || (2 * r == d && q % 2 == 1) {
        q + 1
    } else {
        q
    }
}

/// How many binary places of `num / 2^k` have to be dropped to make it
/// representable.
pub open spec fn dropped(num: nat, k: nat) -> nat {
    if k > MAX_EXP && k - MAX_EXP > excess(num) {
        (k - MAX_EXP) as nat
    } else {
        excess(num)
    }
}

/// A non-negative double-precision number: `mant / 2^exp`.
#[derive(Debug, Clone, Copy, PartialEq, Eq, Structural)]
pub struct Binary64 {
    pub mant: u64,
    pub exp: u32,
}

/// The double-precision number nearest to `num / 2^k`, ties to even.
pub open spec fn nearest(num: nat, k: nat) -> Binary64 {
    Binary64 {
        mant: half_even(num, pow2(dropped(num, k))) as u64,
        exp: (k - dropped(num, k)) as u32,
    }
}

proof fn lemma_half_even_le(num: nat, d: nat, c: nat)
    requires
        d > 0,
        num <= d * c,
    ensures
        half_even(num, d) <= c,
{
    let q = num / d;
    let r = num % d;
    lemma_fundamental_div_mod(num as int, d as int);
    assert(q <= c) by (nonlinear_arith)
        requires
            num == d * q + r,
            num <= d * c,
            0 <= r,
            d > 0,
    ;
    if q == c {
        assert(r == 0) by (nonlinear_arith)
            requires
                num == d * q + r,
                num <= d * c,
                0 <= r,
                q == c,
        ;
    }
}

proof fn lemma_excess_le(num: nat, j: nat)
    requires
        num < pow2(53 + j),
    ensures
        excess(num) <= j,
    decreases j,
{
    lemma2_to64();
    if num >= mantissa_end() {
        assert(pow2(53) == mantissa_end()) by {
            vstd::arithmetic::power2::lemma2_to64_rest();
        }
        assert(j > 0);
        lemma_pow2_unfold(53 + j);
        assert(53 + j - 1 == 53 + (j - 1));
        lemma_excess_le(num / 2, (j - 1) as nat);
    }
}

proof fn lemma_excess_enough(num: nat)
    ensures
        num / pow2(excess(num)) < mantissa_end(),
    decreases num,
{
    lemma2_to64();
    if num >= mantissa_end() {
        lemma_excess_enough(num / 2);
        let e = excess(num / 2);
        lemma_pow2_pos(e);
        lemma_pow2_unfold(e + 1);
        lemma_div_denominator(num as int, 2, pow2(e) as int);
    }
}

proof fn lemma_dropped_enough(num: nat, k: nat)
    ensures
        num / pow2(dropped(num, k)) < mantissa_end(),
{
    lemma_excess_enough(num);
    let e = excess(num);
    let d = dropped(num, k);
    lemma_pow2_pos(e);
    if d > e {
        lemma_pow2_strictly_increases(e, d);
        vstd::arithmetic::div_mod::lemma_div_is_ordered_by_denominator(
            num as int,
            pow2(e) as int,
            pow2(d) as int,
        );
    }
}

/// How many bits of `num` have to be dropped for 53 bits to remain.
fn excess_bits(num: u128) -> (r: u32)
    ensures
        r == excess(num as nat),
        r <= 75,
{
    let mut rest: u128 = num;
    let mut count: u32 = 0;
    proof {
        lemma2_to64();
        lemma_pow2_adds(64, 64);
        assert(pow2(128) == 0x1_0000_0000_0000_0000 * 0x1_0000_0000_0000_0000);
        lemma_excess_le(num as nat, 75);
    }
    while rest >= 0x20_0000_0000_0000
        invariant
            excess(num as nat) == count + excess(rest as nat),
            excess(num as nat) <= 75,
        decreases rest,
    {
        rest = rest / 2;
        count = count + 1;
    }
    count
}

/// The integer nearest to a number just above `num / d` (if `low`) or to
/// `num / d` itself, ties to the even one.
spec fn half_even_low(num: nat, d: nat, low: bool) -> nat {
    let q = num / d;
    let r = num % d;
    if 2 * r > d || (2 * r == d && (low || q % 2 == 1)) {
        q + 1
    } else {
        q
    }
}

/// Rounds `num / 2^drop`, or a number just above it, to an integer.
fn round_shift(num: u128, drop: u32, low: bool) -> (r: u128)
    ensures
        r == half_even_low(num as nat, pow2(drop as nat), low),
{
    let mut q: u128 = num;
    let mut guard = false;
    let mut sticky = false;
    let mut i: u32 = 0;
    let ghost mut r: nat = 0;
    proof {
        lemma2_to64();
    }
    while i < drop
        invariant
            0 <= i <= drop,
            num == q * pow2(i as nat) + r,
            r < pow2(i as nat),
            i == 0 ==> r == 0 && !guard && !sticky,
            i > 0 ==> guard == (2 * r >= pow2(i as nat)) && sticky == if guard {
                2 * r != pow2(i as nat)
            } else {
                r != 0
            },
        decreases drop - i,
    {
        let bit = q % 2;
        sticky = sticky || guard;
        guard = bit == 1;
        proof {
            let p = pow2(i as nat);
            lemma_pow2_pos(i as nat);
            lemma_pow2_unfold((i + 1) as nat);
            assert(pow2((i + 1) as nat) == 2 * p);
            assert(num == (q / 2) * (2 * p) + (r + bit * p)) by (nonlinear_arith)
                requires
                    num == q * p + r,
                    q == 2 * (q / 2) + bit,
            ;
            if bit == 0 {
                assert(bit * p == 0) by (nonlinear_arith)
                    requires
                        bit == 0,
                ;
            } else {
                assert(bit * p == p) by (nonlinear_arith)
                    requires
                        bit == 1,
                ;
            }
            r = r + bit as nat * p;
        }
        q = q / 2;
        i = i + 1;
    }
    proof {
        let d = pow2(drop as nat);
        lemma_pow2_pos(drop as nat);
        lemma_fundamental_div_mod_converse(num as int, d as int, q as int, r as int);
        assert(q <= num) by (nonlinear_arith)
            requires
                num == q * d + r,
                d >= 1,
                r >= 0,
        ;
        if drop > 0 {
            lemma_pow2_unfold(drop as nat);
            lemma_pow2_pos((drop - 1) as nat);
            assert(d >= 2);
            assert(q < u128::MAX) by (nonlinear_arith)
                requires
                    num == q * d + r,
                    d >= 2,
                    r >= 0,
                    num <= u128::MAX,
            ;
        }
    }
    if guard && (sticky || low || q % 2 == 1) {
        q + 1
    } else {
        q
    }
}

/// Rounding does not depend on the bits far below, but for their being zero
/// or not.
proof fn lemma_half_even_low(num: nat, sh: nat, x: nat, t: nat)
    requires
        sh >= 1,
        x < pow2(t),
    ensures
        half_even(num * pow2(t) + x, pow2(sh + t)) == half_even_low(num, pow2(sh), x > 0),
{
    let d = pow2(sh);
    let h = pow2((sh - 1) as nat);
    let p = pow2(t);
    let q = num / d;
    let r = num % d;
    lemma_pow2_pos(sh);
    lemma_pow2_pos(t);
    lemma_pow2_unfold(sh);
    lemma_pow2_adds(sh, t);
    lemma_fundamental_div_mod(num as int, d as int);
    let n = num * p + x;
    let m = r * p + x;
    assert(n == q * (d * p) + m) by (nonlinear_arith)
        requires
            n == num * p + x,
            m == r * p + x,
            num == d * q + r,
    ;
    assert(m < d * p) by (nonlinear_arith)
        requires
            m == r * p + x,
            r <= d - 1,
            x < p,
            r >= 0,
            p > 0,
    ;
    lemma_fundamental_div_mod_converse(n as int, (d * p) as int, q as int, m as int);
    assert(d == 2 * h);
    assert(d * p == 2 * (h * p)) by (nonlinear_arith)
        requires
            d == 2 * h,
    ;
    if r > h {
        assert(m > h * p) by (nonlinear_arith)
            requires
                m == r * p + x,
                r >= h + 1,
                p > 0,
                x >= 0,
        ;
    } else if r < h {
        assert(m < h * p) by (nonlinear_arith)
            requires
                m == r * p + x,
                r + 1 <= h,
                x < p,
                p > 0,
        ;
    }
}

/// Bits far below add to the number of bits to drop.
proof fn lemma_excess_scaled(num: nat, x: nat, t: nat)
    requires
        num >= 0x10_0000_0000_0000,
        x < pow2(t),
    ensures
        excess(num * pow2(t) + x) == excess(num) + t,
    decreases t,
{
    lemma2_to64();
    if t > 0 {
        let p = pow2((t - 1) as nat);
        lemma_pow2_unfold(t);
        lemma_pow2_pos((t - 1) as nat);
        let n = num * pow2(t) + x;
        assert(n == 2 * (num * p) + x) by (nonlinear_arith)
            requires
                n == num * pow2(t) + x,
                pow2(t) == 2 * p,
        ;
        assert(num * p >= num) by (nonlinear_arith)
            requires
                p >= 1,
                num >= 0,
        ;
        assert(n / 2 == num * p + x / 2);
        lemma_excess_scaled(num, x / 2, (t - 1) as nat);
        assert(n >= mantissa_end());
    } else {
        assert(num * pow2(t) == num) by (nonlinear_arith)
            requires
                pow2(t) == 1,
        ;
    }
}

/// `2^n`.
pub fn power_of_two(n: u32) -> (r: u128)
    requires
        n < 128,
    ensures
        r == pow2(n as nat),
{
    let mut r: u128 = 1;
    let mut i: u32 = 0;
    proof {
        lemma2_to64();
    }
    while i < n
        invariant
            0 <= i <= n < 128,
            r == pow2(i as nat),
            pow2(64) == 0x1_0000_0000_0000_0000,
        decreases n - i,
    {
        proof {
            lemma_pow2_unfold((i + 1) as nat);
            vstd::arithmetic::power2::lemma2_to64_rest();
            lemma_pow2_adds(64, 63);
            assert(pow2(127) == 0x1_0000_0000_0000_0000 * 0x8000_0000_0000_0000);
            if i + 1 < 127 {
                lemma_pow2_strictly_increases((i + 1) as nat, 127);
            }
        }
        r = r * 2;
        i = i + 1;
    }
    r
}

proof fn lemma_half_even_bound(num: nat, d: nat)
    requires
        num / d < mantissa_end(),
    ensures
        half_even(num, d) <= mantissa_end(),
        half_even_low(num, d, false) == half_even(num, d),
{
    let q = num / d;
    let h = half_even(num, d);
    assert(h == q || h == q + 1);
    lemma_successor(q, h);
}

proof fn lemma_successor(q: nat, h: nat)
    requires
        q < mantissa_end(),
        h == q || h == q + 1,
    ensures
        h <= mantissa_end(),
{
}

/// A whole number rounded to 53 bits, and how many bits were dropped.
pub fn round_to_53_bits(num: u128) -> (r: (u64, u32))
    ensures
        r.0 == half_even(num as nat, pow2(excess(num as nat))),
        r.0 <= mantissa_end(),
        r.1 == excess(num as nat),
        r.1 <= 75,
{
    let drop: u32 = excess_bits(num);
    let mant: u128 = round_shift(num, drop, false);
    proof {
        lemma_excess_enough(num as nat);
        lemma_half_even_bound(num as nat, pow2(drop as nat));
    }
    (mant as u64, drop)
}

/// The double-precision number nearest to `num / 2^k`.
fn round_to_nearest(num: u128, k: u32) -> (r: Binary64)
    requires
        dropped(num as nat, k as nat) <= k,
        k <= 2000,
    ensures
        r == nearest(num as nat, k as nat),
        half_even(num as nat, pow2(dropped(num as nat, k as nat))) <= mantissa_end(),
{
    let bits: u32 = excess_bits(num);
    let drop: u32 = if k > MAX_EXP && k - MAX_EXP > bits {
        k - MAX_EXP
    } else {
        bits
    };
    let mant: u128 = round_shift(num, drop, false);
    proof {
        lemma_dropped_enough(num as nat, k as nat);
        lemma_half_even_bound(num as nat, pow2(drop as nat));
    }
    Binary64 { mant: mant as u64, exp: k - drop }
}

/// The integer nearest to `num / d`, ties to the larger one.
pub open spec fn half_up(num: nat, d: nat) -> nat {
    (2 * num + d) / (2 * d)
}

/// The integer nearest to a number, ties to the larger one.
pub fn round_half_up(mant: u64, exp: u32) -> (r: u64)
    requires
        mant <= mantissa_end(),
    ensures
        r == half_up(mant as nat, pow2(exp as nat)),
        r <= mant,
{
    proof {
        lemma2_to64();
        vstd::arithmetic::power2::lemma2_to64_rest();
        lemma_pow2_pos(exp as nat);
    }
    if exp > 54 {
        proof {
            if exp > 55 {
                lemma_pow2_strictly_increases(55, exp as nat);
            }
            vstd::arithmetic::div_mod::lemma_basic_div(
                2 * mant + pow2(exp as nat),
                2 * pow2(exp as nat) as int,
            );
        }
        return 0;
    }
    let p: u128 = power_of_two(exp);
    proof {
        if exp < 54 {
            lemma_pow2_strictly_increases(exp as nat, 54);
        }
    }
    let r: u128 = (2 * mant as u128 + p) / (2 * p);
    proof {
        let n = 2 * mant + p;
        let d = 2 * p;
        lemma_fundamental_div_mod(n as int, d as int);
        assert(r <= mant) by (nonlinear_arith)
            requires
                n == d * r + n % d,
                n == 2 * mant + p,
                d == 2 * p,
                p >= 1,
                n % d >= 0,
                r >= 0,
                mant >= 0,
        ;
    }
    r as u64
}

// --- Weighted averages ---

/// The double nearest to 0.15 is this over `2^55`.
pub const ALPHA_MANT: u64 = 5_404_319_552_844_595;

/// One minus that, rounded to a double, is this over `2^53`.
pub const BETA_MANT: u64 = 7_656_119_366_529_843;

/// A number up to `2^32`, in the range of a double.
pub open spec fn in_range(b: Binary64) -> bool {
    &&& b.mant <= mantissa_end()
    &&& b.exp <= MAX_EXP
    &&& b.mant <= pow2(32 + b.exp as nat)
}

/// 85 per cent of `prev`.
pub open spec fn kept_share(prev: Binary64) -> Binary64 {
    nearest(BETA_MANT as nat * prev.mant as nat, 53 + prev.exp as nat)
}

/// 15 per cent of `sample` plus 85 per cent of `prev`. The smaller share is
/// rounded once, together with the sum, as a fused multiply-add does.
pub open spec fn blended(prev: Binary64, sample: u32) -> Binary64 {
    let x = kept_share(prev);
    let a = ALPHA_MANT as nat * sample as nat;
    if x.exp <= 55 {
        nearest(a + x.mant as nat * pow2((55 - x.exp) as nat), 55)
    } else {
        nearest(a * pow2((x.exp - 55) as nat) + x.mant as nat, x.exp as nat)
    }
}

proof fn lemma_scaled_bound(c: nat, a: nat, drop: nat)
    requires
        drop <= a,
    ensures
        pow2(drop) * (c * pow2((a - drop) as nat)) == c * pow2(a),
{
    lemma_pow2_adds(drop, (a - drop) as nat);
    let p = pow2(drop);
    let q = pow2((a - drop) as nat);
    assert(p * (c * q) == c * (p * q)) by (nonlinear_arith);
}

fn keep_share(prev: Binary64) -> (x: Binary64)
    requires
        in_range(prev),
    ensures
        x == kept_share(prev),
        x.mant <= mantissa_end(),
        21 <= x.exp <= MAX_EXP,
        x.mant <= BETA_MANT * pow2((x.exp - 21) as nat),
{
    let ghost e = prev.exp as nat;
    let ghost num = BETA_MANT as nat * prev.mant as nat;
    proof {
        lemma2_to64();
        vstd::arithmetic::power2::lemma2_to64_rest();
        assert(num <= 7_656_119_366_529_843 * 0x20_0000_0000_0000) by (nonlinear_arith)
            requires
                num == 7_656_119_366_529_843 * prev.mant,
                prev.mant <= 0x20_0000_0000_0000,
        ;
        assert(num <= BETA_MANT as nat * pow2(32 + e)) by (nonlinear_arith)
            requires
                num == BETA_MANT as nat * prev.mant as nat,
                prev.mant <= pow2(32 + e),
        ;
        lemma_pow2_adds(53, 32 + e);
        lemma_pow2_pos(32 + e);
        assert(num < pow2(53 + (32 + e))) by (nonlinear_arith)
            requires
                num <= BETA_MANT as nat * pow2(32 + e),
                BETA_MANT < 0x20_0000_0000_0000,
                pow2(53 + (32 + e)) == 0x20_0000_0000_0000 * pow2(32 + e),
                pow2(32 + e) > 0,
        ;
        lemma_excess_le(num, 32 + e);
    }
    let product: u128 = BETA_MANT as u128 * prev.mant as u128;
    assert(product == num);
    let x = round_to_nearest(product, 53 + prev.exp);
    proof {
        let drop = dropped(num, 53 + e);
        assert(drop <= 32 + e);
        lemma_scaled_bound(BETA_MANT as nat, 32 + e, drop);
        lemma_pow2_pos(drop);
        lemma_half_even_le(
            num,
            pow2(drop),
            BETA_MANT as nat * pow2((32 + e - drop) as nat),
        );
        assert(32 + e - drop == x.exp - 21);
    }
    x
}

/// 15 per cent of `sample` plus 85 per cent of `prev`.
pub fn blend(prev: Binary64, sample: u32) -> (r: Binary64)
    requires
        in_range(prev),
    ensures
        r == blended(prev, sample),
        in_range(r),
{
    let x = keep_share(prev);
    let a: u128 = ALPHA_MANT as u128 * sample as u128;
    proof {
        lemma2_to64();
        vstd::arithmetic::power2::lemma2_to64_rest();
        assert(a <= 5_404_319_552_844_595 * 0xffff_ffff) by (nonlinear_arith)
            requires
                a == 5_404_319_552_844_595 * sample,
                sample <= 0xffff_ffff,
        ;
        assert(a == 0 || a >= 5_404_319_552_844_595) by (nonlinear_arith)
            requires
                a == 5_404_319_552_844_595 * sample,
                sample >= 0,
        ;
    }
    if x.exp <= 55 {
        let up: u32 = 55 - x.exp;
        let p: u128 = power_of_two(up);
        proof {
            lemma_pow2_adds((x.exp - 21) as nat, up as nat);
            assert(x.mant * p <= BETA_MANT * pow2(34)) by (nonlinear_arith)
                requires
                    x.mant <= BETA_MANT * pow2((x.exp - 21) as nat),
                    p >= 0,
                    pow2((x.exp - 21) as nat) * p == pow2(34),
            ;
        }
        let num: u128 = a + x.mant as u128 * p;
        proof {
            lemma_pow2_adds(55, 32);
            assert(num <= pow2(87));
            lemma_pow2_strictly_increases(87, 88);
            lemma_excess_le(num as nat, 35);
        }
        let r = round_to_nearest(num, 55);
        proof {
            lemma_result_in_range(num as nat, 55);
        }
        r
    } else {
        blend_small(x, a)
    }
}

proof fn lemma_result_in_range(num: nat, k: nat)
    requires
        55 <= k <= MAX_EXP,
        num <= pow2(32 + k),
    ensures
        in_range(nearest(num, k)),
        dropped(num, k) <= k,
        dropped(num, k) == excess(num),
        half_even(num, pow2(dropped(num, k))) <= mantissa_end(),
{
    lemma_pow2_strictly_increases(32 + k, 33 + k);
    assert(33 + k == 53 + (k - 20));
    lemma_excess_le(num, (k - 20) as nat);
    let drop = excess(num);
    lemma_excess_enough(num);
    lemma_half_even_bound(num, pow2(drop));
    lemma_scaled_bound(1, 32 + k, drop);
    lemma_pow2_pos(drop);
    lemma_half_even_le(num, pow2(drop), 1 * pow2((32 + k - drop) as nat));
    assert(32 + k - drop == 32 + (k - drop));
}

proof fn lemma_small_sum_bound(a: nat, x: nat, d: nat)
    requires
        a <= 5_404_319_552_844_595 * 0xffff_ffff,
        x <= BETA_MANT * pow2(34 + d),
    ensures
        a * pow2(d) + x <= pow2(87 + d),
{
    lemma2_to64();
    vstd::arithmetic::power2::lemma2_to64_rest();
    lemma_pow2_adds(34, d);
    lemma_pow2_adds(87, d);
    lemma_pow2_adds(55, 32);
    let p = pow2(d);
    lemma_pow2_pos(d);
    assert(pow2(87) == 0x80_0000_0000_0000 * 0x1_0000_0000);
    assert(a * p + x <= pow2(87) * p) by (nonlinear_arith)
        requires
            a <= 5_404_319_552_844_595 * 0xffff_ffff,
            x <= 7_656_119_366_529_843 * (0x4_0000_0000 * p),
            pow2(87) == 0x80_0000_0000_0000 * 0x1_0000_0000,
            p > 0,
    ;
}

/// The sum where the larger share has a finer grain than the smaller one.
fn blend_small(x: Binary64, a: u128) -> (r: Binary64)
    requires
        55 < x.exp <= MAX_EXP,
        x.mant <= mantissa_end(),
        x.mant <= BETA_MANT * pow2((x.exp - 21) as nat),
        a <= 5_404_319_552_844_595 * 0xffff_ffff,
        a == 0 || a >= ALPHA_MANT,
    ensures
        r == nearest(a as nat * pow2((x.exp - 55) as nat) + x.mant as nat, x.exp as nat),
        in_range(r),
{
    let d: u32 = x.exp - 55;
    let ghost total = a as nat * pow2(d as nat) + x.mant as nat;
    proof {
        assert(x.exp - 21 == 34 + d);
        lemma_small_sum_bound(a as nat, x.mant as nat, d as nat);
        assert(87 + d == 32 + x.exp);
        lemma_result_in_range(total, x.exp as nat);
        lemma2_to64();
        vstd::arithmetic::power2::lemma2_to64_rest();
    }
    if a == 0 {
        assert(total == x.mant) by (nonlinear_arith)
            requires
                total == a as nat * pow2(d as nat) + x.mant as nat,
                a == 0,
        ;
        round_to_nearest(x.mant as u128, x.exp)
    } else if d <= 42 {
        let p: u128 = power_of_two(d);
        proof {
            if d < 42 {
                lemma_pow2_strictly_increases(d as nat, 42);
            }
            assert(a * p <= 5_404_319_552_844_595 * 0xffff_ffff * 0x400_0000_0000)
                by (nonlinear_arith)
                requires
                    a <= 5_404_319_552_844_595 * 0xffff_ffff,
                    0 <= p <= 0x400_0000_0000,
            ;
        }
        round_to_nearest(a * p + x.mant as u128, x.exp)
    } else {
        // Bits of the larger share below the 97th binary place only matter for
        // being zero or not.
        let t: u32 = d - 42;
        let (high, low): (u128, bool) = if t >= 54 {
            (0, x.mant > 0)
        } else {
            let p: u128 = power_of_two(t);
            proof {
                lemma_pow2_pos(t as nat);
            }
            (x.mant as u128 / p, x.mant as u128 % p != 0)
        };
        let ghost rest = (x.mant - high * pow2(t as nat)) as nat;
        proof {
            lemma_pow2_pos(t as nat);
            if t >= 54 {
                if t > 54 {
                    lemma_pow2_strictly_increases(54, t as nat);
                }
                assert(high * pow2(t as nat) == 0) by (nonlinear_arith)
                    requires
                        high == 0,
                ;
            } else {
                lemma_fundamental_div_mod(x.mant as int, pow2(t as nat) as int);
                assert(high * pow2(t as nat) == pow2(t as nat) * high) by (nonlinear_arith);
            }
            assert(rest < pow2(t as nat));
            assert(low == (rest > 0));
            assert(x.mant == high * pow2(t as nat) + rest);
            assert(high <= x.mant) by (nonlinear_arith)
                requires
                    x.mant == high * pow2(t as nat) + rest,
                    pow2(t as nat) >= 1,
                    rest >= 0,
            ;
        }
        let num: u128 = a * 0x400_0000_0000 + high;
        let bits: u32 = excess_bits(num);
        let mant: u128 = round_shift(num, bits, low);
        proof {
            lemma_pow2_adds(42, t as nat);
            let p = pow2(t as nat);
            assert(total == num * p + rest) by (nonlinear_arith)
                requires
                    total == a * (0x400_0000_0000 * p) + x.mant,
                    x.mant == high * p + rest,
                    num == a * 0x400_0000_0000 + high,
            ;
            lemma_excess_scaled(num as nat, rest, t as nat);
            lemma_half_even_low(num as nat, bits as nat, rest, t as nat);
        }
        Binary64 { mant: mant as u64, exp: 97 - bits }
    }
}

/// Rounding is never more than half a unit off.
pub proof fn lemma_half_even_is_near(num: nat, d: nat)
    requires
        d > 0,
    ensures
        2 * (half_even(num, d) * d) <= 2 * num + d,
        2 * num <= 2 * (half_even(num, d) * d) + d,
{
    let q = num / d;
    let r = num % d;
    vstd::arithmetic::div_mod::lemma_fundamental_div_mod(num as int, d as int);
    assert(num == q * d + r) by (nonlinear_arith)
        requires
            num == d * q + r,
    ;
    assert((q + 1) * d == q * d + d) by (nonlinear_arith);
}

/// A number in units so small that every number is a whole one of them: there
/// are `2^1200` to a millisecond.
pub open spec fn on_grid(v: Binary64) -> int {
    v.mant as int * pow2((1200 - v.exp) as nat) as int
}

proof fn lemma_nearest_is_near(num: nat, k: nat)
    requires
        k <= 1200,
        dropped(num, k) <= k,
        half_even(num, pow2(dropped(num, k))) <= mantissa_end(),
    ensures
        ({
            let v = nearest(num, k);
            let exact = num * pow2((1200 - k) as nat);
            let unit = pow2((1200 - v.exp) as nat);
            &&& v.exp == k - dropped(num, k)
            &&& 2 * on_grid(v) <= 2 * exact + unit
            &&& 2 * exact <= 2 * on_grid(v) + unit
        }),
{
    let d = dropped(num, k);
    let v = nearest(num, k);
    let f = pow2((1200 - k) as nat) as int;
    let p = pow2(d) as int;
    let h = half_even(num, pow2(d)) as int;
    lemma_pow2_pos(d);
    lemma_pow2_pos((1200 - k) as nat);
    lemma_half_even_is_near(num, pow2(d));
    lemma_pow2_adds(d, (1200 - k) as nat);
    assert(d + (1200 - k) == 1200 - v.exp);
    let u = pow2((1200 - v.exp) as nat) as int;
    assert(u == p * f);
    assert(on_grid(v) == h * u);
    let n = num as int;
    assert(2 * (h * u) <= 2 * (n * f) + u) by (nonlinear_arith)
        requires
            u == p * f,
            2 * (h * p) <= 2 * n + p,
            f > 0,
    ;
    assert(2 * (n * f) <= 2 * (h * u) + u) by (nonlinear_arith)
        requires
            u == p * f,
            2 * n <= 2 * (h * p) + p,
            f > 0,
    ;
}

/// The kept share is 85 per cent, in the finest units, but for rounding.
proof fn lemma_kept_share(prev: Binary64)
    requires
        in_range(prev),
    ensures
        ({
            let x = kept_share(prev);
            let exact = BETA_MANT as int * prev.mant as int * pow2((1147 - prev.exp) as nat);
            &&& x.mant <= mantissa_end()
            &&& 21 <= x.exp <= MAX_EXP
            &&& x.mant <= BETA_MANT * pow2((x.exp - 21) as nat)
            &&& on_grid(x) <= exact + pow2(1179)
            &&& exact <= on_grid(x) + pow2(1179)
        }),
{
    let e = prev.exp as nat;
    let num = BETA_MANT as nat * prev.mant as nat;
    lemma2_to64();
    vstd::arithmetic::power2::lemma2_to64_rest();
    assert(num <= BETA_MANT as nat * pow2(32 + e)) by (nonlinear_arith)
        requires
            num == BETA_MANT as nat * prev.mant as nat,
            prev.mant <= pow2(32 + e),
    ;
    lemma_pow2_adds(53, 32 + e);
    lemma_pow2_pos(32 + e);
    assert(num < pow2(53 + (32 + e))) by (nonlinear_arith)
        requires
            num <= BETA_MANT as nat * pow2(32 + e),
            BETA_MANT < 0x20_0000_0000_0000,
            pow2(53 + (32 + e)) == 0x20_0000_0000_0000 * pow2(32 + e),
            pow2(32 + e) > 0,
    ;
    lemma_excess_le(num, 32 + e);
    let drop = dropped(num, 53 + e);
    assert(drop <= 32 + e);
    lemma_dropped_enough(num, 53 + e);
    lemma_half_even_bound(num, pow2(drop));
    let x = kept_share(prev);
    lemma_scaled_bound(BETA_MANT as nat, 32 + e, drop);
    lemma_pow2_pos(drop);
    lemma_half_even_le(num, pow2(drop), BETA_MANT as nat * pow2((32 + e - drop) as nat));
    assert(32 + e - drop == x.exp - 21);
    lemma_nearest_is_near(num, 53 + e);
    assert(1200 - (53 + e) == 1147 - prev.exp);
    let f = pow2((1147 - prev.exp) as nat) as int;
    assert(num as int * f == BETA_MANT as int * prev.mant as int * f);
    let u = (1200 - x.exp) as nat;
    if u < 1179 {
        lemma_pow2_strictly_increases(u, 1179);
    }
}

/// A sample enters the average with a weight of 15 per cent, and the average so
/// far with one of 85 per cent: twenty times the new average is three times the
/// sample and seventeen times the old average, to within a thousandth of a
/// millisecond.
pub proof fn law_samples_weigh_fifteen_per_cent(prev: Binary64, sample: u32)
    requires
        in_range(prev),
    ensures
        in_range(blended(prev, sample)),
        ({
            let wanted = 3 * (sample as int * pow2(1200)) + 17 * on_grid(prev);
            &&& 20 * on_grid(blended(prev, sample)) <= wanted + pow2(1190)
            &&& wanted <= 20 * on_grid(blended(prev, sample)) + pow2(1190)
        }),
{
    let x = kept_share(prev);
    let a = ALPHA_MANT as nat * sample as nat;
    let b = blended(prev, sample);
    lemma_kept_share(prev);
    lemma2_to64();
    vstd::arithmetic::power2::lemma2_to64_rest();
    assert(a <= 5_404_319_552_844_595 * 0xffff_ffff) by (nonlinear_arith)
        requires
            a == 5_404_319_552_844_595 * sample as nat,
            sample <= 0xffff_ffff,
    ;
    let k: nat = if x.exp <= 55 {
        55
    } else {
        x.exp as nat
    };
    let num = if x.exp <= 55 {
        a + x.mant as nat * pow2((55 - x.exp) as nat)
    } else {
        a * pow2((x.exp - 55) as nat) + x.mant as nat
    };
    assert(b == nearest(num, k));
    let f = pow2((1200 - k) as nat) as int;
    let g = pow2(1145) as int;
    lemma_pow2_pos((1200 - k) as nat);
    assert(num <= pow2(32 + k) && num as int * f == a as int * g + on_grid(x)) by {
        if x.exp <= 55 {
            let up = (55 - x.exp) as nat;
            let p = pow2(up) as int;
            lemma_pow2_adds((x.exp - 21) as nat, up);
            lemma_pow2_adds(up, 1145);
            lemma_pow2_adds(55, 32);
            assert(x.mant * p <= BETA_MANT * pow2(34)) by (nonlinear_arith)
                requires
                    x.mant <= BETA_MANT * pow2((x.exp - 21) as nat),
                    p >= 0,
                    pow2((x.exp - 21) as nat) * p == pow2(34),
            ;
            assert(num <= pow2(87));
            assert(up + 1145 == 1200 - x.exp);
            let m = x.mant as int;
            assert((a as int + m * p) * g == a as int * g + m * (p * g)) by (nonlinear_arith);
        } else {
            let d = (x.exp - 55) as nat;
            assert(x.exp - 21 == 34 + d);
            lemma_small_sum_bound(a, x.mant as nat, d);
            assert(87 + d == 32 + x.exp);
            lemma_pow2_adds(d, (1200 - k) as nat);
            assert(d + (1200 - k) == 1145);
            let p = pow2(d) as int;
            let m = x.mant as int;
            assert((a as int * p + m) * f == a as int * (p * f) + m * f) by (nonlinear_arith);
        }
    }
    lemma_result_in_range(num, k);
    lemma_nearest_is_near(num, k);
    lemma_pow2_strictly_increases(32 + k, 33 + k);
    lemma_excess_le(num, (k - 20) as nat);
    let u = (1200 - b.exp) as nat;
    assert(b.exp >= 20);
    if u < 1180 {
        lemma_pow2_strictly_increases(u, 1180);
    }
    lemma_weights_add_up(prev, sample, on_grid(x), on_grid(b));
}

proof fn lemma_weights_add_up(prev: Binary64, sample: u32, x: int, b: int)
    requires
        in_range(prev),
        ({
            let exact = BETA_MANT as int * prev.mant as int * pow2((1147 - prev.exp) as nat);
            let sum = ALPHA_MANT as int * sample as int * pow2(1145) + x;
            &&& x <= exact + pow2(1179)
            &&& exact <= x + pow2(1179)
            &&& 2 * b <= 2 * sum + pow2(1180)
            &&& 2 * sum <= 2 * b + pow2(1180)
        }),
    ensures
        20 * b <= 3 * (sample as int * pow2(1200)) + 17 * on_grid(prev) + pow2(1190),
        3 * (sample as int * pow2(1200)) + 17 * on_grid(prev) <= 20 * b + pow2(1190),
{
    lemma2_to64();
    vstd::arithmetic::power2::lemma2_to64_rest();
    let e = prev.exp as nat;
    let m = prev.mant as int;
    let s = sample as int;
    let g = pow2(1145) as int;
    let h = pow2((1147 - e) as nat) as int;
    let p = m * h;
    let t = s * g;
    let z = pow2(1177) as int;
    lemma_pow2_pos(1145);
    lemma_pow2_pos((1147 - e) as nat);
    lemma_pow2_adds(55, 1145);
    lemma_pow2_adds(53, (1147 - e) as nat);
    lemma_pow2_adds(32 + e, (1147 - e) as nat);
    lemma_pow2_adds(32, 1145);
    lemma_pow2_adds(2, 1177);
    lemma_pow2_adds(3, 1177);
    lemma_pow2_adds(13, 1177);
    assert(53 + (1147 - e) == 1200 - e);
    assert((32 + e) + (1147 - e) == 1179);
    assert(on_grid(prev) == 0x20_0000_0000_0000 * p) by (nonlinear_arith)
        requires
            on_grid(prev) == m * pow2((1200 - e) as nat) as int,
            pow2((1200 - e) as nat) as int == 0x20_0000_0000_0000 * h,
            p == m * h,
    ;
    assert(s * pow2(1200) as int == 0x80_0000_0000_0000 * t) by (nonlinear_arith)
        requires
            pow2(1200) as int == 0x80_0000_0000_0000 * g,
            t == s * g,
    ;
    assert(0 <= p <= 4 * z) by (nonlinear_arith)
        requires
            p == m * h,
            0 <= m <= pow2(32 + e) as int,
            h > 0,
            pow2(32 + e) as int * h == 4 * z,
    ;
    assert(0 <= t <= z) by (nonlinear_arith)
        requires
            t == s * g,
            0 <= s <= 0xffff_ffff,
            g > 0,
            z == 0x1_0000_0000 * g,
    ;
    assert(ALPHA_MANT as int * s * g == 5_404_319_552_844_595 * t) by (nonlinear_arith)
        requires
            t == s * g,
            ALPHA_MANT == 5_404_319_552_844_595,
    ;
    assert(BETA_MANT as int * m * h == 7_656_119_366_529_843 * p) by (nonlinear_arith)
        requires
            p == m * h,
            BETA_MANT == 7_656_119_366_529_843,
    ;
    let q = 20 * (5_404_319_552_844_595 * t) - 3 * (0x80_0000_0000_0000 * t);
    let r = 20 * (7_656_119_366_529_843 * p) - 17 * (0x20_0000_0000_0000 * p);
    assert(-20 * t <= q <= 20 * t);
    assert(-20 * p <= r <= 20 * p);
}

} // verus!
