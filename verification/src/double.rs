//! Double-precision numbers as mpv reports them, and the whole numbers that the
//! room works with.
//!
//! A [`Double`] is the bit pattern of an IEEE 754 double. The conversions say
//! exactly what they make of every pattern, infinities and not-a-number
//! included.

use vstd::arithmetic::power2::{
    lemma2_to64, lemma2_to64_rest, lemma_pow2_pos, lemma_pow2_strictly_increases, pow2,
};
use vstd::prelude::*;

use crate::binary64::{
    excess, half_even, half_up, lemma_half_even_is_near, mantissa_end, power_of_two, round_half_up,
    round_to_53_bits,
};

verus! {

/// A double-precision number by its bits.
#[derive(Debug, Clone, Copy, PartialEq, Eq, Structural)]
pub struct Double {
    pub bits: u64,
}

/// A non-negative number `mant * 2^scale`.
pub struct Scaled {
    pub mant: nat,
    pub scale: int,
}

/// What a bit pattern stands for.
pub enum DoubleView {
    NotANumber,
    /// A negative number, minus zero and minus infinity included. How large it
    /// is does not matter: every conversion here takes it for zero.
    Negative,
    Infinity,
    Finite(Scaled),
}

impl View for Double {
    type V = DoubleView;

    /// One sign bit, eleven exponent bits, 52 fraction bits.
    open spec fn view(&self) -> DoubleView {
        let exponent = self.bits as nat / 0x10_0000_0000_0000 % 0x800;
        let fraction = self.bits as nat % 0x10_0000_0000_0000;
        if exponent == 0x7ff && fraction != 0 {
            DoubleView::NotANumber
        } else if self.bits >= 0x8000_0000_0000_0000 {
            DoubleView::Negative
        } else if exponent == 0x7ff {
            DoubleView::Infinity
        } else if exponent == 0 {
            DoubleView::Finite(Scaled { mant: fraction, scale: -1074 })
        } else {
            DoubleView::Finite(
                Scaled { mant: 0x10_0000_0000_0000 + fraction, scale: exponent - 1075 },
            )
        }
    }
}

impl Scaled {
    /// The double-precision product with a small whole number: the exact
    /// product rounded to 53 bits, ties to even.
    pub open spec fn times(self, factor: nat) -> Scaled {
        let product = self.mant * factor;
        Scaled {
            mant: half_even(product, pow2(excess(product))),
            scale: self.scale + excess(product),
        }
    }

    /// The whole part.
    pub open spec fn whole(self) -> nat {
        if self.scale >= 0 {
            self.mant * pow2(self.scale as nat)
        } else {
            self.mant / pow2((-self.scale) as nat)
        }
    }

    /// The nearest whole number, ties to the larger one.
    pub open spec fn rounded(self) -> nat {
        if self.scale >= 0 {
            self.mant * pow2(self.scale as nat)
        } else {
            half_up(self.mant, pow2((-self.scale) as nat))
        }
    }
}

/// `n`, but no more than `max`.
pub open spec fn at_most(n: nat, max: nat) -> nat {
    if n <= max {
        n
    } else {
        max
    }
}

/// Seconds in whole milliseconds: times 1000, cut off. Negative numbers and
/// not-a-number count as zero; what is too large counts as the largest.
pub open spec fn millis(seconds: DoubleView) -> nat {
    match seconds {
        DoubleView::Finite(v) => at_most(v.times(1000).whole(), u64::MAX as nat),
        DoubleView::Infinity => u64::MAX as nat,
        _ => 0,
    }
}

/// A factor in hundredths: times 100, to the nearest, between 0 and 65535.
pub open spec fn hundredths(factor: DoubleView) -> nat {
    match factor {
        DoubleView::Finite(v) => at_most(v.times(100).rounded(), u16::MAX as nat),
        DoubleView::Infinity => u16::MAX as nat,
        _ => 0,
    }
}

/// Seconds in whole seconds: to the nearest, between 0 and the largest `u32`.
pub open spec fn whole_seconds(seconds: DoubleView) -> nat {
    match seconds {
        DoubleView::Finite(v) => at_most(v.rounded(), u32::MAX as nat),
        DoubleView::Infinity => u32::MAX as nat,
        _ => 0,
    }
}

/// The kind of a number, with the mantissa and the exponent field of a finite
/// one.
enum Parts {
    Zero,
    Infinity,
    Finite { mant: u64, scale: i32 },
}

impl Double {
    fn parts(&self) -> (r: Parts)
        ensures
            match r {
                Parts::Zero => self@ is NotANumber || self@ is Negative,
                Parts::Infinity => self@ is Infinity,
                Parts::Finite { mant, scale } => {
                    &&& self@ == DoubleView::Finite(
                        Scaled { mant: mant as nat, scale: scale as int },
                    )
                    &&& mant < mantissa_end()
                    &&& -1074 <= scale <= 971
                },
            },
    {
        let exponent: u64 = self.bits / 0x10_0000_0000_0000 % 0x800;
        let fraction: u64 = self.bits % 0x10_0000_0000_0000;
        if exponent == 0x7ff && fraction != 0 {
            Parts::Zero
        } else if self.bits >= 0x8000_0000_0000_0000 {
            Parts::Zero
        } else if exponent == 0x7ff {
            Parts::Infinity
        } else if exponent == 0 {
            Parts::Finite { mant: fraction, scale: -1074 }
        } else {
            Parts::Finite { mant: 0x10_0000_0000_0000 + fraction, scale: exponent as i32 - 1075 }
        }
    }

    /// A position in seconds as whole milliseconds.
    pub fn seconds_to_millis(&self) -> (r: u64)
        ensures
            r == millis(self@),
    {
        match self.parts() {
            Parts::Zero => 0,
            Parts::Infinity => u64::MAX,
            Parts::Finite { mant, scale } => {
                let (m, s) = times(mant, scale, 1000);
                whole(m, s)
            }
        }
    }

    /// A playback speed as hundredths of normal speed.
    pub fn to_hundredths(&self) -> (r: u16)
        ensures
            r == hundredths(self@),
    {
        match self.parts() {
            Parts::Zero => 0,
            Parts::Infinity => u16::MAX,
            Parts::Finite { mant, scale } => {
                let (m, s) = times(mant, scale, 100);
                let n: u64 = rounded(m, s);
                if n <= u16::MAX as u64 {
                    n as u16
                } else {
                    u16::MAX
                }
            }
        }
    }

    /// A duration in seconds, to the nearest whole second.
    pub fn to_whole_seconds(&self) -> (r: u32)
        ensures
            r == whole_seconds(self@),
    {
        match self.parts() {
            Parts::Zero => 0,
            Parts::Infinity => u32::MAX,
            Parts::Finite { mant, scale } => {
                let n: u64 = rounded(mant, scale);
                if n <= u32::MAX as u64 {
                    n as u32
                } else {
                    u32::MAX
                }
            }
        }
    }
}

/// The rounded product with a small whole number.
fn times(mant: u64, scale: i32, factor: u64) -> (r: (u64, i32))
    requires
        mant < mantissa_end(),
        factor <= 1000,
        -1074 <= scale <= 971,
    ensures
        (Scaled { mant: r.0 as nat, scale: r.1 as int }) == (Scaled {
            mant: mant as nat,
            scale: scale as int,
        }).times(factor as nat),
        r.0 <= mantissa_end(),
        -1074 <= r.1 <= 1046,
{
    proof {
        assert(mant * factor <= 0x20_0000_0000_0000 * 1000) by (nonlinear_arith)
            requires
                mant <= 0x20_0000_0000_0000,
                0 <= factor <= 1000,
        ;
    }
    let product: u64 = mant * factor;
    let (m, drop) = round_to_53_bits(product as u128);
    (m, scale + drop as i32)
}

/// The whole part of `mant * 2^scale`, or the largest `u64`.
fn whole(mant: u64, scale: i32) -> (r: u64)
    requires
        mant <= mantissa_end(),
        -1074 <= scale <= 1046,
    ensures
        r == at_most(
            (Scaled { mant: mant as nat, scale: scale as int }).whole(),
            u64::MAX as nat,
        ),
{
    proof {
        lemma2_to64();
        lemma2_to64_rest();
    }
    if scale >= 0 {
        scale_up(mant, scale as u32)
    } else {
        let n: u32 = (-scale) as u32;
        proof {
            lemma_pow2_pos(n as nat);
        }
        if n > 53 {
            proof {
                if n > 54 {
                    lemma_pow2_strictly_increases(54, n as nat);
                }
                vstd::arithmetic::div_mod::lemma_basic_div(mant as int, pow2(n as nat) as int);
            }
            0
        } else {
            let p: u128 = power_of_two(n);
            proof {
                vstd::arithmetic::div_mod::lemma_div_is_ordered_by_denominator(
                    mant as int,
                    1,
                    p as int,
                );
            }
            (mant as u128 / p) as u64
        }
    }
}

/// The nearest whole number to `mant * 2^scale`, or the largest `u64`.
fn rounded(mant: u64, scale: i32) -> (r: u64)
    requires
        mant <= mantissa_end(),
        -1074 <= scale <= 1046,
    ensures
        r == at_most(
            (Scaled { mant: mant as nat, scale: scale as int }).rounded(),
            u64::MAX as nat,
        ),
{
    if scale >= 0 {
        scale_up(mant, scale as u32)
    } else {
        round_half_up(mant, (-scale) as u32)
    }
}

/// `mant * 2^n`, or the largest `u64`.
fn scale_up(mant: u64, n: u32) -> (r: u64)
    requires
        mant <= mantissa_end(),
    ensures
        r == at_most(mant as nat * pow2(n as nat), u64::MAX as nat),
{
    proof {
        lemma2_to64();
        lemma2_to64_rest();
    }
    if mant == 0 {
        assert(mant as nat * pow2(n as nat) == 0) by (nonlinear_arith)
            requires
                mant == 0,
        ;
        0
    } else if n > 63 {
        proof {
            if n > 64 {
                lemma_pow2_strictly_increases(64, n as nat);
            }
            assert(mant as nat * pow2(n as nat) >= pow2(n as nat)) by (nonlinear_arith)
                requires
                    mant >= 1,
                    pow2(n as nat) >= 0,
            ;
        }
        u64::MAX
    } else {
        let p: u128 = power_of_two(n);
        proof {
            if n < 63 {
                lemma_pow2_strictly_increases(n as nat, 63);
            }
            assert(mant * p <= 0x20_0000_0000_0000 * 0x8000_0000_0000_0000) by (nonlinear_arith)
                requires
                    mant <= 0x20_0000_0000_0000,
                    0 <= p <= 0x8000_0000_0000_0000,
            ;
        }
        let v: u128 = mant as u128 * p;
        if v <= u64::MAX as u128 {
            v as u64
        } else {
            u64::MAX
        }
    }
}

/// Halving drops no more bits than a number has behind a whole one that fits.
proof fn lemma_excess_of_whole(x: nat, k: nat)
    requires
        x < mantissa_end(),
    ensures
        excess(x * pow2(k)) <= k,
    decreases k,
{
    lemma2_to64();
    if k == 0 {
        assert(x * 1 == x);
    } else {
        vstd::arithmetic::power2::lemma_pow2_unfold(k);
        let half = x * pow2((k - 1) as nat);
        assert(x * pow2(k) == 2 * half) by (nonlinear_arith)
            requires
                pow2(k) == 2 * pow2((k - 1) as nat),
                half == x * pow2((k - 1) as nat),
        ;
        lemma_excess_of_whole(x, (k - 1) as nat);
        assert(2 * half / 2 == half);
    }
}

/// A product that is a whole number and fits is exact.
proof fn lemma_whole_product(v: Scaled, n: nat, k: nat, factor: nat)
    requires
        v.mant == n * pow2(k),
        v.scale == -k,
        n * factor < mantissa_end(),
    ensures
        v.times(factor).whole() == n * factor,
        v.times(factor).rounded() == n * factor,
{
    let x = n * factor;
    let product = v.mant * factor;
    assert(product == x * pow2(k)) by (nonlinear_arith)
        requires
            product == (n * pow2(k)) * factor,
            x == n * factor,
    ;
    lemma_excess_of_whole(x, k);
    let e = excess(product);
    let left = (k - e) as nat;
    vstd::arithmetic::power2::lemma_pow2_adds(left, e);
    lemma_pow2_pos(e);
    lemma_pow2_pos(left);
    let m = x * pow2(left);
    assert(product == m * pow2(e)) by (nonlinear_arith)
        requires
            product == x * pow2(k),
            pow2(k) == pow2(left) * pow2(e),
            m == x * pow2(left),
    ;
    vstd::arithmetic::div_mod::lemma_div_multiples_vanish(m as int, pow2(e) as int);
    vstd::arithmetic::div_mod::lemma_mod_multiples_basic(m as int, pow2(e) as int);
    assert(m * pow2(e) == pow2(e) * m) by (nonlinear_arith);
    assert(half_even(product, pow2(e)) == m);
    let t = v.times(factor);
    assert(t.mant == m && t.scale == -left);
    vstd::arithmetic::div_mod::lemma_div_multiples_vanish(x as int, pow2(left) as int);
    assert(x * pow2(left) == pow2(left) * x) by (nonlinear_arith);
    let d = pow2(left);
    assert((2 * m + d) / (2 * d) == x) by (nonlinear_arith)
        requires
            m == x * d,
            d > 0,
    ;
    if left == 0 {
        lemma2_to64();
        assert(x * 1 == x);
    }
}

/// Whole numbers of seconds are whole numbers of milliseconds, and whole factors
/// whole numbers of hundredths, up to what can be represented.
pub proof fn law_whole_numbers_stay_whole(v: Scaled, n: nat, k: nat)
    requires
        v.mant == n * pow2(k),
        v.scale == -k,
        n * 1_000 < 0x20_0000_0000_0000,
    ensures
        millis(DoubleView::Finite(v)) == n * 1_000,
        hundredths(DoubleView::Finite(v)) == if n * 100 <= 65_535 {
            n * 100
        } else {
            65_535
        },
        whole_seconds(DoubleView::Finite(v)) == if n <= 0xffff_ffff {
            n
        } else {
            0xffff_ffff
        },
{
    lemma_whole_product(v, n, k, 1_000);
    lemma_whole_product(v, n, k, 100);
    let d = pow2(k);
    lemma_pow2_pos(k);
    assert((2 * v.mant + d) / (2 * d) == n) by (nonlinear_arith)
        requires
            v.mant == n * d,
            d > 0,
    ;
    if k == 0 {
        lemma2_to64();
        assert(n * 1 == n);
    }
}

/// What is no number, and what is negative, counts as zero; infinity as the
/// largest; and nothing counts as more than that.
pub proof fn law_odd_numbers_are_tamed(x: DoubleView)
    ensures
        x is NotANumber || x is Negative ==> millis(x) == 0 && hundredths(x) == 0
            && whole_seconds(x) == 0,
        x is Infinity ==> millis(x) == u64::MAX && hundredths(x) == u16::MAX && whole_seconds(x)
            == u32::MAX,
        millis(x) <= u64::MAX,
        hundredths(x) <= u16::MAX,
        whole_seconds(x) <= u32::MAX,
{
}

/// Rounding to whole seconds goes to the nearest: never more than half a second
/// off, and up at exactly half.
pub proof fn law_lengths_are_rounded(mant: nat, k: nat)
    requires
        k > 0,
        whole_seconds(DoubleView::Finite(Scaled { mant, scale: -k })) < u32::MAX,
    ensures
        ({
            let n = whole_seconds(DoubleView::Finite(Scaled { mant, scale: -k }));
            &&& (2 * n - 1) * pow2(k) <= 2 * mant
            &&& 2 * mant < (2 * n + 1) * pow2(k)
        }),
{
    let d = pow2(k) as int;
    lemma_pow2_pos(k);
    let n = whole_seconds(DoubleView::Finite(Scaled { mant, scale: -k })) as int;
    let a = 2 * mant + d;
    assert(n == a / (2 * d));
    vstd::arithmetic::div_mod::lemma_fundamental_div_mod(a as int, 2 * d);
    vstd::arithmetic::div_mod::lemma_mod_bound(a as int, 2 * d);
    assert(2 * d * n <= a < 2 * d * n + 2 * d);
    assert((2 * n - 1) * d == 2 * d * n - d) by (nonlinear_arith);
    assert((2 * n + 1) * d == 2 * d * n + d) by (nonlinear_arith);
}

/// A position is cut off at whole milliseconds: the result is never more than a
/// millisecond from the exact one.
pub proof fn law_positions_are_cut_off(mant: nat, k: nat)
    requires
        mant < 0x20_0000_0000_0000,
        k >= 20,
        millis(DoubleView::Finite(Scaled { mant, scale: -k })) < u64::MAX,
    ensures
        ({
            let n = millis(DoubleView::Finite(Scaled { mant, scale: -k }));
            &&& (n - 1) * pow2(k) <= 1_000 * mant
            &&& 1_000 * mant < (n + 2) * pow2(k)
        }),
{
    let v = Scaled { mant, scale: -k };
    let product = mant * 1_000;
    let e = excess(product);
    lemma_small_excess(product);
    let d = pow2(e) as int;
    let q = half_even(product, pow2(e)) as int;
    lemma_pow2_pos(e);
    lemma_half_even_is_near(product, pow2(e));
    let left = (k - e) as nat;
    let g = pow2(left) as int;
    lemma_pow2_pos(left);
    vstd::arithmetic::power2::lemma_pow2_adds(left, e);
    let n = millis(DoubleView::Finite(v)) as int;
    assert(n == q / g) by {
        if left == 0 {
            lemma2_to64();
            assert(q * 1 == q);
        }
    }
    vstd::arithmetic::div_mod::lemma_fundamental_div_mod(q, g);
    vstd::arithmetic::div_mod::lemma_mod_bound(q, g);
    assert(g * n <= q < g * n + g);
    let w = pow2(k) as int;
    assert(w == g * d);
    assert((n - 1) * w <= product) by (nonlinear_arith)
        requires
            w == g * d,
            g * n <= q,
            2 * (q * d) <= 2 * product + d,
            g >= 1,
            d >= 1,
    ;
    assert(product < (n + 2) * w) by (nonlinear_arith)
        requires
            w == g * d,
            q + 1 <= g * n + g,
            2 * product <= 2 * (q * d) + d,
            g >= 1,
            d >= 1,
    ;
}

proof fn lemma_small_excess(num: nat)
    requires
        num < 1_024 * mantissa_end(),
    ensures
        excess(num) <= 10,
{
    reveal_with_fuel(excess, 12);
}

} // verus!
