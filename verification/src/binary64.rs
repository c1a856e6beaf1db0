//! Exact integer arithmetic for quantities that are measured in IEEE 754
//! double precision: rounding to 53 significant bits, scaling by a fixed ratio,
//! comparison against a fraction of a limit, and byte counts in binary units.

use vstd::arithmetic::div_mod::{
    lemma_div_denominator, lemma_div_is_ordered, lemma_div_multiples_vanish_quotient,
    lemma_fundamental_div_mod, lemma_fundamental_div_mod_converse, lemma_truncate_middle,
};
use vstd::arithmetic::mul::{lemma_mul_basics, lemma_mul_inequality};
use vstd::arithmetic::power2::{
    lemma2_to64, lemma2_to64_rest, lemma_pow2_adds, lemma_pow2_pos, lemma_pow2_strictly_increases,
    lemma_pow2_unfold, pow2,
};
use vstd::prelude::*;

use crate::text::{decimal, digit_char, u64_text};

verus! {

/// 2 to the power of 53: a double holds every integer below it.
pub const SIGNIFICANT: u128 = 0x20_0000_0000_0000;

/// The number of low bits of `n` that do not fit in 53 significant bits.
pub open spec fn excess_bits(n: nat) -> nat
    decreases n,
{
    if n < SIGNIFICANT {
        0
    } else {
        1 + excess_bits(n / 2)
    }
}

/// `n / d` rounded to the nearest integer, ties to the even one.
pub open spec fn half_even(n: nat, d: nat) -> nat {
    let q = n / d;
    let r = n % d;
    if 2 * r > d || (2 * r == d && q % 2 == 1) {
        q + 1
    } else {
        q
    }
}

/// The double nearest to the integer `n`, ties to the even significand.
pub open spec fn nearest(n: nat) -> nat {
    half_even(n, pow2(excess_bits(n))) * pow2(excess_bits(n))
}

fn round_quotient(n: u128, d: u128) -> (r: u128)
    requires
        0 < d <= u128::MAX / 2,
        n < u128::MAX,
    ensures
        r == half_even(n as nat, d as nat),
        r <= n / d + 1,
{
    let q: u128 = n / d;
    let rem: u128 = n % d;
    proof {
        assert(q <= n) by (nonlinear_arith)
            requires
                q == n / d,
                d > 0,
                n >= 0,
        ;
    }
    if 2 * rem > d || (2 * rem == d && q % 2 == 1) {
        q + 1
    } else {
        q
    }
}

/// Rounds an integer to the nearest double.
pub fn to_nearest(n: u128) -> (r: u128)
    requires
        n < 0x8000_0000_0000_0000_0000_0000_0000_0000,
    ensures
        r == nearest(n as nat),
        r <= 2 * n,
{
    let mut unit: u128 = 1;
    let ghost mut e: nat = 0;
    proof {
        lemma2_to64();
        assert(n as nat / 1 == n);
    }
    while n / unit >= SIGNIFICANT
        invariant
            n < 0x8000_0000_0000_0000_0000_0000_0000_0000,
            unit == pow2(e),
            0 < unit,
            unit == 1 || unit <= n,
            excess_bits(n as nat) == e + excess_bits((n as nat / unit as nat)),
        decreases n / unit,
    {
        let ghost q = n as nat / unit as nat;
        proof {
            lemma_pow2_unfold(e + 1);
            lemma_div_denominator(n as int, unit as int, 2);
            lemma_fundamental_div_mod(n as int, unit as int);
            assert(unit * 2 <= n) by (nonlinear_arith)
                requires
                    n == unit * (n as int / unit as int) + n as int % unit as int,
                    n as int % unit as int >= 0,
                    n as int / unit as int >= 2,
                    unit > 0,
            ;
            assert(q / 2 < q) by (nonlinear_arith)
                requires
                    q >= 2,
            ;
            e = e + 1;
        }
        unit = unit * 2;
    }
    proof {
        lemma_fundamental_div_mod(n as int, unit as int);
    }
    let q = round_quotient(n, unit);
    proof {
        let qq = n as int / unit as int;
        assert(q * unit <= 2 * n) by (nonlinear_arith)
            requires
                n == unit * qq + n as int % unit as int,
                0 <= (n as int % unit as int),
                (n as int % unit as int) < unit,
                q <= qq + 1,
                q >= 0,
                unit == 1 || unit <= n,
                unit == 1 ==> q <= n,
                unit > 0,
        {
            assert(q * unit <= (qq + 1) * unit);
            assert((qq + 1) * unit == unit * qq + unit);
        }
    }
    q * unit
}

/// The fractions that estimates work with, each the double nearest to it.
#[derive(Clone, Copy, Debug, PartialEq, Eq, Structural)]
pub enum Ratio {
    /// 0.05
    Percent5,
    /// 0.08
    Percent8,
    /// 0.10
    Percent10,
    /// 0.35
    Percent35,
    /// 0.50
    Percent50,
    /// 0.60
    Percent60,
    /// 0.65
    Percent65,
    /// 0.70
    Percent70,
    /// 0.85
    Percent85,
}

impl Ratio {
    /// The significand: the double is `significand / 2^shift`.
    pub open spec fn significand(self) -> nat {
        match self {
            Ratio::Percent5 => 0x1999999999999A,
            Ratio::Percent8 => 0x147AE147AE147B,
            Ratio::Percent10 => 0x1999999999999A,
            Ratio::Percent35 => 0x16666666666666,
            Ratio::Percent50 => 0x10000000000000,
            Ratio::Percent60 => 0x13333333333333,
            Ratio::Percent65 => 0x14CCCCCCCCCCCD,
            Ratio::Percent70 => 0x16666666666666,
            Ratio::Percent85 => 0x1B333333333333,
        }
    }

    /// The negated binary exponent.
    pub open spec fn shift(self) -> nat {
        match self {
            Ratio::Percent5 => 57,
            Ratio::Percent8 => 56,
            Ratio::Percent10 => 56,
            Ratio::Percent35 => 54,
            _ => 53,
        }
    }

    fn parts(self) -> (r: (u128, u32))
        ensures
            r.0 == self.significand(),
            r.1 == self.shift(),
            r.0 < SIGNIFICANT,
            r.1 <= 60,
    {
        match self {
            Ratio::Percent5 => (0x1999999999999A, 57),
            Ratio::Percent8 => (0x147AE147AE147B, 56),
            Ratio::Percent10 => (0x1999999999999A, 56),
            Ratio::Percent35 => (0x16666666666666, 54),
            Ratio::Percent50 => (0x10000000000000, 53),
            Ratio::Percent60 => (0x13333333333333, 53),
            Ratio::Percent65 => (0x14CCCCCCCCCCCD, 53),
            Ratio::Percent70 => (0x16666666666666, 53),
            Ratio::Percent85 => (0x1B333333333333, 53),
        }
    }
}

fn power_of_two(e: u32) -> (r: u128)
    requires
        e <= 60,
    ensures
        r == pow2(e as nat),
        0 < r <= 0x1000_0000_0000_0000,
{
    let mut r: u128 = 1;
    let mut i: u32 = 0;
    proof {
        lemma2_to64();
    }
    while i < e
        invariant
            i <= e <= 60,
            r == pow2(i as nat),
            0 < r <= 0x1000_0000_0000_0000,
        decreases e - i,
    {
        proof {
            lemma_pow2_unfold((i + 1) as nat);
            if i + 1 < 60 {
                lemma_pow2_strictly_increases((i + 1) as nat, 60);
            }
            lemma2_to64_rest();
        }
        r = r * 2;
        i = i + 1;
    }
    r
}

/// The product of the double nearest to `n` and the ratio, itself rounded to a
/// double and multiplied by `2^shift`.
pub open spec fn scaled(n: nat, ratio: Ratio) -> nat {
    nearest(nearest(n) * ratio.significand())
}

fn scaled_product(n: u64, ratio: Ratio) -> (r: u128)
    ensures
        r == scaled(n as nat, ratio),
        r <= 4 * 0x1_0000_0000_0000_0000 * SIGNIFICANT,
{
    let whole = to_nearest(n as u128);
    let m: u128 = ratio.parts().0;
    assert(whole * m <= 2 * 0x1_0000_0000_0000_0000 * SIGNIFICANT) by (nonlinear_arith)
        requires
            whole <= 2 * n,
            n <= u64::MAX,
            m < SIGNIFICANT,
    ;
    to_nearest(whole * m)
}

/// `bytes` times `ratio` in double precision, rounded up to an integer.
pub open spec fn scaled_up(bytes: nat, ratio: Ratio) -> nat {
    let unit = pow2(ratio.shift());
    (scaled(bytes, ratio) + unit - 1) as nat / unit
}

/// Multiplies in double precision and rounds up, saturating at the largest `u64`.
pub fn scale_bytes(bytes: u64, factor: Ratio) -> (r: u64)
    ensures
        r == if scaled_up(bytes as nat, factor) <= u64::MAX {
            scaled_up(bytes as nat, factor)
        } else {
            u64::MAX as nat
        },
{
    let product = scaled_product(bytes, factor);
    let unit = power_of_two(factor.parts().1);
    let up: u128 = (product + (unit - 1)) / unit;
    if up <= u64::MAX as u128 {
        up as u64
    } else {
        u64::MAX
    }
}

/// Whether the double nearest to `n` is at most the double product of `limit`
/// and `ratio`.
pub open spec fn within(n: nat, limit: nat, ratio: Ratio) -> bool {
    nearest(n) * pow2(ratio.shift()) <= scaled(limit, ratio)
}

pub fn is_within(n: u64, limit: u64, ratio: Ratio) -> (r: bool)
    ensures
        r == within(n as nat, limit as nat, ratio),
{
    let bound = scaled_product(limit, ratio);
    let whole = to_nearest(n as u128);
    let unit = power_of_two(ratio.parts().1);
    assert(whole * unit <= 2 * 0x1_0000_0000_0000_0000 * 0x1000_0000_0000_0000) by (nonlinear_arith)
        requires
            whole <= 2 * n,
            n <= u64::MAX,
            unit <= 0x1000_0000_0000_0000,
    ;
    whole * unit <= bound
}

// ---------------------------------------------------------------------------
// Rounding and scaling keep the order
// ---------------------------------------------------------------------------

proof fn lemma_significant()
    ensures
        SIGNIFICANT == pow2(53),
        SIGNIFICANT == 2 * pow2(52),
        pow2(0) == 1,
{
    lemma2_to64_rest();
    lemma2_to64();
    lemma_pow2_unfold(53);
}

proof fn lemma_excess_bits(n: nat)
    ensures
        n / pow2(excess_bits(n)) < SIGNIFICANT,
        excess_bits(n) > 0 ==> n / pow2(excess_bits(n)) >= pow2(52),
    decreases n,
{
    lemma_significant();
    if n < SIGNIFICANT {
        assert(n / 1 == n);
    } else {
        let e = excess_bits(n / 2);
        lemma_excess_bits(n / 2);
        lemma_pow2_unfold(e + 1);
        lemma_pow2_pos(e);
        lemma_div_denominator(n as int, 2, pow2(e) as int);
        assert(n / pow2(e + 1) == (n / 2) / pow2(e));
        if e == 0 {
            assert((n / 2) / 1 == n / 2);
        }
    }
}

proof fn lemma_excess_bits_grow(a: nat, b: nat)
    requires
        a <= b,
    ensures
        excess_bits(a) <= excess_bits(b),
    decreases b,
{
    if b >= SIGNIFICANT && a >= SIGNIFICANT {
        lemma_excess_bits_grow(a / 2, b / 2);
    }
}

proof fn lemma_half_even_grows(a: nat, b: nat, d: nat)
    requires
        a <= b,
        d > 0,
    ensures
        half_even(a, d) <= half_even(b, d),
{
    lemma_fundamental_div_mod(a as int, d as int);
    lemma_fundamental_div_mod(b as int, d as int);
    let qa = a as int / d as int;
    let qb = b as int / d as int;
    assert(qa <= qb) by {
        lemma_div_is_ordered(a as int, b as int, d as int);
    }
    if qa == qb {
        assert(a as int % d as int <= b as int % d as int);
    }
}

/// Rounding to a double keeps the order of integers.
pub proof fn rounding_keeps_the_order(a: nat, b: nat)
    requires
        a <= b,
    ensures
        nearest(a) <= nearest(b),
{
    let ea = excess_bits(a);
    let eb = excess_bits(b);
    lemma_excess_bits(a);
    lemma_excess_bits(b);
    lemma_excess_bits_grow(a, b);
    lemma_pow2_pos(ea);
    lemma_pow2_pos(eb);
    if ea == eb {
        lemma_half_even_grows(a, b, pow2(ea));
        lemma_mul_inequality(
            half_even(a, pow2(ea)) as int,
            half_even(b, pow2(ea)) as int,
            pow2(ea) as int,
        );
    } else {
        lemma_significant();
        let up = half_even(a, pow2(ea));
        let down = half_even(b, pow2(eb));
        assert(up <= pow2(53));
        assert(down >= pow2(52));
        lemma_mul_inequality(up as int, pow2(53) as int, pow2(ea) as int);
        lemma_mul_inequality(pow2(52) as int, down as int, pow2(eb) as int);
        lemma_pow2_adds(53, ea);
        lemma_pow2_adds(52, eb);
        if 53 + ea < 52 + eb {
            lemma_pow2_strictly_increases(53 + ea, 52 + eb);
        }
    }
}

/// Twice a number rounds to twice what the number rounds to.
proof fn lemma_nearest_doubles(n: nat)
    ensures
        nearest(2 * n) == 2 * nearest(n),
{
    lemma_significant();
    let e = excess_bits(n);
    assert((2 * n) / 2 == n);
    if 2 * n < SIGNIFICANT {
        assert(n / 1 == n && (2 * n) / 1 == 2 * n);
        assert(n % 1 == 0 && (2 * n) % 1 == 0);
        assert(half_even(n, 1) == n && half_even(2 * n, 1) == 2 * n);
        lemma_mul_basics(n as int);
        lemma_mul_basics(2 * n as int);
    } else {
        assert(excess_bits(2 * n) == 1 + e);
        lemma_pow2_unfold(e + 1);
        lemma_pow2_pos(e);
        let d = pow2(e);
        lemma_truncate_middle(n as int, 2, d as int);
        lemma_div_multiples_vanish_quotient(2, n as int, d as int);
        assert((2 * n) / (2 * d) == n / d);
        assert((2 * n) % (2 * d) == 2 * (n % d));
        assert(half_even(2 * n, 2 * d) == half_even(n, d));
        let h = half_even(n, d);
        assert(h * (2 * d) == 2 * (h * d)) by (nonlinear_arith);
        assert(pow2(excess_bits(2 * n)) == 2 * d);
    }
}

/// A larger number is within no limit that a smaller one is not within, and a
/// larger limit leaves out nothing that a smaller one lets in.
pub proof fn limits_keep_the_order(a: nat, b: nat, low: nat, high: nat, ratio: Ratio)
    requires
        a <= b,
        low <= high,
        within(b, low, ratio),
    ensures
        within(a, high, ratio),
{
    rounding_keeps_the_order(a, b);
    lemma_scaled_grows(low, high, ratio);
    lemma_mul_inequality(nearest(a) as int, nearest(b) as int, pow2(ratio.shift()) as int);
}

proof fn lemma_scaled_grows(a: nat, b: nat, ratio: Ratio)
    requires
        a <= b,
    ensures
        scaled(a, ratio) <= scaled(b, ratio),
{
    rounding_keeps_the_order(a, b);
    lemma_mul_inequality(nearest(a) as int, nearest(b) as int, ratio.significand() as int);
    rounding_keeps_the_order(nearest(a) * ratio.significand(), nearest(b) * ratio.significand());
}

/// Sixty parts in a hundred are never fewer than thirty-five.
pub proof fn lemma_larger_share(bytes: nat)
    ensures
        scaled_up(bytes, Ratio::Percent35) <= scaled_up(bytes, Ratio::Percent60),
{
    let x = nearest(bytes);
    let small = Ratio::Percent35.significand();
    let large = Ratio::Percent60.significand();
    assert(small <= 2 * large);
    assert(x * small <= 2 * (x * large)) by (nonlinear_arith)
        requires
            small <= 2 * large,
    ;
    rounding_keeps_the_order(x * small, 2 * (x * large));
    lemma_nearest_doubles(x * large);
    let unit = pow2(Ratio::Percent60.shift());
    lemma_pow2_pos(Ratio::Percent60.shift());
    lemma_pow2_unfold(Ratio::Percent35.shift());
    let a = scaled(bytes, Ratio::Percent35);
    let b = scaled(bytes, Ratio::Percent60);
    assert(a <= 2 * b);
    lemma_div_is_ordered(
        (a + 2 * unit - 1) as int,
        (2 * (b + unit - 1) + 1) as int,
        (2 * unit) as int,
    );
    lemma_div_denominator((2 * (b + unit - 1) + 1) as int, 2, unit as int);
    assert((2 * (b + unit - 1) + 1) / 2 == b + unit - 1);
}

/// Rounding moves a number by one part in 2 to the power of 53 at most.
pub proof fn rounding_is_close(n: nat)
    ensures
        nearest(n) * SIGNIFICANT <= n * (SIGNIFICANT + 1),
        n * (SIGNIFICANT - 1) <= nearest(n) * SIGNIFICANT,
        n < SIGNIFICANT ==> nearest(n) == n,
{
    let e = excess_bits(n);
    let d = pow2(e) as int;
    lemma_significant();
    lemma_excess_bits(n);
    lemma_pow2_pos(e);
    lemma_fundamental_div_mod(n as int, d);
    let q = n as int / d;
    let r = n as int % d;
    let h = half_even(n, pow2(e)) as int;
    let big = SIGNIFICANT as int;
    lemma_mul_basics(n as int);
    if e == 0 {
        assert(d == 1);
        assert(n as int % 1 == 0);
        assert(n as int / 1 == n);
        assert(h == n);
        assert(nearest(n) == n);
        assert(n * (big + 1) == n * big + n) by (nonlinear_arith);
        assert(n * (big - 1) == n * big - n) by (nonlinear_arith);
    } else {
        assert(q >= pow2(52));
        assert(n == d * q + r);
        assert(h == q || h == q + 1);
        assert(2 * (h * d - n) <= d && 2 * (n - h * d) <= d) by (nonlinear_arith)
            requires
                n == d * q + r,
                0 <= r < d,
                (h == q && 2 * r <= d) || (h == q + 1 && 2 * r >= d),
        ;
        assert(2 * n >= d * big) by (nonlinear_arith)
            requires
                n == d * q + r,
                0 <= r,
                d > 0,
                2 * q >= big,
        ;
        let m = h * d;
        assert(nearest(n) == m);
        assert(m * big <= n * (big + 1)) by (nonlinear_arith)
            requires
                2 * (m - n) <= d,
                2 * n >= d * big,
                big > 0,
        ;
        assert(n * (big - 1) <= m * big) by (nonlinear_arith)
            requires
                2 * (n - m) <= d,
                2 * n >= d * big,
                big > 0,
        ;
    }
}

impl Ratio {
    /// How many parts in a hundred a ratio is.
    pub open spec fn percent(self) -> nat {
        match self {
            Ratio::Percent5 => 5,
            Ratio::Percent8 => 8,
            Ratio::Percent10 => 10,
            Ratio::Percent35 => 35,
            Ratio::Percent50 => 50,
            Ratio::Percent60 => 60,
            Ratio::Percent65 => 65,
            Ratio::Percent70 => 70,
            Ratio::Percent85 => 85,
        }
    }
}

proof fn lemma_ratio_is_close(ratio: Ratio)
    ensures
        pow2(ratio.shift()) >= SIGNIFICANT,
        100 * ratio.significand() <= ratio.percent() * pow2(ratio.shift()) + 50,
        ratio.percent() * pow2(ratio.shift()) <= 100 * ratio.significand() + 50,
        ratio.significand() < SIGNIFICANT,
{
    lemma2_to64_rest();
}

proof fn lemma_scaled_is_close(bytes: nat, ratio: Ratio)
    requires
        bytes < SIGNIFICANT,
    ensures
        100 * scaled(bytes, ratio) <= ratio.percent() * bytes * pow2(ratio.shift()) + 150 * bytes,
        ratio.percent() * bytes * pow2(ratio.shift()) <= 100 * scaled(bytes, ratio) + 150 * bytes,
{
    lemma_ratio_is_close(ratio);
    rounding_is_close(bytes);
    let sig = ratio.significand() as int;
    let big = SIGNIFICANT as int;
    let unit = pow2(ratio.shift()) as int;
    let percent = ratio.percent() as int;
    let b = bytes as int;
    let p = bytes * ratio.significand();
    rounding_is_close(p);
    let s = scaled(bytes, ratio) as int;
    assert(s == nearest(p));
    assert(p <= b * big) by (nonlinear_arith)
        requires
            p == b * sig,
            sig < big,
            b >= 0,
    ;
    assert(s <= p + b) by (nonlinear_arith)
        requires
            s * big <= p * (big + 1),
            p <= b * big,
            big > 0,
    ;
    assert(p <= s + b) by (nonlinear_arith)
        requires
            p * (big - 1) <= s * big,
            p <= b * big,
            big > 0,
    ;
    assert(100 * p <= percent * b * unit + 50 * b) by (nonlinear_arith)
        requires
            p == b * sig,
            100 * sig <= percent * unit + 50,
            b >= 0,
    ;
    assert(percent * b * unit <= 100 * p + 50 * b) by (nonlinear_arith)
        requires
            p == b * sig,
            percent * unit <= 100 * sig + 50,
            b >= 0,
    ;
}

/// A share is what its name says, to within three bytes: so many parts in a hundred.
pub proof fn shares_are_what_they_say(bytes: nat, ratio: Ratio)
    requires
        bytes < SIGNIFICANT,
    ensures
        100 * scaled_up(bytes, ratio) <= ratio.percent() * bytes + 250,
        ratio.percent() * bytes <= 100 * scaled_up(bytes, ratio) + 150,
{
    lemma_ratio_is_close(ratio);
    lemma_scaled_is_close(bytes, ratio);
    let unit = pow2(ratio.shift()) as int;
    let s = scaled(bytes, ratio) as int;
    let up = scaled_up(bytes, ratio) as int;
    let b = bytes as int;
    let want = ratio.percent() as int * b;
    lemma_fundamental_div_mod(s + unit - 1, unit);
    assert(up == (s + unit - 1) / unit);
    let rest = (s + unit - 1) % unit;
    assert(0 <= rest < unit);
    assert(s <= unit * up <= s + unit);
    assert(ratio.percent() * bytes * pow2(ratio.shift()) == want * unit);
    assert(100 * up <= want + 250) by (nonlinear_arith)
        requires
            unit * up <= s + unit,
            100 * s <= want * unit + 150 * b,
            b <= unit,
            unit > 0,
    ;
    assert(want <= 100 * up + 150) by (nonlinear_arith)
        requires
            s <= unit * up,
            want * unit <= 100 * s + 150 * b,
            b <= unit,
            unit > 0,
    ;
}

/// A number is within a share of a limit where it is clearly less, and is not where it
/// is clearly more.
pub proof fn limits_are_what_they_say(n: nat, limit: nat, ratio: Ratio)
    requires
        n < SIGNIFICANT,
        limit < SIGNIFICANT,
    ensures
        within(n, limit, ratio) ==> 100 * n <= ratio.percent() * limit + 150,
        100 * n + 150 <= ratio.percent() * limit ==> within(n, limit, ratio),
{
    lemma_ratio_is_close(ratio);
    lemma_scaled_is_close(limit, ratio);
    rounding_is_close(n);
    let unit = pow2(ratio.shift()) as int;
    let s = scaled(limit, ratio) as int;
    let b = limit as int;
    let x = n as int;
    let want = ratio.percent() as int * b;
    assert(ratio.percent() * limit * pow2(ratio.shift()) == want * unit);
    if within(n, limit, ratio) {
        assert(100 * x <= want + 150) by (nonlinear_arith)
            requires
                x * unit <= s,
                100 * s <= want * unit + 150 * b,
                b <= unit,
                unit > 0,
        ;
    }
    if 100 * x + 150 <= want {
        assert(x * unit <= s) by (nonlinear_arith)
            requires
                100 * x + 150 <= want,
                want * unit <= 100 * s + 150 * b,
                b <= unit,
                unit > 0,
        ;
    }
}

// ---------------------------------------------------------------------------
// Byte counts in binary units
// ---------------------------------------------------------------------------

pub const KIB: u64 = 1024;

pub const MIB: u64 = 1024 * 1024;

pub const GIB: u64 = 1024 * 1024 * 1024;

pub const TIB: u64 = 1024 * 1024 * 1024 * 1024;

/// `n / d` with two decimals.
pub open spec fn two_decimals(n: nat, d: nat) -> Seq<char> {
    let h = half_even(n * 100, d);
    decimal(h / 100) + "."@ + seq![
        digit_char((h % 100 / 10) as int),
        digit_char((h % 10) as int),
    ]
}

/// A byte count in the largest binary unit up to TiB that it reaches: whole
/// bytes, or two decimals.
pub open spec fn bytes_text(bytes: nat) -> Seq<char> {
    let v = nearest(bytes);
    if v < KIB {
        decimal(v) + " B"@
    } else if v < MIB {
        two_decimals(v, KIB as nat) + " KiB"@
    } else if v < GIB {
        two_decimals(v, MIB as nat) + " MiB"@
    } else if v < TIB {
        two_decimals(v, GIB as nat) + " GiB"@
    } else {
        two_decimals(v, TIB as nat) + " TiB"@
    }
}

fn format_two_decimals(n: u128, d: u64, unit: &str) -> (r: String)
    requires
        n <= 0x2_0000_0000_0000_0000,
        KIB <= d <= TIB,
        n < 1024 * d || d == TIB,
    ensures
        r@ == two_decimals(n as nat, d as nat) + unit@,
{
    let scaled: u128 = n * 100;
    let d: u128 = d as u128;
    proof {
        assert(scaled / d <= 0x8000_0000_0000) by (nonlinear_arith)
            requires
                scaled == n * 100,
                n <= 0x2_0000_0000_0000_0000,
                n < 1024 * d || d == 0x100_0000_0000,
                1024 <= d,
        {
            lemma_fundamental_div_mod(scaled as int, d as int);
        }
    }
    let h: u64 = round_quotient(scaled, d) as u64;
    let mut r = u64_text(h / 100);
    r.push_str(".");
    let cents: u64 = h % 100;
    r.push(((cents / 10) as u8 + 48u8) as char);
    r.push(((cents % 10) as u8 + 48u8) as char);
    assert(cents % 10 == h % 10);
    assert(r@ =~= two_decimals(n as nat, d as nat));
    r.push_str(unit);
    r
}

/// Renders a byte count the way the reports show it.
pub fn format_bytes(bytes: u64) -> (r: String)
    ensures
        r@ == bytes_text(bytes as nat),
{
    let v: u128 = to_nearest(bytes as u128);
    if v < 1024 {
        let mut r = u64_text(v as u64);
        r.push_str(" B");
        r
    } else if v < MIB as u128 {
        format_two_decimals(v, KIB, " KiB")
    } else if v < GIB as u128 {
        format_two_decimals(v, MIB, " MiB")
    } else if v < TIB as u128 {
        format_two_decimals(v, GIB, " GiB")
    } else {
        format_two_decimals(v, TIB, " TiB")
    }
}

/// A count that is unknown, or zero, is shown as `unknown`.
pub open spec fn optional_bytes_text(bytes: Option<u64>) -> Seq<char> {
    match bytes {
        Some(n) => if n > 0 {
            bytes_text(n as nat)
        } else {
            "unknown"@
        },
        None => "unknown"@,
    }
}

pub fn format_optional_bytes(bytes: Option<u64>) -> (r: String)
    ensures
        r@ == optional_bytes_text(bytes),
{
    match bytes {
        Some(n) => if n > 0 {
            format_bytes(n)
        } else {
            "unknown".to_owned()
        },
        None => "unknown".to_owned(),
    }
}

// ---------------------------------------------------------------------------
// Saturating arithmetic
// ---------------------------------------------------------------------------

/// The smaller of `n` and the largest `u64`.
pub open spec fn saturated(n: nat) -> nat {
    if n <= u64::MAX {
        n
    } else {
        u64::MAX as nat
    }
}

/// Saturating multiplication.
pub fn saturating_times(a: u64, b: u64) -> (r: u64)
    ensures
        r == saturated(a as nat * b as nat),
{
    assert(a * b <= 0xffff_ffff_ffff_ffff * 0xffff_ffff_ffff_ffff) by (nonlinear_arith)
        requires
            a <= 0xffff_ffff_ffff_ffff,
            b <= 0xffff_ffff_ffff_ffff,
    ;
    let p: u128 = (a as u128) * (b as u128);
    if p <= u64::MAX as u128 {
        p as u64
    } else {
        u64::MAX
    }
}

/// A byte count is told in the largest unit that it holds a whole one of.
pub proof fn byte_texts_name_the_largest_unit(bytes: nat)
    requires
        bytes < SIGNIFICANT,
    ensures
        bytes < 1024 ==> bytes_text(bytes) == decimal(bytes) + " B"@,
        1024 <= bytes < 1048576 ==> bytes_text(bytes) == two_decimals(bytes, 1024) + " KiB"@,
        1048576 <= bytes < 1073741824 ==> bytes_text(bytes) == two_decimals(bytes, 1048576)
            + " MiB"@,
        1073741824 <= bytes < 1099511627776 ==> bytes_text(bytes) == two_decimals(bytes, 1073741824)
            + " GiB"@,
        1099511627776 <= bytes ==> bytes_text(bytes) == two_decimals(bytes, 1099511627776)
            + " TiB"@,
        optional_bytes_text(None) == "unknown"@,
        optional_bytes_text(Some(0)) == "unknown"@,
{
    rounding_is_close(bytes);
}

/// Rounding goes to the nearest, and from the middle to the even one.
pub proof fn halves_go_to_the_even(q: nat, d: nat, r: nat)
    requires
        r < d,
    ensures
        2 * r < d ==> half_even(q * d + r, d) == q,
        2 * r > d ==> half_even(q * d + r, d) == q + 1,
        2 * r == d && q % 2 == 0 ==> half_even(q * d + r, d) == q,
        2 * r == d && q % 2 == 1 ==> half_even(q * d + r, d) == q + 1,
{
    lemma_fundamental_div_mod_converse((q * d + r) as int, d as int, q as int, r as int);
}

} // verus!
