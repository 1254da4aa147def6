use vstd::prelude::*;

verus! {

/// A single-precision IEEE-754 number, carried by its bit pattern.
///
/// Volumes, opacities and screen positions travel through the library in this
/// form: the pattern is an integer, so every comparison below is exact.
#[derive(Debug, Clone, Copy, PartialEq, Eq, Structural)]
pub struct Single {
    pub bits: u32,
}

/// Bit pattern of `0.0`.
pub const ZERO_BITS: u32 = 0;

/// Bit pattern of `1.0`.
pub const ONE_BITS: u32 = 0x3F80_0000;

/// Whether the pattern is one of the not-a-number patterns: an exponent of all
/// ones with a non-zero fraction, under either sign.
pub open spec fn is_nan(x: Single) -> bool {
    ||| 0x7F80_0000 < x.bits < 0x8000_0000
    ||| 0xFF80_0000 < x.bits
}

/// Position of a number on the ordered number line, counted in representable
/// steps from zero. Both zeros sit at position 0; for two patterns that are not
/// NaN, the order of the positions is the order of the numbers.
pub open spec fn rank(x: Single) -> int {
    if x.bits < 0x8000_0000 {
        x.bits as int
    } else {
        0x8000_0000 - x.bits
    }
}

/// `x <= y` as numbers. False when either is NaN.
pub open spec fn le(x: Single, y: Single) -> bool {
    !is_nan(x) && !is_nan(y) && rank(x) <= rank(y)
}

/// The number pulled into `low..=high`: the nearer bound where it lies outside,
/// itself where it lies inside.
pub open spec fn clamped(x: Single, low: Single, high: Single) -> Single {
    if rank(x) < rank(low) {
        low
    } else if rank(x) > rank(high) {
        high
    } else {
        x
    }
}

impl Single {
    /// Whether this is a NaN pattern.
    pub fn is_nan(self) -> (yes: bool)
        ensures
            yes == is_nan(self),
    {
        (0x7F80_0000 < self.bits && self.bits < 0x8000_0000) || 0xFF80_0000 < self.bits
    }

    /// `self <= other` as numbers.
    pub fn le(self, other: Single) -> (yes: bool)
        ensures
            yes == le(self, other),
    {
        if self.is_nan() || other.is_nan() {
            return false;
        }
        let self_negative = self.bits >= 0x8000_0000;
        let other_negative = other.bits >= 0x8000_0000;
        if self_negative && other_negative {
            other.bits <= self.bits
        } else if self_negative {
            true
        } else if other_negative {
            self.bits == 0 && other.bits == 0x8000_0000
        } else {
            self.bits <= other.bits
        }
    }

    /// The number pulled into `low..=high`.
    pub fn clamp(self, low: Single, high: Single) -> (result: Single)
        requires
            !is_nan(self),
            le(low, high),
        ensures
            result == clamped(self, low, high),
            le(low, result) && le(result, high),
    {
        if !low.le(self) {
            low
        } else if !self.le(high) {
            high
        } else {
            self
        }
    }
}

/// Bit pattern of `0.25`.
pub const QUARTER_BITS: u32 = 0x3E80_0000;

/// Bit pattern of `0.5`.
pub const HALF_BITS: u32 = 0x3F00_0000;

/// A number from a quarter to one, in units of `1 / 0x200_0000`. Each of them is
/// a whole number of these units.
pub open spec fn units(x: Single) -> int {
    if x.bits >= ONE_BITS {
        0x200_0000
    } else if x.bits >= HALF_BITS {
        2 * (0x80_0000 + (x.bits - HALF_BITS))
    } else {
        0x80_0000 + (x.bits - QUARTER_BITS)
    }
}

/// A whole number to the nearest multiple of `step`, and halfway between two to
/// the even one.
pub open spec fn to_even(n: int, step: int) -> int {
    let down = n / step;
    let rest = n % step;
    if 2 * rest > step || 2 * rest == step && down % 2 == 1 {
        (down + 1) * step
    } else {
        down * step
    }
}

/// The distance between neighbouring single-precision numbers at a product of
/// that many units.
pub open spec fn spacing(product: int) -> int {
    if product < 0x8000_0000 {
        0x80
    } else if product < 0x1_0000_0000 {
        0x100
    } else {
        0x200
    }
}

/// 255 times a number from a quarter to one, as single precision holds the
/// product, to the nearest whole number.
pub open spec fn byte(x: Single) -> int {
    let product = 255 * units(x);
    (2 * to_even(product, spacing(product)) + 0x200_0000) / 0x400_0000
}

impl Single {
    /// 255 times the number, to the nearest whole number.
    pub fn to_byte(self) -> (alpha: u8)
        requires
            QUARTER_BITS <= self.bits <= ONE_BITS,
        ensures
            alpha == byte(self),
            63 <= byte(self) <= 255,
    {
        let n: u64 = if self.bits >= ONE_BITS {
            0x200_0000
        } else if self.bits >= HALF_BITS {
            2 * (0x80_0000 + (self.bits - HALF_BITS) as u64)
        } else {
            0x80_0000 + (self.bits - QUARTER_BITS) as u64
        };
        let product: u64 = 255 * n;
        let rounded: u64 = if product < 0x8000_0000 {
            rounded_to_even(product, 0x80)
        } else if product < 0x1_0000_0000 {
            rounded_to_even(product, 0x100)
        } else {
            rounded_to_even(product, 0x200)
        };
        ((2 * rounded + 0x200_0000) / 0x400_0000) as u8
    }
}

fn rounded_to_even(n: u64, step: u64) -> (rounded: u64)
    requires
        step == 0x80 || step == 0x100 || step == 0x200,
        n <= 0x1_FE00_0000,
    ensures
        rounded == to_even(n as int, step as int),
        rounded <= n + step,
        n <= rounded + step,
        n == 0x1_FE00_0000 ==> rounded == n,
{
    let down: u64 = n / step;
    let rest: u64 = n % step;
    proof {
        assert(down * step + rest == n) by (nonlinear_arith)
            requires
                down == n / step,
                rest == n % step,
                step > 0,
        ;
        assert((down + 1) * step == down * step + step) by (nonlinear_arith);
    }
    if 2 * rest > step || (2 * rest == step && down % 2 == 1) {
        (down + 1) * step
    } else {
        down * step
    }
}

/// A pattern stands for a number exactly where its exponent is not all ones, or its
/// fraction is zero. Among those the order is that of the numbers: by the pattern where
/// the sign is not set, against it where it is, and both zeros are the same.
pub proof fn patterns_are_ordered_as_numbers(x: Single, y: Single)
    ensures
        is_nan(x) <==> (x.bits % 0x8000_0000) > 0x7F80_0000,
        is_nan(x) || is_nan(y) ==> !le(x, y),
        !is_nan(x) && !is_nan(y) ==> {
            &&& x.bits < 0x8000_0000 && y.bits < 0x8000_0000 ==> le(x, y) == (x.bits <= y.bits)
            &&& x.bits >= 0x8000_0000 && y.bits >= 0x8000_0000 ==> le(x, y) == (y.bits <= x.bits)
            &&& x.bits >= 0x8000_0000 && y.bits < 0x8000_0000 ==> le(x, y)
            &&& x.bits < 0x8000_0000 && y.bits >= 0x8000_0000 ==> le(x, y) == (x.bits == 0 && y.bits
                == 0x8000_0000)
        },
{
}

/// A number pulled into a range is the nearest one in it.
pub proof fn clamping_gives_the_nearest(x: Single, low: Single, high: Single)
    requires
        !is_nan(x),
        le(low, high),
    ensures
        le(low, x) && le(x, high) ==> clamped(x, low, high) == x,
        !le(low, x) ==> clamped(x, low, high) == low,
        !le(x, high) ==> clamped(x, low, high) == high,
{
}

/// The units of a number from a quarter to one: a quarter, a half and one have a
/// quarter, a half and all of them, and each next pattern has one more below a half and
/// two more above.
pub proof fn units_are_proportional(x: Single)
    requires
        QUARTER_BITS <= x.bits <= ONE_BITS,
    ensures
        x.bits == 0x3E80_0000 ==> units(x) == 0x80_0000,
        x.bits == 0x3F00_0000 ==> units(x) == 0x100_0000,
        x.bits == 0x3F80_0000 ==> units(x) == 0x200_0000,
        x.bits < 0x3F00_0000 ==> units(Single { bits: (x.bits + 1) as u32 }) == units(x) + 1,
        0x3F00_0000 <= x.bits < 0x3F80_0000 ==> units(Single { bits: (x.bits + 1) as u32 }) == units(
            x,
        ) + 2,
{
}

/// The byte of a number is 255 times the number to the nearest whole one, up to what
/// single precision loses in the product.
pub proof fn byte_is_the_nearest(x: Single)
    requires
        QUARTER_BITS <= x.bits <= ONE_BITS,
    ensures
        -(0x100_0000 + 0x100) <= 0x200_0000 * byte(x) - 255 * units(x) <= 0x100_0000 + 0x100,
{
    let product = 255 * units(x);
    let step = spacing(product);
    even_multiple_is_near(product, step);
}

proof fn even_multiple_is_near(n: int, step: int)
    requires
        step == 0x80 || step == 0x100 || step == 0x200,
        0 <= n,
    ensures
        -step <= 2 * (to_even(n, step) - n) <= step,
        0 <= to_even(n, step),
{
    assert(n / step * step + n % step == n) by (nonlinear_arith)
        requires
            step > 0,
    ;
    assert((n / step + 1) * step == n / step * step + step) by (nonlinear_arith);
    assert(0 <= n / step * step) by (nonlinear_arith)
        requires
            0 <= n,
            step > 0,
    ;
}

/// The byte never falls as the number grows.
pub proof fn bytes_grow(x: Single, y: Single)
    requires
        QUARTER_BITS <= x.bits <= y.bits <= ONE_BITS,
    ensures
        byte(x) <= byte(y),
{
    let a = 255 * units(x);
    let b = 255 * units(y);
    evens_grow(a, b);
}

proof fn evens_grow(a: int, b: int)
    requires
        0 <= a <= b <= 0x1_FE00_0000,
    ensures
        to_even(a, spacing(a)) <= to_even(b, spacing(b)),
{
    let s = spacing(a);
    let t = spacing(b);
    if s == t {
        let down_a = a / s;
        let down_b = b / s;
        assert(down_a <= down_b && down_a * s + a % s == a && down_b * s + b % s == b)
            by (nonlinear_arith)
            requires
                0 <= a <= b,
                s > 0,
                down_a == a / s,
                down_b == b / s,
        ;
        if down_a < down_b {
            assert((down_a + 1) * s <= down_b * s) by (nonlinear_arith)
                requires
                    down_a + 1 <= down_b,
                    s > 0,
            ;
            assert(down_a * s <= (down_a + 1) * s && down_b * s <= (down_b + 1) * s)
                by (nonlinear_arith)
                requires
                    s > 0,
            ;
        } else {
            assert(down_a * s <= (down_a + 1) * s) by (nonlinear_arith)
                requires
                    s > 0,
            ;
        }
    } else {
        // A power of two lies between them, and is a multiple of both steps.
        let limit = if a < 0x8000_0000 {
            0x8000_0000int
        } else {
            0x1_0000_0000
        };
        even_stays_below(a, s, limit);
        even_stays_above(b, t, limit);
    }
}

proof fn even_stays_below(n: int, step: int, limit: int)
    requires
        step == 0x80 || step == 0x100 || step == 0x200,
        0 <= n < limit,
        limit == 0x8000_0000 || limit == 0x1_0000_0000,
    ensures
        to_even(n, step) <= limit,
{
    let down = n / step;
    assert((down + 1) * step <= limit && down * step <= limit) by (nonlinear_arith)
        requires
            step == 0x80 || step == 0x100 || step == 0x200,
            0 <= n < limit,
            limit == 0x8000_0000 || limit == 0x1_0000_0000,
            down == n / step,
    ;
}

proof fn even_stays_above(n: int, step: int, limit: int)
    requires
        step == 0x80 || step == 0x100 || step == 0x200,
        limit <= n,
        limit == 0x8000_0000 || limit == 0x1_0000_0000,
    ensures
        limit <= to_even(n, step),
{
    let down = n / step;
    assert(limit <= down * step && down * step <= (down + 1) * step) by (nonlinear_arith)
        requires
            step == 0x80 || step == 0x100 || step == 0x200,
            limit <= n,
            limit == 0x8000_0000 || limit == 0x1_0000_0000,
            down == n / step,
    ;
}

} // verus!
