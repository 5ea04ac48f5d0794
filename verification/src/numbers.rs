//! Numbers as bit patterns: little-endian integers, and what each element type is as
//! a 32-bit float.

use vstd::arithmetic::power2;
use vstd::prelude::*;

verus! {

// -------------------------------------------------------------------- integers

/// The value of a run of bytes, lowest first.
pub open spec fn le_value(bytes: Seq<u8>) -> nat
    decreases bytes.len(),
{
    if bytes.len() == 0 {
        0
    } else {
        bytes[0] as nat + 256 * le_value(bytes.drop_first())
    }
}

proof fn lemma_le_bound(bytes: Seq<u8>)
    ensures
        le_value(bytes) < power2::pow2((8 * bytes.len()) as nat),
    decreases bytes.len(),
{
    power2::lemma2_to64();
    if bytes.len() > 0 {
        let rest = bytes.drop_first();
        lemma_le_bound(rest);
        power2::lemma_pow2_adds(8, (8 * rest.len()) as nat);
        assert(8 + 8 * rest.len() == 8 * bytes.len());
    }
}

/// The value of `width` bytes from `at` on.
pub fn le_uint(bytes: &[u8], at: usize, width: usize) -> (r: u64)
    requires
        at + width <= bytes@.len(),
        width <= 8,
    ensures
        r == le_value(bytes@.subrange(at as int, at + width)),
{
    let have: usize = bytes.len();
    let mut value: u64 = 0;
    let mut i: usize = width;
    let ghost run = bytes@.subrange(at as int, at + width);
    assert(run.skip(width as int) =~= Seq::<u8>::empty());
    while i > 0
        invariant
            i <= width <= 8,
            at + width <= bytes@.len(),
            have == bytes@.len(),
            run == bytes@.subrange(at as int, at + width),
            value == le_value(run.skip(i as int)),
        decreases i,
    {
        i -= 1;
        proof {
            let rest = run.skip(i as int);
            assert(rest.drop_first() =~= run.skip(i as int + 1));
            assert(rest[0] == bytes@[at + i]);
            lemma_le_bound(rest);
            power2::lemma2_to64();
            power2::lemma2_to64_rest();
            if 8 * rest.len() < 64 {
                power2::lemma_pow2_strictly_increases((8 * rest.len()) as nat, 64);
            }
        }
        value = bytes[at + i] as u64 + 256 * value;
    }
    assert(run.skip(0) =~= run);
    value
}

/// The bytes of `value`, lowest first.
pub open spec fn le_bytes(value: nat, width: nat) -> Seq<u8>
    decreases width,
{
    if width == 0 {
        Seq::empty()
    } else {
        seq![(value % 256) as u8] + le_bytes(value / 256, (width - 1) as nat)
    }
}

/// Reading back the bytes of a value gives the value.
pub proof fn law_le_bytes_read_back(value: nat, width: nat)
    requires
        value < power2::pow2(8 * width),
    ensures
        le_bytes(value, width).len() == width,
        le_value(le_bytes(value, width)) == value,
    decreases width,
{
    power2::lemma2_to64();
    if width > 0 {
        let less = (width - 1) as nat;
        power2::lemma_pow2_adds(8, 8 * less);
        assert(8 + 8 * less == 8 * width);
        assert(value / 256 < power2::pow2(8 * less)) by (nonlinear_arith)
            requires
                value < 256 * power2::pow2(8 * less),
        ;
        law_le_bytes_read_back(value / 256, less);
        assert(le_bytes(value, width).drop_first() =~= le_bytes(value / 256, less));
    }
}

/// A value of `bits` bits read as a two's complement number.
pub open spec fn signed(value: int, bits: nat) -> int {
    if 2 * value >= power2::pow2(bits) {
        value - power2::pow2(bits)
    } else {
        value
    }
}

// ---------------------------------------------------------------------- rounding

/// How many bits a number takes.
pub open spec fn bit_length(a: nat) -> nat
    decreases a,
{
    if a == 0 {
        0
    } else {
        1 + bit_length(a / 2)
    }
}

/// `a / d`, rounded to the nearest integer, halves to the even one.
pub open spec fn nearest(a: int, d: int) -> int {
    let q = a / d;
    let r = a % d;
    if 2 * r > d || (2 * r == d && q % 2 == 1) {
        q + 1
    } else {
        q
    }
}

proof fn lemma_bit_length(a: nat, n: nat)
    requires
        n > 0,
        power2::pow2((n - 1) as nat) <= a < power2::pow2(n),
    ensures
        bit_length(a) == n,
    decreases n,
{
    power2::lemma2_to64();
    if n == 1 {
        assert(bit_length(a / 2) == 0);
    } else {
        power2::lemma_pow2_adds(1, (n - 1) as nat);
        power2::lemma_pow2_adds(1, (n - 2) as nat);
        lemma_bit_length(a / 2, (n - 1) as nat);
    }
}

/// A number's bits, and one past what so many bits hold.
fn measure(a: u64) -> (r: (u32, u128))
    requires
        a > 0,
    ensures
        r.0 == bit_length(a as nat),
        r.1 == power2::pow2(r.0 as nat),
        1 <= r.0 <= 64,
        power2::pow2((r.0 - 1) as nat) <= a < power2::pow2(r.0 as nat),
{
    let mut n: u32 = 1;
    let mut p: u128 = 2;
    proof {
        power2::lemma2_to64();
        power2::lemma2_to64_rest();
    }
    while p <= a as u128
        invariant
            1 <= n <= 64,
            p == power2::pow2(n as nat),
            power2::pow2((n - 1) as nat) <= a,
            power2::pow2(64) == 0x10000000000000000,
        decreases 65 - n,
    {
        proof {
            if n == 64 {
                assert(false);
            }
            power2::lemma_pow2_adds(1, n as nat);
            assert(power2::pow2(1) == 2) by {
                power2::lemma2_to64();
            }
        }
        p = p * 2;
        n = n + 1;
    }
    proof {
        lemma_bit_length(a as nat, n as nat);
    }
    (n, p)
}

fn nearest_of(a: u128, d: u128) -> (r: u128)
    requires
        0 < d <= 0x10000000000000000,
        a <= 0x10000000000000000,
    ensures
        r == nearest(a as int, d as int),
{
    let q: u128 = a / d;
    let rest: u128 = a % d;
    proof {
        vstd::arithmetic::div_mod::lemma_fundamental_div_mod(a as int, d as int);
        assert(q <= a) by (nonlinear_arith)
            requires
                q == a / d,
                d > 0,
        ;
    }
    if 2 * rest > d || (2 * rest == d && q % 2 == 1) {
        q + 1
    } else {
        q
    }
}

/// 24 significant bits of `a`, leading one included: exact where they suffice, else
/// the nearest.
pub open spec fn significand(a: nat) -> int {
    let n = bit_length(a);
    if n <= 24 {
        (a * power2::pow2((24 - n) as nat)) as int
    } else {
        nearest(a as int, power2::pow2((n - 24) as nat) as int)
    }
}

/// The 32-bit float nearest to an integer, as bits.
pub open spec fn float_of_int(v: int) -> u32 {
    if v == 0 {
        0
    } else {
        let a = if v < 0 {
            (-v) as nat
        } else {
            v as nat
        };
        let magnitude = (bit_length(a) + 125) * 0x800000 + significand(a);
        (if v < 0 {
            0x80000000 + magnitude
        } else {
            magnitude
        }) as u32
    }
}

proof fn lemma_nearest_bounds(a: int, d: int, low: int, high: int)
    requires
        d > 0,
        low * d <= a < high * d,
    ensures
        low <= nearest(a, d) <= high,
{
    vstd::arithmetic::div_mod::lemma_fundamental_div_mod(a, d);
    assert(low <= a / d < high) by (nonlinear_arith)
        requires
            low * d <= a < high * d,
            a == d * (a / d) + a % d,
            0 <= a % d < d,
            d > 0,
    ;
}

/// The 32-bit float nearest to an integer of magnitude `a`, as bits.
fn float_magnitude(a: u64) -> (r: u32)
    requires
        0 < a,
    ensures
        r == (bit_length(a as nat) + 125) * 0x800000 + significand(a as nat),
        r < 0x80000000,
{
    let (n, p) = measure(a);
    proof {
        power2::lemma2_to64();
        power2::lemma2_to64_rest();
    }
    let sig: u128 = if n <= 24 {
        let up: u128 = 0x1000000 / p;
        proof {
            power2::lemma_pow2_adds(n as nat, (24 - n) as nat);
            let scale = power2::pow2((24 - n) as nat) as int;
            assert(up == scale) by (nonlinear_arith)
                requires
                    up == 0x1000000int / (p as int),
                    p * scale == 0x1000000,
                    p > 0,
            ;
            power2::lemma_pow2_adds((n - 1) as nat, (24 - n) as nat);
            assert(n - 1 + (24 - n) == 23);
            assert(power2::pow2((n - 1) as nat) * scale <= a * scale < p * scale)
                by (nonlinear_arith)
                requires
                    power2::pow2((n - 1) as nat) <= a < p,
                    scale > 0,
            ;
            assert(a * up == a * scale);
        }
        a as u128 * up
    } else {
        let down: u128 = p / 0x1000000;
        proof {
            let scale = power2::pow2((n - 24) as nat) as int;
            power2::lemma_pow2_adds((n - 24) as nat, 24);
            assert(down == scale) by (nonlinear_arith)
                requires
                    down == (p as int) / 0x1000000,
                    scale * 0x1000000 == p,
            ;
            power2::lemma_pow2_adds((n - 24) as nat, 23);
            assert(n - 24 + 23 == n - 1);
            if n < 64 {
                power2::lemma_pow2_strictly_increases(n as nat, 64);
            }
            lemma_nearest_bounds(a as int, scale, 0x800000, 0x1000000);
        }
        nearest_of(a as u128, down)
    };
    (n + 125) * 0x800000 + sig as u32
}

/// The 32-bit float nearest to an integer, as bits.
pub fn int_to_float(v: i64) -> (r: u32)
    ensures
        r == float_of_int(v as int),
{
    if v == 0 {
        0
    } else if v < 0 {
        let a: u64 = (-(v as i128)) as u64;
        0x80000000 + float_magnitude(a)
    } else {
        float_magnitude(v as u64)
    }
}

// ------------------------------------------------------------------------ floats

/// The sign of a 32-bit float.
pub open spec fn sign_bit(negative: bool) -> int {
    if negative {
        0x80000000
    } else {
        0
    }
}

/// The infinity of 32-bit floats, and their quiet not-a-number.
pub const INFINITY_BITS: u32 = 0x7f800000;

pub const NAN_BITS: u32 = 0x7fc00000;

/// A 64-bit float's exponent field.
pub open spec fn double_exponent(bits: u64) -> int {
    (bits as int / 0x10000000000000) % 2048
}

/// A 64-bit float's fraction field.
pub open spec fn double_fraction(bits: u64) -> int {
    bits as int % 0x10000000000000
}

/// A finite 64-bit float's magnitude as a 32-bit float: the nearest one, infinity where
/// that is out of range. Below the smallest normal float the nearest multiple of the
/// smallest subnormal one.
pub open spec fn narrowed_magnitude(exponent: int, fraction: int) -> int {
    let full = 0x10000000000000 + fraction;
    if exponent == 0 {
        0
    } else if exponent < 897 {
        nearest(full, power2::pow2((926 - exponent) as nat) as int)
    } else {
        let bits = (exponent - 897) * 0x800000 + nearest(full, 0x20000000);
        if bits > INFINITY_BITS {
            INFINITY_BITS as int
        } else {
            bits
        }
    }
}

/// A 64-bit float as a 32-bit float, as bits.
pub open spec fn float_of_double(bits: u64) -> u32 {
    let negative = bits >= 0x8000000000000000;
    let exponent = double_exponent(bits);
    let fraction = double_fraction(bits);
    (sign_bit(negative) + if exponent == 2047 {
        if fraction == 0 {
            INFINITY_BITS as int
        } else {
            NAN_BITS as int
        }
    } else {
        narrowed_magnitude(exponent, fraction)
    }) as u32
}

/// What lies below half the smallest subnormal float is nearest to zero.
proof fn lemma_vanishes(full: int, shift: nat)
    requires
        0 <= full < 0x20000000000000,
        shift >= 54,
    ensures
        nearest(full, power2::pow2(shift) as int) == 0,
{
    power2::lemma2_to64();
    power2::lemma2_to64_rest();
    if shift > 54 {
        power2::lemma_pow2_strictly_increases(54, shift);
    }
    let d = power2::pow2(shift) as int;
    assert(full / d == 0 && full % d == full) by (nonlinear_arith)
        requires
            0 <= full < d,
    ;
}

/// `2` to the `n`.
fn power_of_two(n: u32) -> (r: u128)
    requires
        n <= 64,
    ensures
        r == power2::pow2(n as nat),
        1 <= r <= 0x10000000000000000,
{
    proof {
        power2::lemma2_to64();
        power2::lemma2_to64_rest();
    }
    let mut p: u128 = 1;
    let mut i: u32 = 0;
    while i < n
        invariant
            i <= n <= 64,
            p == power2::pow2(i as nat),
            1 <= p,
            power2::pow2(64) == 0x10000000000000000,
            power2::pow2(1) == 2,
        decreases n - i,
    {
        proof {
            power2::lemma_pow2_adds(1, i as nat);
            power2::lemma_pow2_strictly_increases(i as nat, 64);
        }
        p = p * 2;
        i = i + 1;
    }
    proof {
        if n < 64 {
            power2::lemma_pow2_strictly_increases(n as nat, 64);
        }
    }
    p
}

/// A 64-bit float as a 32-bit float, as bits.
pub fn double_to_float(bits: u64) -> (r: u32)
    ensures
        r == float_of_double(bits),
{
    let sign: u32 = if bits >= 0x8000000000000000 {
        0x80000000
    } else {
        0
    };
    let exponent: u32 = ((bits / 0x10000000000000) % 2048) as u32;
    let fraction: u64 = bits % 0x10000000000000;
    if exponent == 2047 {
        return if fraction == 0 {
            sign + INFINITY_BITS
        } else {
            sign + NAN_BITS
        };
    }
    if exponent == 0 {
        return sign;
    }
    let full: u128 = 0x10000000000000 + fraction as u128;
    let magnitude: u128 = if exponent < 872 {
        proof {
            lemma_vanishes(full as int, (926 - exponent) as nat);
        }
        0
    } else if exponent < 897 {
        let d: u128 = power_of_two(926 - exponent);
        proof {
            power2::lemma2_to64();
            power2::lemma2_to64_rest();
            if 926 - exponent > 30 {
                power2::lemma_pow2_strictly_increases(30, (926 - exponent) as nat);
            }
            assert(full < 0x800000 * d) by (nonlinear_arith)
                requires
                    full < 0x20000000000000,
                    d >= 0x40000000,
            ;
            lemma_nearest_bounds(full as int, d as int, 0, 0x800000);
        }
        nearest_of(full, d)
    } else {
        proof {
            lemma_nearest_bounds(full as int, 0x20000000, 0x800000, 0x1000000);
        }
        let bits: u128 = (exponent - 897) as u128 * 0x800000 + nearest_of(full, 0x20000000);
        if bits > INFINITY_BITS as u128 {
            INFINITY_BITS as u128
        } else {
            bits
        }
    };
    sign + magnitude as u32
}

/// A 16-bit float's exponent field.
pub open spec fn half_exponent(bits: u16) -> int {
    (bits as int / 1024) % 32
}

/// A 16-bit float's fraction field.
pub open spec fn half_fraction(bits: u16) -> int {
    bits as int % 1024
}

/// A 16-bit float as a 32-bit float, as bits: subnormals become normal, infinities and
/// not-a-number stay what they are.
pub open spec fn float_of_half(bits: u16) -> u32 {
    let negative = bits >= 0x8000;
    let exponent = half_exponent(bits);
    let fraction = half_fraction(bits);
    (sign_bit(negative) + if exponent == 0 {
        if fraction == 0 {
            0
        } else {
            (bit_length(fraction as nat) + 101) * 0x800000 + significand(fraction as nat)
        }
    } else if exponent == 31 {
        if fraction == 0 {
            INFINITY_BITS as int
        } else {
            NAN_BITS as int
        }
    } else {
        (exponent + 112) * 0x800000 + fraction * 8192
    }) as u32
}

/// A 16-bit float as a 32-bit float, as bits.
pub fn half_to_f32(bits: u16) -> (r: u32)
    ensures
        r == float_of_half(bits),
{
    let sign: u32 = if bits >= 0x8000 {
        0x80000000
    } else {
        0
    };
    let exponent: u32 = ((bits / 1024) % 32) as u32;
    let fraction: u32 = (bits % 1024) as u32;
    if exponent == 0 {
        if fraction == 0 {
            return sign;
        }
        // Scaled by two to the minus 24.
        let whole: u32 = float_magnitude(fraction as u64);
        proof {
            lemma_significand_bounds(fraction as nat);
        }
        return sign + (whole - 24 * 0x800000);
    }
    if exponent == 31 {
        return if fraction == 0 {
            sign + INFINITY_BITS
        } else {
            sign + NAN_BITS
        };
    }
    sign + ((exponent + 112) * 0x800000 + fraction * 8192)
}

proof fn lemma_significand_bounds(a: nat)
    requires
        0 < a < 1024,
    ensures
        1 <= bit_length(a) <= 10,
        significand(a) == a * power2::pow2((24 - bit_length(a)) as nat),
        0x800000 <= significand(a) < 0x1000000,
{
    power2::lemma2_to64();
    lemma_measured(a);
    let n = bit_length(a);
    if n > 10 {
        if n > 11 {
            power2::lemma_pow2_strictly_increases(10, (n - 1) as nat);
        }
        assert(false);
    }
    power2::lemma_pow2_adds((n - 1) as nat, (24 - n) as nat);
    power2::lemma_pow2_adds(n, (24 - n) as nat);
    assert(n - 1 + (24 - n) == 23);
    let low = power2::pow2((n - 1) as nat) as int;
    let high = power2::pow2(n) as int;
    let scale = power2::pow2((24 - n) as nat) as int;
    power2::lemma_pow2_pos((24 - n) as nat);
    assert(low * scale <= a * scale < high * scale) by (nonlinear_arith)
        requires
            low <= a < high,
            scale > 0,
    ;
}

proof fn lemma_measured(a: nat)
    requires
        a > 0,
    ensures
        bit_length(a) >= 1,
        power2::pow2((bit_length(a) - 1) as nat) <= a < power2::pow2(bit_length(a)),
    decreases a,
{
    power2::lemma2_to64();
    if a > 1 {
        lemma_measured(a / 2);
        let n = bit_length(a / 2);
        power2::lemma_pow2_adds(1, (n - 1) as nat);
        power2::lemma_pow2_adds(1, n);
    } else {
        assert(bit_length(0) == 0);
    }
}

/// A finite 16-bit float's magnitude, in steps of two to the minus 24.
pub open spec fn half_magnitude(bits: u16) -> int {
    let exponent = half_exponent(bits);
    if exponent == 0 {
        half_fraction(bits)
    } else {
        (1024 + half_fraction(bits)) * power2::pow2((exponent - 1) as nat)
    }
}

/// A finite 32-bit float's magnitude, in steps of two to the minus 149.
pub open spec fn float_magnitude_of(bits: u32) -> int {
    let exponent = (bits as int / 0x800000) % 256;
    let fraction = bits as int % 0x800000;
    if exponent == 0 {
        fraction
    } else {
        (0x800000 + fraction) * power2::pow2((exponent - 1) as nat)
    }
}

/// Widening a 16-bit float is exact: it keeps the sign, and one step of the 16-bit
/// grid is two to the 125 steps of the 32-bit one.
pub proof fn law_widening_a_half_is_exact(bits: u16)
    requires
        half_exponent(bits) != 31,
    ensures
        float_magnitude_of(float_of_half(bits)) == half_magnitude(bits) * power2::pow2(125),
        (float_of_half(bits) >= 0x80000000) == (bits >= 0x8000),
{
    let exponent = half_exponent(bits);
    let fraction = half_fraction(bits);
    let wide = float_of_half(bits);
    power2::lemma2_to64();
    if exponent == 0 {
        if fraction == 0 {
            assert(float_magnitude_of(wide) == 0);
            assert(0 * power2::pow2(125) == 0) by (nonlinear_arith);
        } else {
            let n = bit_length(fraction as nat);
            lemma_significand_bounds(fraction as nat);
            let sig = significand(fraction as nat);
            let field = n + 102;
            assert((wide as int / 0x800000) % 256 == field);
            assert(wide as int % 0x800000 == sig - 0x800000);
            power2::lemma_pow2_adds((24 - n) as nat, (n + 101) as nat);
            assert(24 - n + (n + 101) == 125);
            let a = fraction;
            let x = power2::pow2((24 - n) as nat) as int;
            let y = power2::pow2((n + 101) as nat) as int;
            assert((a * x) * y == a * (x * y)) by (nonlinear_arith);
        }
    } else {
        let field = exponent + 112;
        assert((wide as int / 0x800000) % 256 == field);
        assert(wide as int % 0x800000 == fraction * 8192);
        assert(0x800000 + fraction * 8192 == (1024 + fraction) * 8192);
        power2::lemma_pow2_adds(13, (exponent + 111) as nat);
        power2::lemma_pow2_adds((exponent - 1) as nat, 125);
        assert(13 + (exponent + 111) == exponent - 1 + 125);
        let a = 1024 + fraction;
        let x = power2::pow2((exponent + 111) as nat) as int;
        let y = power2::pow2((exponent - 1) as nat) as int;
        let z = power2::pow2(125) as int;
        assert((a * 8192) * x == (a * y) * z) by (nonlinear_arith)
            requires
                8192 * x == y * z,
        ;
    }
}

// ---------------------------------------------------------------------- elements

/// How a stored element is to be read.
#[derive(Debug, Clone, Copy, PartialEq, Eq, Structural)]
pub enum Element {
    F32,
    F64,
    F16,
    BF16,
    I64,
    I32,
    I16,
    I8,
    U8,
}

impl Element {
    /// Bytes per element.
    pub open spec fn width_spec(self) -> nat {
        match self {
            Element::F64 | Element::I64 => 8,
            Element::F32 | Element::I32 => 4,
            Element::F16 | Element::BF16 | Element::I16 => 2,
            Element::I8 | Element::U8 => 1,
        }
    }

    /// Bytes per element.
    pub fn width(self) -> (r: usize)
        ensures
            r == self.width_spec(),
            1 <= r <= 8,
    {
        match self {
            Element::F64 | Element::I64 => 8,
            Element::F32 | Element::I32 => 4,
            Element::F16 | Element::BF16 | Element::I16 => 2,
            Element::I8 | Element::U8 => 1,
        }
    }

    /// The 32-bit float, as bits, that stands for the stored value `raw`.
    pub open spec fn word_spec(self, raw: nat) -> u32 {
        match self {
            Element::F32 => raw as u32,
            Element::F64 => float_of_double(raw as u64),
            Element::F16 => float_of_half(raw as u16),
            Element::BF16 => (raw * 65536) as u32,
            Element::I64 => float_of_int(signed(raw as int, 64)),
            Element::I32 => float_of_int(signed(raw as int, 32)),
            Element::I16 => float_of_int(signed(raw as int, 16)),
            Element::I8 => float_of_int(signed(raw as int, 8)),
            Element::U8 => float_of_int(raw as int),
        }
    }

    /// The 32-bit float, as bits, that stands for the stored value `raw`.
    pub fn word(self, raw: u64) -> (r: u32)
        requires
            raw < power2::pow2(8 * self.width_spec()),
        ensures
            r == self.word_spec(raw as nat),
    {
        proof {
            power2::lemma2_to64();
        }
        match self {
            Element::F32 => raw as u32,
            Element::F64 => double_to_float(raw),
            Element::F16 => half_to_f32(raw as u16),
            Element::BF16 => (raw * 65536) as u32,
            Element::I64 => if raw >= 0x8000000000000000 {
                int_to_float((raw as i128 - 0x10000000000000000) as i64)
            } else {
                int_to_float(raw as i64)
            },
            Element::I32 => if raw >= 0x80000000 {
                int_to_float(raw as i64 - 0x100000000)
            } else {
                int_to_float(raw as i64)
            },
            Element::I16 => if raw >= 0x8000 {
                int_to_float(raw as i64 - 0x10000)
            } else {
                int_to_float(raw as i64)
            },
            Element::I8 => if raw >= 0x80 {
                int_to_float(raw as i64 - 0x100)
            } else {
                int_to_float(raw as i64)
            },
            Element::U8 => int_to_float(raw as i64),
        }
    }

    /// The first `count` elements of a run of bytes.
    pub open spec fn words_spec(self, bytes: Seq<u8>, count: nat) -> Seq<u32> {
        Seq::new(
            count,
            |i: int|
                self.word_spec(
                    le_value(
                        bytes.subrange(i * self.width_spec(), (i + 1) * self.width_spec()),
                    ),
                ),
        )
    }

    /// The first `count` elements from `at` on.
    pub fn words(self, bytes: &[u8], at: usize, count: usize) -> (r: Vec<u32>)
        requires
            at + count * self.width_spec() <= bytes@.len(),
        ensures
            r@ == self.words_spec(bytes@.skip(at as int), count as nat),
    {
        let width: usize = self.width();
        let have: usize = bytes.len();
        let ghost rest = bytes@.skip(at as int);
        let mut r: Vec<u32> = Vec::new();
        let mut i: usize = 0;
        let mut place: usize = at;
        while i < count
            invariant
                i <= count,
                width == self.width_spec(),
                1 <= width <= 8,
                have == bytes@.len(),
                place == at + i * width,
                at + count * width <= bytes@.len(),
                rest == bytes@.skip(at as int),
                r@ == self.words_spec(rest, i as nat),
            decreases count - i,
        {
            proof {
                assert((i + 1) * width == i * width + width) by (nonlinear_arith);
                assert((i + 1) * width <= count * width) by (nonlinear_arith)
                    requires
                        i + 1 <= count,
                        width >= 0,
                ;
                assert(rest.subrange(i * width, (i + 1) * width) =~= bytes@.subrange(
                    place as int,
                    place + width,
                ));
                lemma_le_bound(bytes@.subrange(place as int, place + width));
            }
            let raw: u64 = le_uint(bytes, place, width);
            r.push(self.word(raw));
            place = place + width;
            i += 1;
            assert(r@ =~= self.words_spec(rest, i as nat));
        }
        r
    }
}

} // verus!
