//! IEEE 754 numbers as their bit patterns.
//!
//! The library decides on binary floating-point inputs (whether one is finite,
//! which of two is larger, which tile a coordinate falls into) without doing
//! arithmetic on them, so it takes them as their bits.
use vstd::arithmetic::div_mod::*;
use vstd::arithmetic::power2::*;
use vstd::bits::*;
use vstd::prelude::*;

verus! {

/// The bits of a single-precision sign.
pub const F32_SIGN: u32 = 0x8000_0000;

/// The bits of the single-precision infinity.
pub const F32_INFINITY: u32 = 0x7f80_0000;

/// The bits of the single-precision number one.
pub const F32_ONE: u32 = 0x3f80_0000;

/// The bits of a double-precision sign.
pub const F64_SIGN: u64 = 0x8000_0000_0000_0000;

/// The bits of the double-precision infinity.
pub const F64_INFINITY: u64 = 0x7ff0_0000_0000_0000;

/// The bits of the double-precision number one.
pub const F64_ONE: u64 = 0x3ff0_0000_0000_0000;

/// A single-precision number's bits without its sign.
pub open spec fn magnitude32(bits: u32) -> int {
    bits as int % 0x8000_0000
}

/// A double-precision number's bits without its sign.
pub open spec fn magnitude64(bits: u64) -> int {
    bits as int % 0x8000_0000_0000_0000
}

/// Neither infinite nor not-a-number, in single precision.
pub open spec fn finite32(bits: u32) -> bool {
    magnitude32(bits) < F32_INFINITY
}

/// Not-a-number, in single precision.
pub open spec fn nan32(bits: u32) -> bool {
    magnitude32(bits) > F32_INFINITY
}

/// Neither infinite nor not-a-number, in double precision.
pub open spec fn finite64(bits: u64) -> bool {
    magnitude64(bits) < F64_INFINITY
}

/// Not-a-number, in double precision.
pub open spec fn nan64(bits: u64) -> bool {
    magnitude64(bits) > F64_INFINITY
}

/// A number that is ordered as the single-precision values are: the bits
/// without the sign grow with the absolute value, and both zeros are equal.
pub open spec fn order32(bits: u32) -> int {
    if bits >= F32_SIGN {
        -magnitude32(bits)
    } else {
        magnitude32(bits)
    }
}

/// A number that is ordered as the double-precision values are.
pub open spec fn order64(bits: u64) -> int {
    if bits >= F64_SIGN {
        -magnitude64(bits)
    } else {
        magnitude64(bits)
    }
}

/// A number that is ordered as the total order of double precision is: the
/// negative zero lies below the positive one, and not-a-number beyond the
/// infinities.
pub open spec fn total_order64(bits: u64) -> int {
    if bits >= F64_SIGN {
        -1 - magnitude64(bits)
    } else {
        magnitude64(bits)
    }
}

/// `a < b` in single precision.
pub open spec fn less32(a: u32, b: u32) -> bool {
    !nan32(a) && !nan32(b) && order32(a) < order32(b)
}

/// `a < b` in double precision.
pub open spec fn less64(a: u64, b: u64) -> bool {
    !nan64(a) && !nan64(b) && order64(a) < order64(b)
}

/// A single-precision number kept between two bounds; not-a-number stays.
pub open spec fn clamped32(bits: u32, low: u32, high: u32) -> u32 {
    if less32(bits, low) {
        low
    } else if less32(high, bits) {
        high
    } else {
        bits
    }
}

/// A double-precision number kept between two bounds; not-a-number stays.
pub open spec fn clamped64(bits: u64, low: u64, high: u64) -> u64 {
    if less64(bits, low) {
        low
    } else if less64(high, bits) {
        high
    } else {
        bits
    }
}

/// The whole part of a 512th of a double-precision number, kept in 32 bits: a
/// negative number or not-a-number gives zero.
pub open spec fn tile_coordinate(bits: u64) -> int {
    let exponent = bits as int / 0x10_0000_0000_0000;
    let significand = 0x10_0000_0000_0000 + bits as int % 0x10_0000_0000_0000;
    if bits >= F64_SIGN || nan64(bits) || exponent < 1032 {
        0
    } else if exponent >= 1064 {
        u32::MAX as int
    } else {
        significand / (pow2((1084 - exponent) as nat) as int)
    }
}

/// Whether a single-precision number is finite.
pub fn is_finite32(bits: u32) -> (finite: bool)
    ensures
        finite == finite32(bits),
{
    bits % 0x8000_0000 < F32_INFINITY
}

/// Whether a double-precision number is finite.
pub fn is_finite64(bits: u64) -> (finite: bool)
    ensures
        finite == finite64(bits),
{
    bits % 0x8000_0000_0000_0000 < F64_INFINITY
}

/// Whether `a < b` in single precision.
pub fn is_less32(a: u32, b: u32) -> (less: bool)
    ensures
        less == less32(a, b),
{
    let x: u32 = a % 0x8000_0000;
    let y: u32 = b % 0x8000_0000;
    if x > F32_INFINITY || y > F32_INFINITY {
        false
    } else if a >= F32_SIGN {
        if b >= F32_SIGN {
            y < x
        } else {
            x > 0 || y > 0
        }
    } else {
        b < F32_SIGN && x < y
    }
}

/// Whether `a < b` in double precision.
pub fn is_less64(a: u64, b: u64) -> (less: bool)
    ensures
        less == less64(a, b),
{
    let x: u64 = a % 0x8000_0000_0000_0000;
    let y: u64 = b % 0x8000_0000_0000_0000;
    if x > F64_INFINITY || y > F64_INFINITY {
        false
    } else if a >= F64_SIGN {
        if b >= F64_SIGN {
            y < x
        } else {
            x > 0 || y > 0
        }
    } else {
        b < F64_SIGN && x < y
    }
}

/// Whether `a` comes before `b`, or equals it, in the total order of double
/// precision.
pub fn is_ordered64(a: u64, b: u64) -> (ordered: bool)
    ensures
        ordered == (total_order64(a) <= total_order64(b)),
{
    if a >= F64_SIGN {
        b < F64_SIGN || b <= a
    } else {
        b < F64_SIGN && a <= b
    }
}

/// Keeps a single-precision number between two bounds.
pub fn clamp32(bits: u32, low: u32, high: u32) -> (clamped: u32)
    ensures
        clamped == clamped32(bits, low, high),
{
    if is_less32(bits, low) {
        low
    } else if is_less32(high, bits) {
        high
    } else {
        bits
    }
}

/// Keeps a double-precision number between two bounds.
pub fn clamp64(bits: u64, low: u64, high: u64) -> (clamped: u64)
    ensures
        clamped == clamped64(bits, low, high),
{
    if is_less64(bits, low) {
        low
    } else if is_less64(high, bits) {
        high
    } else {
        bits
    }
}

/// The whole part of a 512th of a double-precision coordinate, kept in 32
/// bits.
pub fn floor_tile_coordinate(bits: u64) -> (tile: u32)
    ensures
        tile == tile_coordinate(bits),
{
    let exponent: u64 = bits / 0x10_0000_0000_0000;
    if bits >= F64_SIGN || bits > F64_INFINITY || exponent < 1032 {
        return 0;
    }
    if exponent >= 1064 {
        return u32::MAX;
    }
    let significand: u64 = 0x10_0000_0000_0000 + bits % 0x10_0000_0000_0000;
    let shift: u64 = 1084 - exponent;
    proof {
        lemma_pow2_pos(shift as nat);
        lemma_u64_shr_is_div(significand, shift);
        lemma2_to64();
        lemma2_to64_rest();
        assert(significand >> shift <= 0xffff_ffff) by (bit_vector)
            requires
                significand < 0x20_0000_0000_0000,
                21 <= shift <= 52,
        ;
    }
    (significand >> shift) as u32
}

/// Which bit patterns are numbers: the exponent of a finite number is not all ones,
/// and not-a-number has all ones and a fraction.
pub proof fn exponents_tell_numbers(single: u32, double: u64)
    ensures
        finite32(single) <==> single as int / 0x80_0000 % 256 != 255,
        nan32(single) <==> single as int / 0x80_0000 % 256 == 255 && single as int % 0x80_0000 != 0,
        finite64(double) <==> double as int / 0x10_0000_0000_0000 % 2048 != 2047,
        nan64(double) <==> double as int / 0x10_0000_0000_0000 % 2048 == 2047 && double as int
            % 0x10_0000_0000_0000 != 0,
{
}

/// Positive numbers are ordered as their bits are, negative ones the other way
/// round; a negative number is less than a positive one, the zeros are equal, and
/// not-a-number is less than nothing.
pub proof fn doubles_are_ordered_by_their_bits(a: u64, b: u64)
    ensures
        a <= F64_INFINITY && b <= F64_INFINITY ==> (less64(a, b) <==> a < b),
        F64_SIGN <= a <= F64_SIGN + F64_INFINITY && F64_SIGN <= b <= F64_SIGN + F64_INFINITY ==> (
        less64(a, b) <==> b < a),
        F64_SIGN < a <= F64_SIGN + F64_INFINITY && b <= F64_INFINITY ==> less64(a, b) && !less64(
            b,
            a,
        ),
        !less64(F64_SIGN, 0) && !less64(0, F64_SIGN),
        F64_INFINITY < a < F64_SIGN || F64_SIGN + F64_INFINITY < a ==> !less64(a, b) && !less64(
            b,
            a,
        ),
        less64(a, b) ==> !less64(b, a),
{
}

/// The same of single precision.
pub proof fn singles_are_ordered_by_their_bits(a: u32, b: u32)
    ensures
        a <= F32_INFINITY && b <= F32_INFINITY ==> (less32(a, b) <==> a < b),
        F32_SIGN <= a <= F32_SIGN + F32_INFINITY && F32_SIGN <= b <= F32_SIGN + F32_INFINITY ==> (
        less32(a, b) <==> b < a),
        F32_SIGN < a <= F32_SIGN + F32_INFINITY && b <= F32_INFINITY ==> less32(a, b) && !less32(
            b,
            a,
        ),
        !less32(F32_SIGN, 0) && !less32(0, F32_SIGN),
        F32_INFINITY < a < F32_SIGN || F32_SIGN + F32_INFINITY < a ==> !less32(a, b) && !less32(
            b,
            a,
        ),
        less32(a, b) ==> !less32(b, a),
{
}

/// A number between two bounds stays, one below becomes the lower bound, and one
/// above the upper; not-a-number stays.
pub proof fn bounds_keep_what_lies_between(
    bits: u64,
    low: u64,
    high: u64,
    single: u32,
    low_single: u32,
    high_single: u32,
)
    requires
        !nan64(low) && !nan64(high) && order64(low) <= order64(high),
        !nan32(low_single) && !nan32(high_single) && order32(low_single) <= order32(high_single),
    ensures
        nan64(bits) || order64(low) <= order64(bits) <= order64(high) ==> clamped64(bits, low, high)
            == bits,
        !nan64(bits) && order64(bits) < order64(low) ==> clamped64(bits, low, high) == low,
        !nan64(bits) && order64(bits) > order64(high) ==> clamped64(bits, low, high) == high,
        nan32(single) || order32(low_single) <= order32(single) <= order32(high_single)
            ==> clamped32(single, low_single, high_single) == single,
        !nan32(single) && order32(single) < order32(low_single) ==> clamped32(
            single,
            low_single,
            high_single,
        ) == low_single,
        !nan32(single) && order32(single) > order32(high_single) ==> clamped32(
            single,
            low_single,
            high_single,
        ) == high_single,
{
}

/// The total order goes by the bits of positive numbers, by the reverse of those of
/// negative ones, and puts every negative number, the negative zero too, before
/// every positive one.
pub proof fn the_total_order_orders_every_pattern(a: u64, b: u64)
    ensures
        a < F64_SIGN && b < F64_SIGN ==> (total_order64(a) <= total_order64(b) <==> a <= b),
        a >= F64_SIGN && b >= F64_SIGN ==> (total_order64(a) <= total_order64(b) <==> b <= a),
        a >= F64_SIGN && b < F64_SIGN ==> total_order64(a) < total_order64(b),
        total_order64(a) == total_order64(b) ==> a == b,
{
}

/// The tile of a coordinate is the one that holds it: the coordinate is no less
/// than 512 times the tile's number, and less than 512 times the next. Coordinates
/// below 512, and those that are no number, are in the first tile, and those beyond
/// all tiles in the last that can be counted.
pub proof fn tiles_hold_their_coordinates(bits: u64)
    ensures
        ({
            let exponent = bits as int / 0x10_0000_0000_0000;
            let significand = 0x10_0000_0000_0000 + bits as int % 0x10_0000_0000_0000;
            let tile = tile_coordinate(bits);
            &&& 0 <= tile <= u32::MAX
            &&& bits < 0x4080_0000_0000_0000 ==> tile == 0
            &&& bits > F64_INFINITY ==> tile == 0
            &&& 0x4280_0000_0000_0000 <= bits <= F64_INFINITY ==> tile == u32::MAX
            &&& 0x4080_0000_0000_0000 <= bits < 0x4280_0000_0000_0000 ==> {
                let unit = pow2((1075 - exponent) as nat) as int;
                &&& 1032 <= exponent < 1064
                &&& tile * (512 * unit) <= significand
                &&& significand < (tile + 1) * (512 * unit)
            }
        }),
{
    let exponent = bits as int / 0x10_0000_0000_0000;
    let significand = 0x10_0000_0000_0000 + bits as int % 0x10_0000_0000_0000;
    if 0x4080_0000_0000_0000 <= bits < 0x4280_0000_0000_0000 {
        let unit = pow2((1075 - exponent) as nat) as int;
        lemma_pow2_pos((1075 - exponent) as nat);
        lemma_pow2_adds((1075 - exponent) as nat, 9);
        lemma2_to64();
        assert(pow2((1084 - exponent) as nat) == unit * 512);
        let tile = significand / (512 * unit);
        lemma_fundamental_div_mod(significand, 512 * unit);
        assert(tile * (512 * unit) == (512 * unit) * tile) by (nonlinear_arith);
        assert((tile + 1) * (512 * unit) == (512 * unit) * tile + 512 * unit) by (nonlinear_arith);
        let shift = (1084 - exponent) as nat;
        lemma2_to64_rest();
        assert(pow2(shift) >= 0x20_0000) by {
            lemma_pow2_adds((shift - 21) as nat, 21);
            lemma_pow2_pos((shift - 21) as nat);
            assert(pow2((shift - 21) as nat) * 0x20_0000 >= 0x20_0000) by (nonlinear_arith)
                requires
                    pow2((shift - 21) as nat) >= 1,
            ;
        }
        assert(tile <= u32::MAX) by (nonlinear_arith)
            requires
                (512 * unit) * tile <= significand,
                significand < 0x20_0000_0000_0000,
                512 * unit >= 0x20_0000,
        ;
        assert(0 <= tile) by (nonlinear_arith)
            requires
                tile == significand / (512 * unit),
                significand >= 0,
                512 * unit > 0,
        ;
    }
}

} // verus!
