//! Mip chains of the linear RGBA16F textures and what they are charged in the
//! graphics-memory budget.
use vstd::arithmetic::div_mod::*;
use vstd::arithmetic::mul::*;
use vstd::arithmetic::power2::*;
use vstd::bits::*;
use vstd::prelude::*;
use vstd::std_specs::bits::*;

use crate::numeric;
use crate::numeric::{div_ceil_u64, max_u32, saturating_add_u64, saturating_mul_u64};

verus! {

/// The bytes of one MiB.
pub const MIB_BYTES: u64 = 1048576;

/// The share of a texture's bytes that is charged as implementation overhead.
pub const GPU_TEXTURE_OVERHEAD_DIVISOR: u64 = 10;

/// One extent of the next smaller mip level.
pub open spec fn next_extent(extent: int) -> int {
    numeric::larger(extent / 2, 1)
}

/// One extent after `levels` halvings.
pub open spec fn extent_at(extent: int, level: nat) -> int
    decreases level,
{
    if level == 0 {
        extent
    } else {
        next_extent(extent_at(extent, (level - 1) as nat))
    }
}

/// The bytes of one row of RGBA16F pixels, padded to the copy alignment.
pub open spec fn padded_row(width: int) -> int {
    numeric::ceiling(width * 8, COPY_ROW_ALIGNMENT as int) * COPY_ROW_ALIGNMENT
}

/// The bytes of the first `levels` mip levels of every layer, rows padded.
pub open spec fn chain_bytes(width: int, height: int, levels: nat, layers: int) -> int
    decreases levels,
{
    if levels == 0 {
        0
    } else {
        let level = (levels - 1) as nat;
        chain_bytes(width, height, level, layers) + padded_row(extent_at(width, level))
            * extent_at(height, level) * layers
    }
}

/// A byte count with the overhead added, rounded up to whole MiB. What does
/// not fit in 64 bits is the largest number that does.
pub open spec fn with_overhead_in_mib(bytes: int) -> int {
    let total = numeric::saturated(bytes);
    let charged = numeric::saturated(total + numeric::ceiling(total, 10));
    if charged + (MIB_BYTES - 1) > u64::MAX {
        u64::MAX as int
    } else {
        numeric::ceiling(charged, MIB_BYTES as int) * MIB_BYTES
    }
}

/// The budget charge of a texture.
pub open spec fn texture_budget(width: int, height: int, levels: int, layers: int) -> int {
    if width == 0 || height == 0 || levels == 0 || layers == 0 {
        0
    } else {
        with_overhead_in_mib(chain_bytes(width, height, levels as nat, layers))
    }
}

/// The alignment of the rows of a buffer that is copied into a texture.
pub const COPY_ROW_ALIGNMENT: u32 = 256;

/// `wgpu::COPY_BYTES_PER_ROW_ALIGNMENT`, the alignment that `wgpu` demands of
/// the rows of a copied buffer, is 256 bytes.
#[verifier::external_body]
pub(crate) fn copy_row_alignment() -> (alignment: u32)
    ensures
        alignment == COPY_ROW_ALIGNMENT,
{
    wgpu::COPY_BYTES_PER_ROW_ALIGNMENT
}

/// The number of binary digits of a number.
pub open spec fn bit_length(value: nat) -> nat
    decreases value,
{
    if value == 0 {
        0
    } else {
        bit_length(value / 2) + 1
    }
}

/// The mip levels of a texture down to a single pixel: the bit length of its
/// longer side.
pub open spec fn level_count(width: int, height: int) -> nat {
    bit_length(numeric::larger(width, height) as nat)
}

/// The number of mip levels down to a single pixel: the bit length of the
/// longer side.
pub fn mip_level_count(width: u32, height: u32) -> (levels: u32)
    ensures
        levels == level_count(width as int, height as int),
        levels <= 32,
        numeric::larger(width as int, height as int) < pow2(levels as nat),
        levels > 0 ==> pow2((levels - 1) as nat) <= numeric::larger(width as int, height as int),
        levels == 0 <==> width == 0 && height == 0,
{
    let longest: u32 = max_u32(width, height);
    let zeros: u32 = longest.leading_zeros();
    proof {
        axiom_u32_leading_zeros(longest);
        lemma_leading_zeros(longest);
        lemma_bit_length_is_unique(longest as nat, (32 - zeros) as nat);
    }
    32 - zeros
}

/// Conservative budget charge for an RGBA16F texture allocation.
///
/// The driver's allocation size is not known. Account for 256-byte row
/// alignment, add ten percent for implementation overhead, and round to a
/// whole MiB.
pub fn rgba16f_texture_budget_bytes(
    width: u32,
    height: u32,
    mip_levels: u32,
    array_layers: u32,
) -> (bytes: u64)
    ensures
        bytes == texture_budget(
            width as int,
            height as int,
            mip_levels as int,
            array_layers as int,
        ),
{
    if width == 0 || height == 0 || mip_levels == 0 || array_layers == 0 {
        return 0;
    }
    let alignment: u64 = copy_row_alignment() as u64;
    let mut total: u64 = 0;
    let mut level_width: u32 = width;
    let mut level_height: u32 = height;
    let mut level: u32 = 0;
    while level < mip_levels
        invariant
            level <= mip_levels,
            alignment == COPY_ROW_ALIGNMENT,
            array_layers >= 1,
            level_width >= 1,
            level_height >= 1,
            level_width == extent_at(width as int, level as nat),
            level_height == extent_at(height as int, level as nat),
            total == numeric::saturated(
                chain_bytes(width as int, height as int, level as nat, array_layers as int),
            ),
            chain_bytes(width as int, height as int, level as nat, array_layers as int) >= 0,
        decreases mip_levels - level,
    {
        let row_bytes: u64 = level_width as u64 * 8;
        let padded_row_bytes: u64 = div_ceil_u64(row_bytes, alignment) * alignment;
        let plane: u64 = saturating_mul_u64(padded_row_bytes, level_height as u64);
        let layers: u64 = saturating_mul_u64(plane, array_layers as u64);
        proof {
            lemma_saturated_product(
                padded_row_bytes * level_height,
                array_layers as int,
            );
            lemma_mul_nonnegative(padded_row_bytes as int, level_height as int);
            lemma_mul_nonnegative(padded_row_bytes * level_height, array_layers as int);
            assert(chain_bytes(
                width as int,
                height as int,
                (level + 1) as nat,
                array_layers as int,
            ) == chain_bytes(width as int, height as int, level as nat, array_layers as int)
                + padded_row_bytes * level_height * array_layers);
        }
        total = saturating_add_u64(total, layers);
        level_width = max_u32(level_width / 2, 1);
        level_height = max_u32(level_height / 2, 1);
        level = level + 1;
    }
    let with_overhead: u64 = saturating_add_u64(
        total,
        div_ceil_u64(total, GPU_TEXTURE_OVERHEAD_DIVISOR),
    );
    match with_overhead.checked_add(MIB_BYTES - 1) {
        Some(bytes) => bytes / MIB_BYTES * MIB_BYTES,
        None => u64::MAX,
    }
}

/// Capping before a multiplication by a positive factor does not change what
/// is capped after it.
proof fn lemma_saturated_product(value: int, factor: int)
    requires
        value >= 0,
        factor >= 1,
    ensures
        numeric::saturated(numeric::saturated(value) * factor) == numeric::saturated(value * factor),
{
    if value > u64::MAX {
        lemma_mul_inequality(1, factor, u64::MAX as int);
        lemma_mul_inequality(1, factor, value);
        lemma_mul_is_commutative(u64::MAX as int, factor);
        lemma_mul_is_commutative(value, factor);
    }
}

/// One render pass that fills a mip level of one layer from the level above.
#[derive(Clone, Copy, Debug, PartialEq, Eq, Structural)]
pub struct MipPass {
    pub layer: u32,
    pub source_level: u32,
    pub destination_level: u32,
}

/// The passes that fill every level below the first, layer by layer.
pub open spec fn mip_passes(levels: int, layers: Seq<u32>) -> Seq<MipPass>
    decreases layers.len(),
{
    if layers.len() == 0 {
        Seq::empty()
    } else {
        mip_passes(levels, layers.drop_last()) + layer_passes(levels, layers.last())
    }
}

/// The passes of one layer, from the largest level to the smallest.
pub open spec fn layer_passes(levels: int, layer: u32) -> Seq<MipPass> {
    Seq::new(
        (if levels <= 1 {
            0
        } else {
            levels - 1
        }) as nat,
        |i: int|
            MipPass { layer, source_level: i as u32, destination_level: (i + 1) as u32 },
    )
}

/// Plans the passes that generate the mip levels of the given layers.
pub fn plan_mip_passes(mip_level_count: u32, layers: &[u32]) -> (passes: Vec<MipPass>)
    ensures
        passes@ == mip_passes(mip_level_count as int, layers@),
{
    let mut passes: Vec<MipPass> = Vec::new();
    let mut index: usize = 0;
    assert(layers@.take(0) =~= Seq::<u32>::empty());
    while index < layers.len()
        invariant
            index <= layers@.len(),
            passes@ == mip_passes(mip_level_count as int, layers@.take(index as int)),
        decreases layers@.len() - index,
    {
        let layer: u32 = layers[index];
        let ghost before = passes@;
        let mut destination_level: u32 = 1;
        while destination_level < mip_level_count
            invariant
                1 <= destination_level,
                destination_level <= mip_level_count || mip_level_count <= 1
                    && destination_level == 1,
                passes@ == before + layer_passes(destination_level as int, layer),
            decreases mip_level_count - destination_level,
        {
            passes.push(
                MipPass { layer, source_level: destination_level - 1, destination_level },
            );
            assert(passes@ =~= before + layer_passes(destination_level + 1, layer));
            destination_level = destination_level + 1;
        }
        assert(passes@ =~= before + layer_passes(mip_level_count as int, layer));
        assert(layers@.take(index + 1).drop_last() =~= layers@.take(index as int));
        index = index + 1;
    }
    assert(layers@.take(layers@.len() as int) =~= layers@);
    passes
}

/// The powers of two around a number give its bit length.
proof fn lemma_bit_length_is_unique(value: nat, levels: nat)
    requires
        value < pow2(levels),
        levels > 0 ==> pow2((levels - 1) as nat) <= value,
    ensures
        levels == bit_length(value),
    decreases levels,
{
    lemma2_to64();
    if levels > 0 {
        lemma_pow2_unfold(levels);
        lemma_pow2_pos((levels - 1) as nat);
        if levels > 1 {
            lemma_pow2_unfold((levels - 1) as nat);
        }
        lemma_bit_length_is_unique(value / 2, (levels - 1) as nat);
    }
}

/// The leading zeros of a number tell the powers of two around it.
proof fn lemma_leading_zeros(value: u32)
    ensures
        u32_leading_zeros(value) <= 32,
        value < pow2((32 - u32_leading_zeros(value)) as nat),
        u32_leading_zeros(value) < 32 ==> pow2((31 - u32_leading_zeros(value)) as nat) <= value,
{
    axiom_u32_leading_zeros(value);
    lemma2_to64();
    let zeros = u32_leading_zeros(value);
    if zeros < 32 {
        let top = (31 - zeros) as u32;
        lemma_pow2_pos(top as nat);
        lemma_u32_shr_is_div(value, top);
        assert(0u32 & 1u32 == 0u32) by (bit_vector);
        lemma_fundamental_div_mod(value as int, pow2(top as nat) as int);
        if value < pow2(top as nat) {
            lemma_basic_div(value as int, pow2(top as nat) as int);
        }
        if zeros > 0 {
            let length = (32 - zeros) as u32;
            lemma_pow2_pos(length as nat);
            lemma_u32_shr_is_div(value, length);
            lemma_fundamental_div_mod(
                value as int,
                pow2(length as nat) as int,
            );
        }
    }
}

/// An extent after some halvings is its quotient by that power of two, and
/// never less than one pixel.
pub proof fn extents_halve(extent: int, level: nat)
    requires
        extent >= 1,
    ensures
        extent_at(extent, level) == numeric::larger(extent / (pow2(level) as int), 1),
    decreases level,
{
    lemma2_to64();
    if level > 0 {
        extents_halve(extent, (level - 1) as nat);
        lemma_pow2_unfold(level);
        lemma_pow2_pos((level - 1) as nat);
        let half = pow2((level - 1) as nat) as int;
        lemma_div_denominator(extent, half, 2);
        lemma_div_pos_is_pos(extent, half);
        assert(pow2(level) == half * 2);
        assert(extent / (pow2(level) as int) == (extent / half) / 2);
    } else {
        assert(pow2(level) == 1);
        lemma_div_basics(extent);
    }
}

/// A chain of `mip_level_count` levels ends with a single pixel: the count
/// covers the longest dimension.
pub proof fn mip_chain_ends_in_one_pixel(width: int, height: int, levels: nat)
    requires
        width >= 1,
        height >= 1,
        levels >= 1,
        numeric::larger(width, height) < pow2(levels),
    ensures
        extent_at(width, (levels - 1) as nat) == 1,
        extent_at(height, (levels - 1) as nat) == 1,
{
    extents_halve(width, (levels - 1) as nat);
    extents_halve(height, (levels - 1) as nat);
    lemma_pow2_unfold(levels);
    let half = pow2((levels - 1) as nat) as int;
    lemma_pow2_pos((levels - 1) as nat);
    lemma_fundamental_div_mod(width, half);
    lemma_fundamental_div_mod(height, half);
    assert(width / half <= 1) by (nonlinear_arith)
        requires
            width < 2 * half,
            half > 0,
    ;
    assert(height / half <= 1) by (nonlinear_arith)
        requires
            height < 2 * half,
            half > 0,
    ;
}

/// Extents of a chain stay at least one pixel.
proof fn lemma_extent_positive(extent: int, level: nat)
    requires
        extent >= 1,
    ensures
        extent_at(extent, level) >= 1,
    decreases level,
{
    if level > 0 {
        lemma_extent_positive(extent, (level - 1) as nat);
    }
}

/// A chain of several layers has the bytes of one layer, that many times.
proof fn lemma_chain_is_linear(width: int, height: int, levels: nat, layers: int)
    requires
        width >= 1,
        height >= 1,
        layers >= 0,
    ensures
        chain_bytes(width, height, levels, layers) == chain_bytes(width, height, levels, 1)
            * layers,
        chain_bytes(width, height, levels, 1) >= 0,
    decreases levels,
{
    if levels > 0 {
        let level = (levels - 1) as nat;
        lemma_chain_is_linear(width, height, level, layers);
        lemma_extent_positive(width, level);
        lemma_extent_positive(height, level);
        let plane = padded_row(extent_at(width, level)) * extent_at(height, level);
        numeric::lemma_ceiling(extent_at(width, level) * 8, COPY_ROW_ALIGNMENT as int);
        lemma_mul_nonnegative(padded_row(extent_at(width, level)), extent_at(height, level));
        lemma_mul_is_distributive_add_other_way(
            layers,
            chain_bytes(width, height, level, 1),
            plane,
        );
    } else {
        lemma_mul_basics(layers);
    }
}

/// Rounding up to a multiple keeps the order.
proof fn lemma_ceiling_monotone(a: int, b: int, divisor: int)
    requires
        0 <= a <= b,
        divisor > 0,
    ensures
        numeric::ceiling(a, divisor) <= numeric::ceiling(b, divisor),
        numeric::ceiling(a, divisor) * divisor <= numeric::ceiling(b, divisor) * divisor,
{
    lemma_div_is_ordered(a + divisor - 1, b + divisor - 1, divisor);
    lemma_mul_inequality(numeric::ceiling(a, divisor), numeric::ceiling(b, divisor), divisor);
}

/// A larger byte count is never charged less.
proof fn lemma_charge_monotone(a: int, b: int)
    requires
        0 <= a <= b,
    ensures
        with_overhead_in_mib(a) <= with_overhead_in_mib(b),
{
    let x = numeric::saturated(a);
    let y = numeric::saturated(b);
    lemma_ceiling_monotone(x, y, 10);
    let p = numeric::saturated(x + numeric::ceiling(x, 10));
    let q = numeric::saturated(y + numeric::ceiling(y, 10));
    lemma_ceiling_monotone(p, q, MIB_BYTES as int);
    numeric::lemma_ceiling(p, MIB_BYTES as int);
}

/// A charge is a whole number of MiB, or the largest 64-bit number, and never
/// less than the bytes it stands for.
proof fn lemma_charge_covers(bytes: int)
    requires
        bytes >= 0,
    ensures
        with_overhead_in_mib(bytes) >= numeric::saturated(bytes),
        with_overhead_in_mib(bytes) % (MIB_BYTES as int) == 0 || with_overhead_in_mib(bytes)
            == u64::MAX,
{
    let total = numeric::saturated(bytes);
    let charged = numeric::saturated(total + numeric::ceiling(total, 10));
    numeric::lemma_ceiling(charged, MIB_BYTES as int);
    lemma_mod_multiples_basic(numeric::ceiling(charged, MIB_BYTES as int), MIB_BYTES as int);
}

/// A texture with more layers is never charged less.
pub proof fn budget_grows_with_layers(width: int, height: int, levels: int, fewer: int, more: int)
    requires
        width >= 0,
        height >= 0,
        levels >= 0,
        0 <= fewer <= more,
    ensures
        texture_budget(width, height, levels, fewer) <= texture_budget(width, height, levels, more),
{
    if width >= 1 && height >= 1 && levels >= 1 && more >= 1 {
        lemma_chain_is_linear(width, height, levels as nat, fewer);
        lemma_chain_is_linear(width, height, levels as nat, more);
        let one = chain_bytes(width, height, levels as nat, 1);
        lemma_mul_inequality(fewer, more, one);
        lemma_mul_is_commutative(fewer, one);
        lemma_mul_is_commutative(more, one);
        lemma_mul_nonnegative(one, fewer);
        lemma_charge_monotone(one * fewer, one * more);
        lemma_charge_covers(one * more);
    }
}

/// The charge of a texture is conservative: at least the bytes of all its mip
/// levels with padded rows, and so at least its pixels.
pub proof fn budget_covers_the_texture(width: int, height: int, levels: int, layers: int)
    requires
        width >= 1,
        height >= 1,
        levels >= 1,
        layers >= 1,
    ensures
        texture_budget(width, height, levels, layers) >= numeric::saturated(
            chain_bytes(width, height, levels as nat, layers),
        ),
        texture_budget(width, height, levels, layers) >= numeric::saturated(
            width * 8 * height * layers,
        ),
        texture_budget(width, height, levels, layers) % (MIB_BYTES as int) == 0 || texture_budget(
            width,
            height,
            levels,
            layers,
        ) == u64::MAX,
{
    lemma_chain_is_linear(width, height, levels as nat, layers);
    lemma_mul_nonnegative(chain_bytes(width, height, levels as nat, 1), layers);
    lemma_charge_covers(chain_bytes(width, height, levels as nat, layers));
    lemma_chain_holds_first_level(width, height, levels as nat, layers);
}

/// A chain holds at least the pixels of its first level.
proof fn lemma_chain_holds_first_level(width: int, height: int, levels: nat, layers: int)
    requires
        width >= 1,
        height >= 1,
        levels >= 1,
        layers >= 1,
    ensures
        chain_bytes(width, height, levels, layers) >= width * 8 * height * layers,
    decreases levels,
{
    let level = (levels - 1) as nat;
    lemma_extent_positive(width, level);
    lemma_extent_positive(height, level);
    numeric::lemma_ceiling(extent_at(width, level) * 8, COPY_ROW_ALIGNMENT as int);
    let plane = padded_row(extent_at(width, level)) * extent_at(height, level);
    lemma_mul_nonnegative(padded_row(extent_at(width, level)), extent_at(height, level));
    lemma_mul_nonnegative(plane, layers);
    if levels > 1 {
        lemma_chain_holds_first_level(width, height, level, layers);
    } else {
        lemma_mul_inequality(width * 8, padded_row(width), height);
        lemma_mul_inequality(width * 8 * height, padded_row(width) * height, layers);
        assert(chain_bytes(width, height, 0, layers) == 0);
        assert(extent_at(width, 0) == width);
        assert(extent_at(height, 0) == height);
    }
}

/// Several layers in one texture are never charged more than that many
/// textures of one layer.
pub proof fn layers_share_their_budget(width: int, height: int, levels: int, layers: int)
    requires
        width >= 1,
        height >= 1,
        levels >= 1,
        layers >= 1,
    ensures
        texture_budget(width, height, levels, layers) <= numeric::saturated(
            texture_budget(width, height, levels, 1) * layers,
        ),
{
    let one = chain_bytes(width, height, levels as nat, 1);
    lemma_chain_is_linear(width, height, levels as nat, layers);
    lemma_mul_inequality(1, layers, one);
    lemma_mul_is_commutative(1, one);
    lemma_mul_is_commutative(layers, one);
    lemma_charge_covers(one);
    lemma_charge_covers(one * layers);
    let budget = with_overhead_in_mib(one);
    let many = with_overhead_in_mib(one * layers);
    assert(one * 1 == one);
    lemma_mul_inequality(1, layers, budget);
    lemma_mul_is_commutative(1, budget);
    lemma_mul_is_commutative(layers, budget);
    if budget < u64::MAX {
        let x = numeric::saturated(one);
        assert(x == one);
        let charge = x + numeric::ceiling(x, 10);
        numeric::lemma_ceiling(x, 10);
        numeric::lemma_ceiling(charge, MIB_BYTES as int);
        assert(budget >= charge);
        // The exact charge of all layers is at most the layers times the charge of one.
        let total = one * layers;
        numeric::lemma_ceiling(total, 10);
        assert(numeric::ceiling(total, 10) <= numeric::ceiling(x, 10) * layers) by {
            lemma_mul_inequality(x, numeric::ceiling(x, 10) * 10, layers);
            lemma_mul_is_associative(numeric::ceiling(x, 10), 10, layers);
            lemma_mul_is_associative(numeric::ceiling(x, 10), layers, 10);
            lemma_mul_is_commutative(10, layers);
        }
        lemma_mul_is_distributive_add_other_way(layers, x, numeric::ceiling(x, 10));
        assert(total + numeric::ceiling(total, 10) <= charge * layers);
        lemma_mul_inequality(charge, budget, layers);
        assert(total + numeric::ceiling(total, 10) <= budget * layers);
        let k = budget / (MIB_BYTES as int);
        lemma_fundamental_div_mod(budget, MIB_BYTES as int);
        assert(budget * layers == (k * layers) * MIB_BYTES) by (nonlinear_arith)
            requires
                budget == MIB_BYTES * k,
        ;
        let charged = numeric::saturated(
            numeric::saturated(total) + numeric::ceiling(numeric::saturated(total), 10),
        );
        lemma_ceiling_monotone(numeric::saturated(total), total, 10);
        assert(charged <= budget * layers);
        numeric::lemma_ceiling(charged, MIB_BYTES as int);
        assert(numeric::ceiling(charged, MIB_BYTES as int) <= k * layers) by (nonlinear_arith)
            requires
                numeric::ceiling(charged, MIB_BYTES as int) * MIB_BYTES < charged + MIB_BYTES,
                charged <= (k * layers) * MIB_BYTES,
                MIB_BYTES == 1048576,
        ;
    }
}

/// The charge of a texture's bytes adds a tenth of them and rounds up to whole MiB,
/// and no further.
pub proof fn charges_add_a_tenth_in_whole_mib(bytes: int)
    requires
        0 <= bytes,
        bytes + bytes / 10 + 1 + 2 * 1048576 <= u64::MAX,
    ensures
        10 * with_overhead_in_mib(bytes) >= 11 * bytes,
        with_overhead_in_mib(bytes) < bytes + bytes / 10 + 1 + 1048576,
        with_overhead_in_mib(bytes) % 1048576 == 0,
        bytes > 0 ==> with_overhead_in_mib(bytes) >= 1048576,
        with_overhead_in_mib(0) == 0,
{
    numeric::lemma_ceiling(bytes, 10);
    let charged = bytes + numeric::ceiling(bytes, 10);
    numeric::lemma_ceiling(charged, MIB_BYTES as int);
    lemma_mod_multiples_basic(numeric::ceiling(charged, MIB_BYTES as int), MIB_BYTES as int);
    assert(numeric::ceiling(0, 10) == 0);
    assert(numeric::ceiling(0, MIB_BYTES as int) == 0);
}

/// Rows are padded to multiples of 256 bytes, as little as possible, and hold eight
/// bytes a pixel.
pub proof fn rows_are_padded_to_the_alignment(width: int)
    requires
        0 <= width,
    ensures
        padded_row(width) % 256 == 0,
        width * 8 <= padded_row(width) < width * 8 + 256,
{
    numeric::lemma_ceiling(width * 8, 256);
    lemma_mod_multiples_basic(numeric::ceiling(width * 8, 256), 256);
}

/// Every mip level is charged, with the rows of its own size: a further level adds
/// as many padded rows as it is high, for each layer.
pub proof fn every_level_is_charged(width: int, height: int, levels: nat, layers: int)
    requires
        width >= 1,
        height >= 1,
        layers >= 0,
    ensures
        chain_bytes(width, height, 0, layers) == 0,
        chain_bytes(width, height, levels + 1, layers) - chain_bytes(width, height, levels, layers)
            == padded_row(numeric::larger(width / (pow2(levels) as int), 1)) * numeric::larger(
            height / (pow2(levels) as int),
            1,
        ) * layers,
{
    extents_halve(width, levels);
    extents_halve(height, levels);
}

/// A texture is charged for its whole mip chain, and an empty one not at all.
pub proof fn textures_are_charged_for_their_chain(width: int, height: int, levels: int, layers: int)
    requires
        0 <= width,
        0 <= height,
        0 <= levels,
        0 <= layers,
    ensures
        width == 0 || height == 0 || levels == 0 || layers == 0 ==> texture_budget(
            width,
            height,
            levels,
            layers,
        ) == 0,
        width > 0 && height > 0 && levels > 0 && layers > 0 ==> texture_budget(
            width,
            height,
            levels,
            layers,
        ) == with_overhead_in_mib(chain_bytes(width, height, levels as nat, layers)),
{
}

/// The passes of a mip chain: for each of the layers, in their order, every level
/// below the first is filled once, from the level just above it, the larger levels
/// first. So every pass reads a level that is complete.
pub proof fn every_level_is_filled_from_the_one_above(
    levels: int,
    layers: Seq<u32>,
    index: int,
    level: int,
)
    requires
        2 <= levels <= u32::MAX,
        0 <= index < layers.len(),
        0 <= level < levels - 1,
    ensures
        mip_passes(levels, layers).len() == layers.len() * (levels - 1),
        0 <= index * (levels - 1) + level < mip_passes(levels, layers).len(),
        mip_passes(levels, layers)[index * (levels - 1) + level] == (MipPass {
            layer: layers[index],
            source_level: level as u32,
            destination_level: (level + 1) as u32,
        }),
    decreases layers.len(),
{
    lemma_pass_count(levels, layers);
    let head = layers.drop_last();
    lemma_pass_count(levels, head);
    let passes = levels - 1;
    assert(index * passes + level < layers.len() * passes) by (nonlinear_arith)
        requires
            0 <= index < layers.len(),
            0 <= level < passes,
    ;
    assert(0 <= index * passes) by (nonlinear_arith)
        requires
            0 <= index,
            0 <= passes,
    ;
    if index < layers.len() - 1 {
        every_level_is_filled_from_the_one_above(levels, head, index, level);
    }
}

/// How many passes there are.
proof fn lemma_pass_count(levels: int, layers: Seq<u32>)
    requires
        2 <= levels <= u32::MAX,
    ensures
        mip_passes(levels, layers).len() == layers.len() * (levels - 1),
    decreases layers.len(),
{
    if layers.len() > 0 {
        lemma_pass_count(levels, layers.drop_last());
        assert((layers.len() - 1) * (levels - 1) + (levels - 1) == layers.len() * (levels - 1))
            by (nonlinear_arith);
    }
}

/// A chain of a single level needs no passes.
pub proof fn single_levels_need_no_passes(levels: int, layers: Seq<u32>)
    requires
        levels <= 1,
    ensures
        mip_passes(levels, layers).len() == 0,
    decreases layers.len(),
{
    if layers.len() > 0 {
        single_levels_need_no_passes(levels, layers.drop_last());
    }
}

/// A mip chain has as many levels as the longer side has binary digits: halving the
/// side takes one away, and a single pixel has one.
pub proof fn halving_takes_a_level_away(width: int, height: int)
    requires
        0 <= width,
        0 <= height,
    ensures
        level_count(1, 1) == 1,
        level_count(width, height) == level_count(height, width),
        width >= 1 || height >= 1 ==> level_count(width, height) == level_count(
            width / 2,
            height / 2,
        ) + 1,
{
    reveal_with_fuel(bit_length, 3);
    assert(numeric::larger(width, height) / 2 == numeric::larger(width / 2, height / 2));
}

} // verus!
