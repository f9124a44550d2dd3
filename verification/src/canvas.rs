//! Drawing on an RGBA canvas of four binary32 channels per pixel.
//!
//! A canvas is the list of its channels, row by row, each by its bits. The
//! height follows from the length of the list and the width.
use vstd::arithmetic::div_mod::*;
use vstd::prelude::*;

use crate::numeric;
use crate::numeric::min_usize;
use crate::units::usize_from_u32;

verus! {

/// The column of the pixel that a channel belongs to.
pub open spec fn column_of(channel: int, width: int) -> int {
    (channel / 4) % width
}

/// The row of the pixel that a channel belongs to.
pub open spec fn row_of(channel: int, width: int) -> int {
    (channel / 4) / width
}

/// The rows of a canvas with so many channels.
pub open spec fn canvas_height(channels: nat, width: int) -> int {
    (channels as int / 4) / width
}

/// A pixel number is its row and its column.
proof fn lemma_pixel_place(pixel: int, width: int, row: int, column: int)
    requires
        0 <= column < width,
        0 <= row,
        0 <= pixel,
    ensures
        (pixel / width == row && pixel % width == column) <==> pixel == row * width + column,
{
    if pixel == row * width + column {
        lemma_fundamental_div_mod_converse(pixel, width, row, column);
    }
    if pixel / width == row && pixel % width == column {
        lemma_fundamental_div_mod(pixel, width);
        assert(width * row == row * width) by (nonlinear_arith);
    }
}

/// A pixel inside the canvas has its four channels there.
proof fn lemma_pixel_fits(channels: nat, width: int, row: int, column: int)
    requires
        0 <= column < width,
        0 <= row < canvas_height(channels, width),
    ensures
        0 <= row * width + column,
        4 * (row * width + column) + 3 < channels,
        row * width + column < channels as int / 4,
{
    let pixels = channels as int / 4;
    let height = pixels / width;
    lemma_fundamental_div_mod(pixels, width);
    assert(row * width + column <= (row + 1) * width - 1) by (nonlinear_arith)
        requires
            column < width,
    ;
    assert((row + 1) * width <= height * width) by (nonlinear_arith)
        requires
            row + 1 <= height,
            width > 0,
    ;
    assert(height * width == width * height) by (nonlinear_arith);
    assert(0 <= row * width) by (nonlinear_arith)
        requires
            0 <= row,
            0 < width,
    ;
}

/// Sets every whole pixel to one colour.
pub fn fill(pixels: &mut Vec<u32>, rgba: [u32; 4])
    ensures
        final(pixels)@ == Seq::new(
            old(pixels)@.len(),
            |i: int|
                if i < old(pixels)@.len() / 4 * 4 {
                    rgba@[i % 4]
                } else {
                    old(pixels)@[i]
                },
        ),
{
    let whole: usize = pixels.len() / 4 * 4;
    let mut index: usize = 0;
    while index < whole
        invariant
            index <= whole,
            whole == old(pixels)@.len() / 4 * 4,
            pixels@.len() == old(pixels)@.len(),
            forall|i: int| 0 <= i < index ==> pixels@[i] == rgba@[i % 4],
            forall|i: int| index <= i < pixels@.len() ==> pixels@[i] == old(pixels)@[i],
        decreases whole - index,
    {
        pixels.set(index, rgba[index % 4]);
        index += 1;
    }
    assert(pixels@ =~= Seq::new(
        old(pixels)@.len(),
        |i: int|
            if i < old(pixels)@.len() / 4 * 4 {
                rgba@[i % 4]
            } else {
                old(pixels)@[i]
            },
    ));
}

/// The colour of a horizontal rule; its opacity is that of the canvas.
pub open spec fn rule_color(channel: int) -> u32 {
    if channel % 4 == 0 {
        RULE_RED
    } else if channel % 4 == 1 {
        RULE_GREEN
    } else {
        RULE_BLUE
    }
}

/// The bits of 0.20.
pub const RULE_RED: u32 = 0x3e4c_cccd;

/// The bits of 0.23.
pub const RULE_GREEN: u32 = 0x3e6b_851f;

/// The bits of 0.29.
pub const RULE_BLUE: u32 = 0x3e94_7ae1;

/// Whether a channel lies in a rectangle, which the canvas clips.
pub open spec fn in_rectangle(
    channel: int,
    channels: nat,
    canvas_width: int,
    x: int,
    y: int,
    width: int,
    height: int,
) -> bool {
    &&& x <= column_of(channel, canvas_width) < x + width
    &&& y <= row_of(channel, canvas_width) < y + height
    &&& row_of(channel, canvas_width) < canvas_height(channels, canvas_width)
}

/// A canvas with a rule drawn on it.
pub open spec fn with_rule(
    pixels: Seq<u32>,
    canvas_width: int,
    x: int,
    y: int,
    rule_width: int,
    thickness: int,
) -> Seq<u32> {
    Seq::new(
        pixels.len(),
        |i: int|
            if i % 4 < 3 && in_rectangle(
                i,
                pixels.len(),
                canvas_width,
                x,
                y,
                rule_width,
                thickness,
            ) {
                rule_color(i)
            } else {
                pixels[i]
            },
    )
}

/// The sum of two numbers, or the largest number where it does not fit.
fn saturating_end(start: usize, length: usize) -> (end: usize)
    ensures
        end == if start + length <= usize::MAX {
            start + length
        } else {
            usize::MAX as int
        },
{
    match start.checked_add(length) {
        Some(end) => end,
        None => usize::MAX,
    }
}

/// Draws a horizontal rule.
pub fn draw_horizontal_rule(
    pixels: &mut Vec<u32>,
    canvas_width: usize,
    x: usize,
    y: usize,
    rule_width: usize,
    thickness: usize,
)
    requires
        canvas_width > 0,
    ensures
        final(pixels)@ == with_rule(
            old(pixels)@,
            canvas_width as int,
            x as int,
            y as int,
            rule_width as int,
            thickness as int,
        ),
{
    let height: usize = pixels.len() / 4 / canvas_width;
    let bottom: usize = min_usize(saturating_end(y, thickness), height);
    let right: usize = min_usize(saturating_end(x, rule_width), canvas_width);
    let ghost before = pixels@;
    let ghost n = pixels@.len();
    let ghost w = canvas_width as int;
    assert(n == pixels.len());
    let mut pixel_y: usize = y;
    while pixel_y < bottom
        invariant
            canvas_width > 0,
            w == canvas_width,
            n == before.len() <= usize::MAX,
            pixels@.len() == n,
            height == canvas_height(n, w),
            bottom <= height,
            right <= canvas_width,
            y <= pixel_y,
            pixel_y <= bottom || bottom <= y,
            forall|i: int|
                0 <= i < n ==> pixels@[i] == if i % 4 < 3 && x <= column_of(i, w) < right && y
                    <= row_of(i, w) < pixel_y && pixel_y <= bottom {
                    rule_color(i)
                } else {
                    before[i]
                },
        decreases bottom - pixel_y,
    {
        let mut pixel_x: usize = x;
        while pixel_x < right
            invariant
                canvas_width > 0,
                w == canvas_width,
                n == before.len() <= usize::MAX,
                pixels@.len() == n,
                height == canvas_height(n, w),
                bottom <= height,
                right <= canvas_width,
                y <= pixel_y < bottom,
                x <= pixel_x,
                forall|i: int|
                    0 <= i < n ==> pixels@[i] == if i % 4 < 3 && x <= column_of(i, w) < right && y
                        <= row_of(i, w) && (row_of(i, w) < pixel_y || (row_of(i, w) == pixel_y
                        && column_of(i, w) < pixel_x)) {
                        rule_color(i)
                    } else {
                        before[i]
                    },
            decreases right - pixel_x,
        {
            proof {
                lemma_pixel_fits(n, w, pixel_y as int, pixel_x as int);
            }
            assert(0 <= pixel_y * canvas_width <= pixel_y * canvas_width + pixel_x)
                by (nonlinear_arith)
                requires
                    0 <= pixel_y,
                    0 <= canvas_width,
                    0 <= pixel_x,
            ;
            let pixel: usize = pixel_y * canvas_width + pixel_x;
            let ghost drawn = pixels@;
            pixels.set(4 * pixel, RULE_RED);
            pixels.set(4 * pixel + 1, RULE_GREEN);
            pixels.set(4 * pixel + 2, RULE_BLUE);
            assert forall|i: int| 0 <= i < n implies pixels@[i] == if i % 4 < 3 && x <= column_of(
                i,
                w,
            ) < right && y <= row_of(i, w) && (row_of(i, w) < pixel_y || (row_of(i, w) == pixel_y
                && column_of(i, w) < pixel_x + 1)) {
                rule_color(i)
            } else {
                before[i]
            } by {
                lemma_pixel_place(i / 4, w, pixel_y as int, pixel_x as int);
                if i / 4 == pixel {
                    assert(row_of(i, w) == pixel_y && column_of(i, w) == pixel_x);
                    if i % 4 == 3 {
                        assert(pixels@[i] == drawn[i]);
                        assert(drawn[i] == before[i]);
                    } else {
                        assert(pixels@[i] == rule_color(i));
                    }
                } else {
                    assert(row_of(i, w) != pixel_y || column_of(i, w) != pixel_x);
                    assert(pixels@[i] == drawn[i]);
                }
            }
            pixel_x += 1;
        }
        assert forall|i: int| 0 <= i < n implies pixels@[i] == if i % 4 < 3 && x <= column_of(i, w)
            < right && y <= row_of(i, w) < pixel_y + 1 && pixel_y + 1 <= bottom {
            rule_color(i)
        } else {
            before[i]
        } by {
            lemma_mod_bound(i / 4, w);
        }
        pixel_y += 1;
    }
    assert(pixels@ =~= with_rule(
        before,
        w,
        x as int,
        y as int,
        rule_width as int,
        thickness as int,
    )) by {
        assert forall|i: int| 0 <= i < n implies pixels@[i] == with_rule(
            before,
            w,
            x as int,
            y as int,
            rule_width as int,
            thickness as int,
        )[i] by {
            lemma_mod_bound(i / 4, w);
        }
    }
}

/// A channel offset at which a pixel begins, and how much of that pixel a glyph
/// covers, in 255ths.
#[derive(Clone, Copy, Debug, PartialEq, Eq, Structural)]
pub struct CoveredPixel {
    pub offset: usize,
    pub coverage: u8,
}

/// The size of a canvas: its channels and its width.
#[derive(Clone, Copy, Debug, PartialEq, Eq, Structural)]
pub struct CanvasSize {
    pub channels: usize,
    pub width: usize,
}

/// Where a glyph is drawn and how large its bitmap is.
#[derive(Clone, Copy, Debug, PartialEq, Eq, Structural)]
pub struct GlyphPlacement {
    pub x: i32,
    pub y: i32,
    pub width: usize,
    pub height: usize,
}

impl GlyphPlacement {
    /// Whether every pixel of the glyph has `i32` coordinates. Distances from its
    /// origin count as the largest `i32` where they are larger.
    pub open spec fn is_addressable(self) -> bool {
        self.width == 0 || self.height == 0 || (self.x + capped_i32(self.width - 1) <= i32::MAX
            && self.y + capped_i32(self.height - 1) <= i32::MAX)
    }

    /// The column of a bitmap position.
    pub open spec fn column(self, position: int) -> int {
        self.x + capped_i32(position % self.width as int)
    }

    /// The row of a bitmap position.
    pub open spec fn row(self, position: int) -> int {
        self.y + capped_i32(position / self.width as int)
    }
}

/// The pixels that the first `count` positions of a bitmap cover, in the order
/// of the bitmap. Positions beside the canvas are left out.
pub open spec fn covered_pixels(
    bitmap: Seq<u8>,
    glyph: GlyphPlacement,
    canvas: CanvasSize,
    count: nat,
) -> Seq<CoveredPixel>
    decreases count,
{
    if count == 0 {
        Seq::empty()
    } else {
        let before = covered_pixels(bitmap, glyph, canvas, (count - 1) as nat);
        let position = count - 1;
        let column = glyph.column(position);
        let row = glyph.row(position);
        if bitmap[position] != 0 && 0 <= column < canvas.width && 0 <= row < canvas_height(
            canvas.channels as nat,
            canvas.width as int,
        ) {
            before.push(
                CoveredPixel {
                    offset: (4 * (row * canvas.width + column)) as usize,
                    coverage: bitmap[position],
                },
            )
        } else {
            before
        }
    }
}

/// Lists the pixels that a rasterized glyph covers.
pub fn blend_rasterized_glyph(bitmap: &[u8], glyph: GlyphPlacement, canvas: CanvasSize) -> (covered:
    Vec<CoveredPixel>)
    requires
        canvas.width > 0,
        glyph.is_addressable(),
        glyph.width * glyph.height <= bitmap@.len(),
    ensures
        covered@ == covered_pixels(
            bitmap@,
            glyph,
            canvas,
            (glyph.width * glyph.height) as nat,
        ),
        forall|i: int|
            0 <= i < covered@.len() ==> #[trigger] covered@[i].offset + 3 < canvas.channels,
{
    let height: usize = canvas.channels / 4 / canvas.width;
    assert(bitmap@.len() == bitmap.len());
    let count: usize = glyph.width * glyph.height;
    let mut covered: Vec<CoveredPixel> = Vec::new();
    let mut position: usize = 0;
    while position < count
        invariant
            position <= count,
            count == glyph.width * glyph.height,
            count <= bitmap@.len(),
            canvas.width > 0,
            glyph.is_addressable(),
            height == canvas_height(canvas.channels as nat, canvas.width as int),
            covered@ == covered_pixels(bitmap@, glyph, canvas, position as nat),
            forall|i: int|
                0 <= i < covered@.len() ==> #[trigger] covered@[i].offset + 3 < canvas.channels,
        decreases count - position,
    {
        assert(glyph.width > 0) by (nonlinear_arith)
            requires
                position < count,
                count == glyph.width * glyph.height,
                position >= 0,
        ;
        assert(0 <= position / glyph.width < glyph.height) by (nonlinear_arith)
            requires
                0 <= position < count,
                count == glyph.width * glyph.height,
                glyph.width > 0,
        ;
        proof {
            lemma_mod_bound(position as int, glyph.width as int);
        }
        let coverage: u8 = bitmap[position];
        let column: i32 = glyph.x + cap_i32((position % glyph.width) as u64);
        let row: i32 = glyph.y + cap_i32((position / glyph.width) as u64);
        if coverage != 0 && column >= 0 && row >= 0 && (column as u64) < canvas.width as u64 && (
        row as u64) < height as u64 {
            proof {
                lemma_pixel_fits(
                    canvas.channels as nat,
                    canvas.width as int,
                    row as int,
                    column as int,
                );
            }
            assert(0 <= row * canvas.width <= row * canvas.width + column) by (nonlinear_arith)
                requires
                    0 <= row,
                    0 <= canvas.width,
                    0 <= column,
            ;
            let pixel: usize = row as usize * canvas.width + column as usize;
            covered.push(CoveredPixel { offset: 4 * pixel, coverage });
        }
        position += 1;
    }
    covered
}

/// A count as an `i32`, capped at the largest one.
pub open spec fn capped_i32(value: int) -> int {
    numeric::smaller(value, i32::MAX as int)
}

/// A count as an `i32`, capped at the largest one.
fn cap_i32(value: u64) -> (capped: i32)
    ensures
        capped == capped_i32(value as int),
{
    if value <= i32::MAX as u64 {
        value as i32
    } else {
        i32::MAX
    }
}

/// The upper left corner of a glyph, from the column of the cursor and the
/// baseline, given the glyph's offsets from them and its height.
pub fn glyph_origin(cursor: i32, xmin: i32, baseline: u64, ymin: i32, height: u64) -> (origin: (
    i32,
    i32,
))
    requires
        i32::MIN <= cursor + xmin <= i32::MAX,
        i32::MIN <= capped_i32(baseline as int) - ymin <= i32::MAX,
        i32::MIN <= capped_i32(baseline as int) - ymin - capped_i32(height as int),
    ensures
        origin.0 == cursor + xmin,
        origin.1 == capped_i32(baseline as int) - ymin - capped_i32(height as int),
{
    (cursor + xmin, cap_i32(baseline) - ymin - cap_i32(height))
}

/// The pixel of an icon that a channel shows, if the icon reaches there: the
/// offset of its first byte.
pub open spec fn icon_offset(
    channel: int,
    channels: nat,
    canvas_width: int,
    x: int,
    y: int,
    icon_size: int,
    icon_bytes: nat,
) -> Option<int> {
    let column = column_of(channel, canvas_width) - x;
    let row = row_of(channel, canvas_width) - y;
    if 0 <= column < icon_size && 0 <= row < icon_bytes as int / 4 / icon_size && row_of(
        channel,
        canvas_width,
    ) < canvas_height(channels, canvas_width) {
        Some(4 * (row * icon_size + column))
    } else {
        None
    }
}

/// A channel of an icon's pixel in linear light. A pixel without opacity is
/// zero throughout.
pub open spec fn icon_channel(
    icon: Seq<u8>,
    offset: int,
    channel: int,
    linear: Seq<u32>,
    opacity: Seq<u32>,
) -> u32 {
    if icon[offset + 3] == 0 {
        0
    } else if channel == 3 {
        opacity[icon[offset + 3] as int]
    } else {
        linear[icon[offset + channel] as int]
    }
}

/// A canvas with an icon drawn on it.
pub open spec fn with_icon(
    pixels: Seq<u32>,
    canvas_width: int,
    x: int,
    y: int,
    icon: Seq<u8>,
    icon_size: int,
    linear: Seq<u32>,
    opacity: Seq<u32>,
) -> Seq<u32> {
    Seq::new(
        pixels.len(),
        |i: int|
            match icon_offset(i, pixels.len(), canvas_width, x, y, icon_size, icon.len()) {
                Some(offset) => icon_channel(icon, offset, i % 4, linear, opacity),
                None => pixels[i],
            },
    )
}

/// Draws a square sRGB icon of `logo_px` pixels on a side. `linear` and
/// `opacity` give the linear light and the opacity of each byte value.
pub fn draw_svg_logo(
    pixels: &mut Vec<u32>,
    canvas_width: usize,
    x: usize,
    y: usize,
    icon: &[u8],
    logo_px: u32,
    linear: &[u32],
    opacity: &[u32],
)
    requires
        canvas_width > 0,
        logo_px > 0,
        linear@.len() == 256,
        opacity@.len() == 256,
    ensures
        final(pixels)@ == with_icon(
            old(pixels)@,
            canvas_width as int,
            x as int,
            y as int,
            icon@,
            logo_px as int,
            linear@,
            opacity@,
        ),
{
    let size: usize = usize_from_u32(logo_px);
    let height: usize = pixels.len() / 4 / canvas_width;
    let rows: usize = icon.len() / 4 / size;
    let ghost before = pixels@;
    let ghost n = pixels@.len();
    let ghost w = canvas_width as int;
    assert(n == pixels.len());
    let mut source_y: usize = 0;
    while source_y < rows && y < height && source_y < height - y
        invariant
            canvas_width > 0,
            w == canvas_width,
            size == logo_px > 0,
            linear@.len() == 256,
            opacity@.len() == 256,
            n == before.len() <= usize::MAX,
            pixels@.len() == n,
            height == canvas_height(n, w),
            rows == icon@.len() as int / 4 / size as int,
            source_y <= rows,
            source_y > 0 ==> y + source_y <= height,
            forall|i: int|
                0 <= i < n ==> pixels@[i] == match icon_offset(
                    i,
                    n,
                    w,
                    x as int,
                    y as int,
                    size as int,
                    icon@.len(),
                ) {
                    Some(offset) if row_of(i, w) < y + source_y => icon_channel(
                        icon@,
                        offset,
                        i % 4,
                        linear@,
                        opacity@,
                    ),
                    _ => before[i],
                },
        decreases rows - source_y,
    {
        let ghost row = y + source_y;
        let mut source_x: usize = 0;
        while source_x < size && x < canvas_width && source_x < canvas_width - x
            invariant
                canvas_width > 0,
                w == canvas_width,
                size == logo_px > 0,
                linear@.len() == 256,
                opacity@.len() == 256,
                n == before.len() <= usize::MAX,
                pixels@.len() == n,
                height == canvas_height(n, w),
                rows == icon@.len() as int / 4 / size as int,
                source_y < rows,
                row == y + source_y < height,
                source_x <= size,
                source_x > 0 ==> x + source_x <= canvas_width,
                forall|i: int|
                    0 <= i < n ==> pixels@[i] == match icon_offset(
                        i,
                        n,
                        w,
                        x as int,
                        y as int,
                        size as int,
                        icon@.len(),
                    ) {
                        Some(offset) if row_of(i, w) < row || (row_of(i, w) == row && column_of(
                            i,
                            w,
                        ) < x + source_x) => icon_channel(
                            icon@,
                            offset,
                            i % 4,
                            linear@,
                            opacity@,
                        ),
                        _ => before[i],
                    },
            decreases size - source_x,
        {
            let pixel_x: usize = x + source_x;
            let pixel_y: usize = y + source_y;
            proof {
                lemma_pixel_fits(n, w, pixel_y as int, pixel_x as int);
                lemma_pixel_fits(icon@.len(), size as int, source_y as int, source_x as int);
                assert(icon@.len() == icon.len());
            }
            assert(0 <= pixel_y * canvas_width <= pixel_y * canvas_width + pixel_x)
                by (nonlinear_arith)
                requires
                    0 <= pixel_y,
                    0 <= canvas_width,
                    0 <= pixel_x,
            ;
            assert(0 <= source_y * size <= source_y * size + source_x) by (nonlinear_arith)
                requires
                    0 <= source_y,
                    0 <= size,
                    0 <= source_x,
            ;
            let target: usize = 4 * (pixel_y * canvas_width + pixel_x);
            let source: usize = 4 * (source_y * size + source_x);
            let alpha: u8 = icon[source + 3];
            if alpha == 0 {
                pixels.set(target, 0);
                pixels.set(target + 1, 0);
                pixels.set(target + 2, 0);
                pixels.set(target + 3, 0);
            } else {
                pixels.set(target, linear[icon[source] as usize]);
                pixels.set(target + 1, linear[icon[source + 1] as usize]);
                pixels.set(target + 2, linear[icon[source + 2] as usize]);
                pixels.set(target + 3, opacity[alpha as usize]);
            }
            assert forall|i: int| 0 <= i < n implies pixels@[i] == match icon_offset(
                i,
                n,
                w,
                x as int,
                y as int,
                size as int,
                icon@.len(),
            ) {
                Some(offset) if row_of(i, w) < row || (row_of(i, w) == row && column_of(i, w) < x
                    + source_x + 1) => icon_channel(icon@, offset, i % 4, linear@, opacity@),
                _ => before[i],
            } by {
                lemma_pixel_place(i / 4, w, pixel_y as int, pixel_x as int);
            }
            source_x += 1;
        }
        assert forall|i: int| 0 <= i < n implies pixels@[i] == match icon_offset(
            i,
            n,
            w,
            x as int,
            y as int,
            size as int,
            icon@.len(),
        ) {
            Some(offset) if row_of(i, w) < y + source_y + 1 => icon_channel(
                icon@,
                offset,
                i % 4,
                linear@,
                opacity@,
            ),
            _ => before[i],
        } by {
            lemma_mod_bound(i / 4, w);
        }
        source_y += 1;
    }
    assert(pixels@ =~= with_icon(
        before,
        w,
        x as int,
        y as int,
        icon@,
        logo_px as int,
        linear@,
        opacity@,
    ));
}

/// A rule colours exactly the pixels of its rectangle that lie on the canvas, in all
/// three colours, and leaves every other pixel, and every opacity, as it is.
pub proof fn rules_colour_their_rectangle(
    pixels: Seq<u32>,
    canvas_width: int,
    x: int,
    y: int,
    rule_width: int,
    thickness: int,
    column: int,
    row: int,
    channel: int,
)
    requires
        0 < canvas_width,
        0 <= column < canvas_width,
        0 <= row < canvas_height(pixels.len(), canvas_width),
        0 <= channel < 4,
    ensures
        ({
            let drawn = with_rule(pixels, canvas_width, x, y, rule_width, thickness);
            let place = 4 * (row * canvas_width + column) + channel;
            &&& drawn.len() == pixels.len()
            &&& 0 <= place < pixels.len()
            &&& drawn[place] == if x <= column < x + rule_width && y <= row < y + thickness
                && channel < 3 {
                if channel == 0 {
                    RULE_RED
                } else if channel == 1 {
                    RULE_GREEN
                } else {
                    RULE_BLUE
                }
            } else {
                pixels[place]
            }
        }),
{
    lemma_pixel_fits(pixels.len(), canvas_width, row, column);
    lemma_pixel_place(row * canvas_width + column, canvas_width, row, column);
    let place = 4 * (row * canvas_width + column) + channel;
    assert(place / 4 == row * canvas_width + column);
    assert(place % 4 == channel);
}

/// An icon is drawn pixel by pixel from its corner on, each pixel of it at the same
/// distance from the corner: its colours in linear light and its opacity, or nothing
/// where it is transparent. Pixels of the canvas beside the icon stay.
pub proof fn icons_are_drawn_from_their_corner(
    pixels: Seq<u32>,
    canvas_width: int,
    x: int,
    y: int,
    icon: Seq<u8>,
    icon_size: int,
    linear: Seq<u32>,
    opacity: Seq<u32>,
    column: int,
    row: int,
    channel: int,
)
    requires
        0 < canvas_width,
        0 < icon_size,
        icon.len() == icon_size * icon_size * 4,
        0 <= column < canvas_width,
        0 <= row < canvas_height(pixels.len(), canvas_width),
        0 <= channel < 4,
    ensures
        ({
            let drawn = with_icon(
                pixels,
                canvas_width,
                x,
                y,
                icon,
                icon_size,
                linear,
                opacity,
            );
            let place = 4 * (row * canvas_width + column) + channel;
            let source = 4 * ((row - y) * icon_size + (column - x));
            &&& drawn.len() == pixels.len()
            &&& 0 <= place < pixels.len()
            &&& drawn[place] == if x <= column < x + icon_size && y <= row < y + icon_size {
                if icon[source + 3] == 0 {
                    0
                } else if channel < 3 {
                    linear[icon[source + channel] as int]
                } else {
                    opacity[icon[source + 3] as int]
                }
            } else {
                pixels[place]
            }
        }),
{
    lemma_pixel_fits(pixels.len(), canvas_width, row, column);
    lemma_pixel_place(row * canvas_width + column, canvas_width, row, column);
    let place = 4 * (row * canvas_width + column) + channel;
    assert(place / 4 == row * canvas_width + column);
    assert(place % 4 == channel);
    assert(icon.len() as int / 4 == icon_size * icon_size);
    assert(icon_size * icon_size / icon_size == icon_size) by (nonlinear_arith)
        requires
            icon_size > 0,
    ;
}

/// A glyph is drawn where it was put: of each position of its bitmap that is covered and
/// lies on the canvas, the pixel at the same distance from the glyph's corner is
/// listed, with that coverage.
pub proof fn glyphs_cover_their_pixels(
    bitmap: Seq<u8>,
    glyph: GlyphPlacement,
    canvas: CanvasSize,
    count: nat,
    column: int,
    row: int,
)
    requires
        0 < canvas.width,
        0 <= column < glyph.width <= i32::MAX,
        0 <= row < glyph.height <= i32::MAX,
        row * glyph.width + column < count,
        bitmap[row * glyph.width + column] != 0,
        0 <= glyph.x + column < canvas.width,
        0 <= glyph.y + row < canvas_height(canvas.channels as nat, canvas.width as int),
    ensures
        covered_pixels(bitmap, glyph, canvas, count).contains(
            CoveredPixel {
                offset: (4 * ((glyph.y + row) * canvas.width + (glyph.x + column))) as usize,
                coverage: bitmap[row * glyph.width + column],
            },
        ),
    decreases count,
{
    let position = row * glyph.width + column;
    assert(0 <= position) by (nonlinear_arith)
        requires
            position == row * glyph.width + column,
            0 <= row,
            0 <= column,
            0 <= glyph.width,
    ;
    lemma_pixel_place(position, glyph.width as int, row, column);
    let listed = covered_pixels(bitmap, glyph, canvas, count);
    if position == count - 1 {
        assert(listed.last() == (CoveredPixel {
            offset: (4 * ((glyph.y + row) * canvas.width + (glyph.x + column))) as usize,
            coverage: bitmap[position],
        }));
    } else {
        glyphs_cover_their_pixels(bitmap, glyph, canvas, (count - 1) as nat, column, row);
        let before = covered_pixels(bitmap, glyph, canvas, (count - 1) as nat);
        let pixel = CoveredPixel {
            offset: (4 * ((glyph.y + row) * canvas.width + (glyph.x + column))) as usize,
            coverage: bitmap[position],
        };
        let i = choose|i: int| 0 <= i < before.len() && before[i] == pixel;
        assert(listed[i] == pixel);
    }
}

/// Nothing else is drawn: every listed pixel belongs to a covered position of the
/// bitmap, once each.
pub proof fn glyphs_cover_no_other_pixels(
    bitmap: Seq<u8>,
    glyph: GlyphPlacement,
    canvas: CanvasSize,
    count: nat,
    index: int,
)
    requires
        0 <= index < covered_pixels(bitmap, glyph, canvas, count).len(),
    ensures
        covered_pixels(bitmap, glyph, canvas, count).len() <= count,
        exists|position: int|
            #![trigger bitmap[position]]
            0 <= position < count && bitmap[position] != 0 && covered_pixels(
                bitmap,
                glyph,
                canvas,
                count,
            )[index].coverage == bitmap[position] && 0 <= glyph.column(position) < canvas.width && 0
                <= glyph.row(position) && covered_pixels(bitmap, glyph, canvas, count)[index].offset
                == (4 * (glyph.row(position) * canvas.width + glyph.column(position))) as usize,
    decreases count,
{
    lemma_covered_count(bitmap, glyph, canvas, count);
    let before = covered_pixels(bitmap, glyph, canvas, (count - 1) as nat);
    if index < before.len() {
        glyphs_cover_no_other_pixels(bitmap, glyph, canvas, (count - 1) as nat, index);
    } else {
        assert(bitmap[count - 1] != 0);
    }
}

proof fn lemma_covered_count(
    bitmap: Seq<u8>,
    glyph: GlyphPlacement,
    canvas: CanvasSize,
    count: nat,
)
    ensures
        covered_pixels(bitmap, glyph, canvas, count).len() <= count,
    decreases count,
{
    if count > 0 {
        lemma_covered_count(bitmap, glyph, canvas, (count - 1) as nat);
    }
}

/// The place of a bitmap position lies as far from the glyph's corner as the position
/// from the bitmap's, row by row.
pub proof fn bitmap_positions_go_row_by_row(glyph: GlyphPlacement, column: int, row: int)
    requires
        0 <= column < glyph.width <= i32::MAX,
        0 <= row <= i32::MAX,
    ensures
        glyph.column(row * glyph.width + column) == glyph.x + column,
        glyph.row(row * glyph.width + column) == glyph.y + row,
{
    assert(0 <= row * glyph.width + column) by (nonlinear_arith)
        requires
            0 <= row,
            0 <= column,
            0 <= glyph.width,
    ;
    lemma_pixel_place(row * glyph.width + column, glyph.width as int, row, column);
}

} // verus!
