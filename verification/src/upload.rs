//! Row geometry of texture uploads through a reusable, row-aligned staging
//! allocation.
use core::ops::Range;

use vstd::arithmetic::div_mod::*;
use vstd::arithmetic::mul::*;
use vstd::prelude::*;
use vstd::slice::slice_subrange;

use crate::mip::copy_row_alignment;
use crate::numeric;
use crate::numeric::{max_usize, min_u32, min_usize};
use crate::text;
use crate::text::{push_decimal, push_text};

verus! {

/// The largest staging allocation that more than one row may share.
pub const MAX_STAGING_BYTES: usize = 16777216;

/// The bytes of one RGBA16F pixel.
pub const RGBA16F_BYTES_PER_PIXEL: u32 = 8;

/// Why an upload cannot be laid out, or does not fit its layout.
#[derive(Clone, Copy, Debug, PartialEq, Eq)]
pub enum UploadError {
    ZeroDimensions { context: &'static str },
    RowSize { context: &'static str },
    RowAlignment { context: &'static str },
    SourceSize { context: &'static str },
    StagingSize { context: &'static str },
    SourceLength { context: &'static str, expected: usize, actual: usize },
    SampleCountOverflow { context: &'static str },
    SampleCount { context: &'static str, expected: usize, actual: usize },
}

/// The text of an upload error.
pub open spec fn upload_error_text(error: UploadError) -> Seq<char> {
    match error {
        UploadError::ZeroDimensions { context } => context@ + " dimensions must be non-zero"@,
        UploadError::RowSize { context } => context@ + " row size overflowed"@,
        UploadError::RowAlignment { context } => context@ + " row alignment overflowed"@,
        UploadError::SourceSize { context } => context@ + " source size overflowed"@,
        UploadError::StagingSize { context } => context@ + " staging size overflowed"@,
        UploadError::SourceLength { context, expected, actual } => context@ + " expected "@
            + text::decimal(expected as nat) + " bytes, got "@ + text::decimal(actual as nat),
        UploadError::SampleCountOverflow { context } => context@ + " sample count overflowed"@,
        UploadError::SampleCount { context, expected, actual } => context@ + " expected "@
            + text::decimal(expected as nat) + " samples, got "@ + text::decimal(actual as nat),
    }
}

impl UploadError {
    /// The message shown for the error.
    pub fn message(&self) -> (message: String)
        ensures
            message@ == upload_error_text(*self),
    {
        let mut message = String::new();
        match *self {
            UploadError::ZeroDimensions { context } => {
                push_text(&mut message, context);
                push_text(&mut message, " dimensions must be non-zero");
            },
            UploadError::RowSize { context } => {
                push_text(&mut message, context);
                push_text(&mut message, " row size overflowed");
            },
            UploadError::RowAlignment { context } => {
                push_text(&mut message, context);
                push_text(&mut message, " row alignment overflowed");
            },
            UploadError::SourceSize { context } => {
                push_text(&mut message, context);
                push_text(&mut message, " source size overflowed");
            },
            UploadError::StagingSize { context } => {
                push_text(&mut message, context);
                push_text(&mut message, " staging size overflowed");
            },
            UploadError::SourceLength { context, expected, actual } => {
                push_text(&mut message, context);
                push_text(&mut message, " expected ");
                push_decimal(&mut message, expected as u64);
                push_text(&mut message, " bytes, got ");
                push_decimal(&mut message, actual as u64);
            },
            UploadError::SampleCountOverflow { context } => {
                push_text(&mut message, context);
                push_text(&mut message, " sample count overflowed");
            },
            UploadError::SampleCount { context, expected, actual } => {
                push_text(&mut message, context);
                push_text(&mut message, " expected ");
                push_decimal(&mut message, expected as u64);
                push_text(&mut message, " samples, got ");
                push_decimal(&mut message, actual as u64);
            },
        }
        assert(message@ =~= upload_error_text(*self));
        message
    }
}

/// Validated row geometry for one tightly packed CPU image uploaded to a GPU
/// texture through a reusable, row-aligned staging allocation.
#[derive(Clone, Copy, Debug, PartialEq, Eq)]
pub struct TextureUploadLayout {
    pub context: &'static str,
    pub width: u32,
    pub height: u32,
    pub row_bytes: u32,
    pub padded_row_bytes: u32,
    pub rows_per_stripe: u32,
    pub source_bytes: usize,
    pub staging_bytes: usize,
}

/// The rows of one copy into a texture.
#[derive(Clone, Copy, Debug, PartialEq, Eq, Structural)]
pub struct UploadStripe {
    pub first_row: u32,
    pub row_count: u32,
}

/// How the rows of a copied buffer lie in memory.
#[derive(Clone, Copy, Debug, PartialEq, Eq, Structural)]
pub struct CopyBufferLayout {
    pub offset: u64,
    pub bytes_per_row: u32,
    pub rows_per_image: u32,
}

/// The texels that one copy writes.
#[derive(Clone, Copy, Debug, PartialEq, Eq, Structural)]
pub struct CopyExtent {
    pub width: u32,
    pub height: u32,
    pub depth_or_array_layers: u32,
}

/// Row bytes rounded up to the copy alignment.
pub open spec fn aligned_row(row_bytes: int) -> int {
    (row_bytes + 255) / 256 * 256
}

/// The rows that share one staging allocation: as many as the staging limit
/// holds, at least one, and no more than there are.
pub open spec fn stripe_rows(padded_row_bytes: int, height: int) -> int {
    numeric::smaller(numeric::larger(MAX_STAGING_BYTES as int / padded_row_bytes, 1), height)
}

/// The layout of an upload, or the first limit that it breaks.
pub open spec fn planned_layout(
    width: u32,
    height: u32,
    bytes_per_pixel: u32,
    context: &'static str,
) -> Result<TextureUploadLayout, UploadError> {
    let row_bytes = width * bytes_per_pixel;
    let padded = aligned_row(row_bytes);
    let rows = stripe_rows(padded, height as int);
    if width == 0 || height == 0 {
        Err(UploadError::ZeroDimensions { context })
    } else if row_bytes > u32::MAX {
        Err(UploadError::RowSize { context })
    } else if row_bytes + 255 > u32::MAX {
        Err(UploadError::RowAlignment { context })
    } else if row_bytes * height > usize::MAX {
        Err(UploadError::SourceSize { context })
    } else if padded * rows > usize::MAX {
        Err(UploadError::StagingSize { context })
    } else {
        Ok(
            TextureUploadLayout {
                context,
                width,
                height,
                row_bytes: row_bytes as u32,
                padded_row_bytes: padded as u32,
                rows_per_stripe: rows as u32,
                source_bytes: (row_bytes * height) as usize,
                staging_bytes: (padded * rows) as usize,
            },
        )
    }
}

/// The layout of an upload of four samples per pixel, each of two bytes once it
/// is encoded, or the first limit that the upload breaks.
pub open spec fn planned_texture(
    width: u32,
    height: u32,
    samples: usize,
    context: &'static str,
) -> Result<TextureUploadLayout, UploadError> {
    match planned_layout(width, height, RGBA16F_BYTES_PER_PIXEL, context) {
        Ok(layout) => if width * height * 4 > usize::MAX {
            Err(UploadError::SampleCountOverflow { context })
        } else if samples != width * height * 4 {
            Err(
                UploadError::SampleCount {
                    context,
                    expected: (width * height * 4) as usize,
                    actual: samples,
                },
            )
        } else {
            Ok(layout)
        },
        Err(error) => Err(error),
    }
}

/// The stripes from `next_row` to the last row.
pub open spec fn stripes_from(next_row: int, height: int, rows_per_stripe: int) -> Seq<UploadStripe>
    decreases height - next_row,
{
    if next_row >= height || rows_per_stripe <= 0 {
        Seq::empty()
    } else {
        let row_count = numeric::smaller(rows_per_stripe, height - next_row);
        seq![UploadStripe { first_row: next_row as u32, row_count: row_count as u32 }]
            + stripes_from(next_row + row_count, height, rows_per_stripe)
    }
}

impl TextureUploadLayout {
    /// What every constructed layout satisfies.
    pub open spec fn wf(&self) -> bool {
        &&& self.width > 0
        &&& self.height > 0
        &&& self.row_bytes > 0
        &&& self.padded_row_bytes == aligned_row(self.row_bytes as int)
        &&& self.rows_per_stripe == stripe_rows(self.padded_row_bytes as int, self.height as int)
        &&& self.source_bytes == self.row_bytes * self.height
        &&& self.staging_bytes == self.padded_row_bytes * self.rows_per_stripe
    }

    /// A stripe lies inside the image and fits the staging allocation.
    pub open spec fn admits(&self, stripe: UploadStripe) -> bool {
        &&& stripe.first_row + stripe.row_count <= self.height
        &&& stripe.row_count <= self.rows_per_stripe
    }

    /// The staging byte at `index` after a stripe was copied over `staging`.
    pub open spec fn staged_byte(
        &self,
        source: Seq<u8>,
        stripe: UploadStripe,
        staging: Seq<u8>,
        index: int,
    ) -> u8 {
        let row = index / (self.padded_row_bytes as int);
        let byte = index % (self.padded_row_bytes as int);
        if row < stripe.row_count && byte < self.row_bytes {
            source[(stripe.first_row + row) * self.row_bytes + byte]
        } else {
            staging[index]
        }
    }

    /// Lays out an upload of RGBA16F pixels.
    pub fn rgba16f(width: u32, height: u32, context: &'static str) -> (layout: Result<
        TextureUploadLayout,
        UploadError,
    >)
        ensures
            layout == planned_layout(width, height, RGBA16F_BYTES_PER_PIXEL, context),
            layout matches Ok(planned) ==> planned.wf(),
    {
        Self::new(width, height, RGBA16F_BYTES_PER_PIXEL, context)
    }

    fn new(width: u32, height: u32, bytes_per_pixel: u32, context: &'static str) -> (layout: Result<
        TextureUploadLayout,
        UploadError,
    >)
        requires
            bytes_per_pixel > 0,
        ensures
            layout == planned_layout(width, height, bytes_per_pixel, context),
            layout matches Ok(planned) ==> planned.wf(),
    {
        if width == 0 || height == 0 {
            return Err(UploadError::ZeroDimensions { context });
        }
        let alignment: u32 = copy_row_alignment();
        let row_bytes: u32 = match width.checked_mul(bytes_per_pixel) {
            Some(row_bytes) => row_bytes,
            None => {
                return Err(UploadError::RowSize { context });
            },
        };
        proof {
            lemma_mul_inequality(1, bytes_per_pixel as int, width as int);
            lemma_mul_is_commutative(width as int, bytes_per_pixel as int);
            lemma_mul_basics(width as int);
        }
        let padded_row_bytes: u32 = match row_bytes.checked_add(alignment - 1) {
            Some(value) => value / alignment * alignment,
            None => {
                return Err(UploadError::RowAlignment { context });
            },
        };
        let source_bytes: usize = match (row_bytes as usize).checked_mul(height as usize) {
            Some(source_bytes) => source_bytes,
            None => {
                return Err(UploadError::SourceSize { context });
            },
        };
        let rows_per_stripe: usize = min_usize(
            max_usize(MAX_STAGING_BYTES / (padded_row_bytes as usize), 1),
            height as usize,
        );
        let staging_bytes: usize = match (padded_row_bytes as usize).checked_mul(rows_per_stripe) {
            Some(staging_bytes) => staging_bytes,
            None => {
                return Err(UploadError::StagingSize { context });
            },
        };
        Ok(
            TextureUploadLayout {
                context,
                width,
                height,
                row_bytes,
                padded_row_bytes,
                rows_per_stripe: rows_per_stripe as u32,
                source_bytes,
                staging_bytes,
            },
        )
    }

    /// Lays out the upload of a texture from so many samples.
    pub fn rgba16f_texture(width: u32, height: u32, samples: usize, context: &'static str) -> (layout:
        Result<TextureUploadLayout, UploadError>)
        ensures
            layout == planned_texture(width, height, samples, context),
            layout matches Ok(planned) ==> planned.wf() && planned.row_bytes == planned.width * 8
                && samples == planned.width * planned.height * 4,
    {
        let layout: TextureUploadLayout = match Self::rgba16f(width, height, context) {
            Ok(layout) => layout,
            Err(error) => {
                return Err(error);
            },
        };
        let pixels: usize = match (width as usize).checked_mul(height as usize) {
            Some(pixels) => pixels,
            None => {
                return Err(UploadError::SampleCountOverflow { context });
            },
        };
        let expected: usize = match pixels.checked_mul(4) {
            Some(expected) => expected,
            None => {
                return Err(UploadError::SampleCountOverflow { context });
            },
        };
        if samples != expected {
            return Err(UploadError::SampleCount { context, expected, actual: samples });
        }
        Ok(layout)
    }

    /// The samples of one row of the source image of a texture.
    pub fn source_sample_range(self, row: u32) -> (range: Range<usize>)
        requires
            self.wf(),
            self.row_bytes == self.width * 8,
            row < self.height,
        ensures
            range.start == row * (self.width * 4),
            range.end == range.start + self.width * 4,
            range.end <= self.width * self.height * 4,
    {
        proof {
            lemma_row_end(row as int, self.height as int, self.row_bytes as int);
            assert(row * (self.width * 4) <= row * self.row_bytes) by (nonlinear_arith)
                requires
                    self.row_bytes == self.width * 8,
                    0 <= row,
                    0 <= self.width,
            ;
            assert((row + 1) * (self.width * 4) <= self.width * self.height * 4)
                by (nonlinear_arith)
                requires
                    row + 1 <= self.height,
                    0 <= self.width,
            ;
            assert((row + 1) * (self.width * 4) == row * (self.width * 4) + self.width * 4)
                by (nonlinear_arith);
            assert((row + 1) * self.row_bytes == row * self.row_bytes + self.row_bytes)
                by (nonlinear_arith);
        }
        let samples: usize = (self.width as usize) * 4;
        let start: usize = (row as usize) * samples;
        start..start + samples
    }

    /// The bytes of the packed source image.
    pub fn source_bytes(self) -> (bytes: usize)
        ensures
            bytes == self.source_bytes,
    {
        self.source_bytes
    }

    /// The bytes of the staging allocation.
    pub fn staging_bytes(self) -> (bytes: usize)
        ensures
            bytes == self.staging_bytes,
    {
        self.staging_bytes
    }

    /// A zeroed staging allocation.
    pub fn allocate_staging(self) -> (staging: Vec<u8>)
        ensures
            staging@ == Seq::new(self.staging_bytes as nat, |i: int| 0u8),
    {
        let staging: Vec<u8> = vec![0u8; self.staging_bytes];
        assert(staging@ =~= Seq::new(self.staging_bytes as nat, |i: int| 0u8));
        staging
    }

    /// The stripes of the upload, from the first row on.
    pub fn stripes(self) -> (stripes: UploadStripes)
        requires
            self.wf(),
        ensures
            stripes.wf(),
            stripes@ == stripes_from(0, self.height as int, self.rows_per_stripe as int),
    {
        UploadStripes {
            next_row: 0,
            height: self.height,
            rows_per_stripe: self.rows_per_stripe,
        }
    }

    /// Accepts exactly the length of the packed source image.
    pub fn validate_source_len(self, actual: usize) -> (validated: Result<(), UploadError>)
        ensures
            validated == (if actual == self.source_bytes {
                Ok::<(), UploadError>(())
            } else {
                Err(
                    UploadError::SourceLength {
                        context: self.context,
                        expected: self.source_bytes,
                        actual,
                    },
                )
            }),
    {
        if actual == self.source_bytes {
            Ok(())
        } else {
            Err(
                UploadError::SourceLength {
                    context: self.context,
                    expected: self.source_bytes,
                    actual,
                },
            )
        }
    }

    /// The bytes of one row in the packed source image.
    pub fn source_row_range(self, row: u32) -> (range: Range<usize>)
        requires
            self.wf(),
            row < self.height,
        ensures
            range.start == row * self.row_bytes,
            range.end == (row + 1) * self.row_bytes,
            range.end <= self.source_bytes,
    {
        proof {
            lemma_row_end(row as int, self.height as int, self.row_bytes as int);
        }
        let start: usize = (row as usize) * (self.row_bytes as usize);
        start..start + (self.row_bytes as usize)
    }

    /// The pixel bytes of one row of the staging allocation.
    pub fn staging_row_mut(self, staging: &mut [u8], stripe_row: u32) -> (row: &mut [u8])
        requires
            self.wf(),
            stripe_row < self.rows_per_stripe,
            old(staging)@.len() >= self.staging_bytes,
        ensures
            row@ == old(staging)@.subrange(
                stripe_row * self.padded_row_bytes,
                stripe_row * self.padded_row_bytes + self.row_bytes,
            ),
            final(row)@.len() == self.row_bytes ==> final(staging)@ == old(staging)@.subrange(
                0,
                stripe_row * self.padded_row_bytes,
            ) + final(row)@ + old(staging)@.subrange(
                stripe_row * self.padded_row_bytes + self.row_bytes,
                old(staging)@.len() as int,
            ),
    {
        proof {
            lemma_row_end(
                stripe_row as int,
                self.rows_per_stripe as int,
                self.padded_row_bytes as int,
            );
        }
        let start: usize = (stripe_row as usize) * (self.padded_row_bytes as usize);
        let (_, tail) = staging.split_at_mut(start);
        let (row, _) = tail.split_at_mut(self.row_bytes as usize);
        row
    }

    /// Copies the rows of a stripe into the staging allocation and leaves the
    /// alignment padding as it is.
    pub fn copy_stripe(self, source: &[u8], stripe: UploadStripe, staging: &mut [u8])
        requires
            self.wf(),
            self.admits(stripe),
            source@.len() == self.source_bytes,
            old(staging)@.len() >= self.staging_bytes,
        ensures
            final(staging)@ == Seq::new(
                old(staging)@.len(),
                |i: int| self.staged_byte(source@, stripe, old(staging)@, i),
            ),
    {
        let ghost before = staging@;
        let mut stripe_row: u32 = 0;
        proof {
            assert forall|i: int| 0 <= i < before.len() implies before[i] == self.staged_byte(
                source@,
                (UploadStripe { first_row: stripe.first_row, row_count: 0 }),
                before,
                i,
            ) by {
                lemma_div_pos_is_pos(i, self.padded_row_bytes as int);
            }
        }
        while stripe_row < stripe.row_count
            invariant
                self.wf(),
                self.admits(stripe),
                source@.len() == self.source_bytes,
                before.len() >= self.staging_bytes,
                stripe_row <= stripe.row_count,
                staging@ == Seq::new(
                    before.len(),
                    |i: int|
                        self.staged_byte(
                            source@,
                            (UploadStripe { first_row: stripe.first_row, row_count: stripe_row }),
                            before,
                            i,
                        ),
                ),
            decreases stripe.row_count - stripe_row,
        {
            let source_row: u32 = stripe.first_row + stripe_row;
            let source_range = self.source_row_range(source_row);
            proof {
                lemma_mul_is_distributive_add_other_way(
                    self.row_bytes as int,
                    source_row as int,
                    1,
                );
            }
            let pixels = slice_subrange(source, source_range.start, source_range.end);
            let ghost current = staging@;
            proof {
                lemma_row_end(
                    stripe_row as int,
                    self.rows_per_stripe as int,
                    self.padded_row_bytes as int,
                );
            }
            let row = self.staging_row_mut(staging, stripe_row);
            copy_bytes(pixels, row);
            proof {
                let start = stripe_row * self.padded_row_bytes;
                assert forall|i: int| 0 <= i < before.len() implies staging@[i]
                    == self.staged_byte(
                    source@,
                    (UploadStripe {
                        first_row: stripe.first_row,
                        row_count: (stripe_row + 1) as u32,
                    }),
                    before,
                    i,
                ) by {
                    lemma_row_of_index(i, self.padded_row_bytes as int, stripe_row as int);
                }
                assert(staging@ =~= Seq::new(
                    before.len(),
                    |i: int|
                        self.staged_byte(
                            source@,
                            (UploadStripe {
                                first_row: stripe.first_row,
                                row_count: (stripe_row + 1) as u32,
                            }),
                            before,
                            i,
                        ),
                ));
            }
            stripe_row = stripe_row + 1;
        }
    }

    /// The staging bytes that hold a stripe.
    pub fn stripe_data<'a>(self, staging: &'a [u8], stripe: UploadStripe) -> (data: &'a [u8])
        requires
            self.wf(),
            self.admits(stripe),
            staging@.len() >= self.staging_bytes,
        ensures
            data@ == staging@.subrange(0, stripe.row_count * self.padded_row_bytes),
    {
        proof {
            lemma_mul_inequality(
                stripe.row_count as int,
                self.rows_per_stripe as int,
                self.padded_row_bytes as int,
            );
            lemma_mul_is_commutative(self.rows_per_stripe as int, self.padded_row_bytes as int);
            lemma_mul_nonnegative(stripe.row_count as int, self.padded_row_bytes as int);
        }
        let bytes: usize = (stripe.row_count as usize) * (self.padded_row_bytes as usize);
        slice_subrange(staging, 0, bytes)
    }

    /// How a stripe lies in the staging allocation.
    pub fn copy_buffer_layout(self, stripe: UploadStripe) -> (layout: CopyBufferLayout)
        ensures
            layout == (CopyBufferLayout {
                offset: 0,
                bytes_per_row: self.padded_row_bytes,
                rows_per_image: stripe.row_count,
            }),
    {
        CopyBufferLayout {
            offset: 0,
            bytes_per_row: self.padded_row_bytes,
            rows_per_image: stripe.row_count,
        }
    }

    /// The texels that a stripe writes.
    pub fn copy_extent(self, stripe: UploadStripe) -> (extent: CopyExtent)
        ensures
            extent == (CopyExtent {
                width: self.width,
                height: stripe.row_count,
                depth_or_array_layers: 1,
            }),
    {
        CopyExtent { width: self.width, height: stripe.row_count, depth_or_array_layers: 1 }
    }
}

impl UploadStripe {
    /// The first image row of the stripe.
    pub fn first_row(self) -> (row: u32)
        ensures
            row == self.first_row,
    {
        self.first_row
    }

    /// The number of rows in the stripe.
    pub fn row_count(self) -> (rows: u32)
        ensures
            rows == self.row_count,
    {
        self.row_count
    }
}

/// The stripes of an upload that are still to come.
pub struct UploadStripes {
    pub next_row: u32,
    pub height: u32,
    pub rows_per_stripe: u32,
}

impl View for UploadStripes {
    type V = Seq<UploadStripe>;

    open spec fn view(&self) -> Seq<UploadStripe> {
        stripes_from(self.next_row as int, self.height as int, self.rows_per_stripe as int)
    }
}

impl UploadStripes {
    /// The next row lies in the image, and a stripe holds at least one row.
    pub open spec fn wf(&self) -> bool {
        self.next_row <= self.height && self.rows_per_stripe > 0
    }

    /// Takes the first of the stripes that are still to come.
    pub fn next(&mut self) -> (stripe: Option<UploadStripe>)
        requires
            old(self).wf(),
        ensures
            final(self).wf(),
            match stripe {
                Some(first) => old(self)@ == seq![first] + final(self)@,
                None => old(self)@ == Seq::<UploadStripe>::empty() && *final(self) == *old(self),
            },
    {
        if self.next_row == self.height {
            return None;
        }
        let row_count: u32 = min_u32(self.rows_per_stripe, self.height - self.next_row);
        let stripe = UploadStripe { first_row: self.next_row, row_count };
        self.next_row = self.next_row + row_count;
        Some(stripe)
    }

    /// Takes all the stripes that are still to come.
    pub fn collect(self) -> (stripes: Vec<UploadStripe>)
        requires
            self.wf(),
        ensures
            stripes@ == self@,
    {
        let mut rest = self;
        let mut stripes: Vec<UploadStripe> = Vec::new();
        while rest.next_row < rest.height
            invariant
                rest.wf(),
                stripes@ + rest@ == self@,
            decreases rest.height - rest.next_row,
        {
            let ghost before = rest@;
            let row_count: u32 = min_u32(rest.rows_per_stripe, rest.height - rest.next_row);
            stripes.push(UploadStripe { first_row: rest.next_row, row_count });
            rest.next_row = rest.next_row + row_count;
            assert(before =~= seq![stripes@.last()] + rest@);
            assert(stripes@ + rest@ =~= stripes@.drop_last() + before);
        }
        assert(stripes@ + rest@ =~= stripes@);
        stripes
    }
}

/// Copies bytes of the same length.
fn copy_bytes(source: &[u8], destination: &mut [u8])
    requires
        source@.len() == old(destination)@.len(),
    ensures
        final(destination)@ == source@,
{
    let mut index: usize = 0;
    while index < source.len()
        invariant
            index <= source@.len(),
            source@.len() == destination@.len(),
            forall|i: int| 0 <= i < index ==> destination@[i] == source@[i],
        decreases source@.len() - index,
    {
        destination[index] = source[index];
        index = index + 1;
    }
    assert(destination@ =~= source@);
}

/// A byte of a row of half-precision samples, the low byte of each first.
pub open spec fn half_byte(halves: Seq<u16>, index: int) -> u8 {
    if index % 2 == 0 {
        (halves[index / 2] % 256) as u8
    } else {
        (halves[index / 2] / 256) as u8
    }
}

/// The bytes that whole pixels of four samples take, as far as a row has room
/// for them.
pub open spec fn encoded_bytes(samples: nat, room: nat) -> int {
    8 * numeric::smaller(samples as int / 4, room as int / 8)
}

/// Writes the half-precision samples of whole pixels into a row.
pub fn encode_rgba16f_row(halves: &[u16], destination: &mut [u8])
    ensures
        final(destination)@ == Seq::new(
            old(destination)@.len(),
            |i: int|
                if i < encoded_bytes(halves@.len(), old(destination)@.len()) {
                    half_byte(halves@, i)
                } else {
                    old(destination)@[i]
                },
        ),
{
    let pixels: usize = min_usize(halves.len() / 4, destination.len() / 8);
    let ghost before = destination@;
    let mut index: usize = 0;
    while index < 4 * pixels
        invariant
            index <= 4 * pixels,
            4 * pixels <= halves@.len(),
            8 * pixels <= before.len(),
            8 * pixels <= usize::MAX,
            destination@.len() == before.len(),
            forall|i: int| 0 <= i < 2 * index ==> destination@[i] == half_byte(halves@, i),
            forall|i: int| 2 * index <= i < before.len() ==> destination@[i] == before[i],
        decreases 4 * pixels - index,
    {
        let half: u16 = halves[index];
        destination[2 * index] = (half % 256) as u8;
        destination[2 * index + 1] = (half / 256) as u8;
        index = index + 1;
    }
    assert(destination@ =~= Seq::new(
        before.len(),
        |i: int|
            if i < encoded_bytes(halves@.len(), before.len()) {
                half_byte(halves@, i)
            } else {
                before[i]
            },
    ));
}

/// The samples of a row can be read back from its bytes.
pub proof fn encoded_samples_are_recovered(halves: Seq<u16>, index: int)
    requires
        0 <= index < halves.len(),
    ensures
        half_byte(halves, 2 * index) + 256 * half_byte(halves, 2 * index + 1) == halves[index],
{
}

/// The staging bytes of an RGBA16F upload: none for an empty image, and the
/// largest number where the layout does not fit the machine.
pub fn upload_staging_buffer_bytes(width: u32, height: u32) -> (bytes: usize)
    ensures
        bytes == (if width == 0 || height == 0 {
            0
        } else {
            match planned_layout(width, height, RGBA16F_BYTES_PER_PIXEL, "RGBA16F upload") {
                Ok(layout) => layout.staging_bytes,
                Err(_) => usize::MAX,
            }
        }),
{
    if width == 0 || height == 0 {
        return 0;
    }
    match TextureUploadLayout::rgba16f(width, height, "RGBA16F upload") {
        Ok(layout) => layout.staging_bytes(),
        Err(_) => usize::MAX,
    }
}

/// A row of a packed image ends inside the image.
proof fn lemma_row_end(row: int, height: int, row_bytes: int)
    requires
        0 <= row < height,
        row_bytes >= 0,
    ensures
        0 <= row * row_bytes,
        row * row_bytes + row_bytes == (row + 1) * row_bytes,
        (row + 1) * row_bytes <= height * row_bytes,
        height * row_bytes == row_bytes * height,
{
    lemma_mul_nonnegative(row, row_bytes);
    lemma_mul_is_distributive_add_other_way(row_bytes, row, 1);
    lemma_mul_inequality(row + 1, height, row_bytes);
    lemma_mul_is_commutative(height, row_bytes);
}

/// An index lies in a row exactly when it lies between the row's ends.
proof fn lemma_row_of_index(index: int, row_bytes: int, row: int)
    requires
        index >= 0,
        row_bytes > 0,
        row >= 0,
    ensures
        index / row_bytes == row <==> row * row_bytes <= index < (row + 1) * row_bytes,
        index / row_bytes < row <==> index < row * row_bytes,
        index / row_bytes == row ==> index % row_bytes == index - row * row_bytes,
        0 <= index % row_bytes < row_bytes,
{
    lemma_fundamental_div_mod(index, row_bytes);
    lemma_mul_is_distributive_add_other_way(row_bytes, row, 1);
    let quotient = index / row_bytes;
    lemma_mul_is_commutative(row_bytes, quotient);
    assert(quotient < row ==> index < row * row_bytes) by (nonlinear_arith)
        requires
            index == row_bytes * quotient + index % row_bytes,
            0 <= index % row_bytes < row_bytes,
            row_bytes > 0,
    ;
    assert(quotient >= row ==> index >= row * row_bytes) by (nonlinear_arith)
        requires
            index == row_bytes * quotient + index % row_bytes,
            0 <= index % row_bytes,
            row_bytes > 0,
    ;
    assert(quotient > row ==> index >= (row + 1) * row_bytes) by (nonlinear_arith)
        requires
            index == row_bytes * quotient + index % row_bytes,
            0 <= index % row_bytes,
            row_bytes > 0,
    ;
}

/// The stripes cover every image row exactly once, in order: the first starts
/// at the first row, each starts where the one before it ends, the last ends at
/// the last row, and none is empty or exceeds the staging rows.
pub proof fn stripes_cover_every_row_once(next_row: int, height: int, rows_per_stripe: int)
    requires
        0 <= next_row <= height <= u32::MAX,
        0 < rows_per_stripe <= u32::MAX,
    ensures
        ({
            let stripes = stripes_from(next_row, height, rows_per_stripe);
            &&& stripes.len() == 0 <==> next_row == height
            &&& stripes.len() > 0 ==> stripes[0].first_row == next_row
            &&& stripes.len() > 0 ==> stripes.last().first_row + stripes.last().row_count == height
            &&& forall|i: int| #![trigger stripes[i]]
                0 <= i < stripes.len() ==> 1 <= stripes[i].row_count <= rows_per_stripe
            &&& forall|i: int, j: int| #![trigger stripes[i], stripes[j]]
                0 <= i && j == i + 1 && j < stripes.len() ==> stripes[j].first_row
                    == stripes[i].first_row + stripes[i].row_count
            &&& forall|row: int| #![trigger row_is_covered(stripes, row)]
                next_row <= row < height ==> row_is_covered(stripes, row)
        }),
    decreases height - next_row,
{
    let stripes = stripes_from(next_row, height, rows_per_stripe);
    if next_row < height {
        let row_count = numeric::smaller(rows_per_stripe, height - next_row);
        let rest = stripes_from(next_row + row_count, height, rows_per_stripe);
        stripes_cover_every_row_once(next_row + row_count, height, rows_per_stripe);
        assert(forall|i: int| 0 <= i < rest.len() ==> stripes[i + 1] == #[trigger] rest[i]);
        assert forall|i: int| #![trigger stripes[i]] 0 <= i < stripes.len() implies 1
            <= stripes[i].row_count <= rows_per_stripe by {
            if i > 0 {
                assert(stripes[i] == rest[i - 1]);
            }
        }
        assert forall|i: int, j: int| #![trigger stripes[i], stripes[j]]
            0 <= i && j == i + 1 && j < stripes.len() implies stripes[j].first_row
            == stripes[i].first_row + stripes[i].row_count by {
            assert(stripes[j] == rest[j - 1]);
            if i > 0 {
                assert(stripes[i] == rest[i - 1]);
            }
        }
        assert forall|row: int| #![trigger row_is_covered(stripes, row)]
            next_row <= row < height implies row_is_covered(stripes, row) by {
            if row < next_row + row_count {
                assert(stripe_holds(stripes[0], row));
            } else {
                assert(row_is_covered(rest, row));
                let k = choose|k: int| 0 <= k < rest.len() && #[trigger] stripe_holds(rest[k], row);
                assert(stripe_holds(stripes[k + 1], row));
            }
        }
        if rest.len() > 0 {
            assert(stripes.last() == rest.last());
        }
    }
}

/// A stripe holds an image row.
pub open spec fn stripe_holds(stripe: UploadStripe, row: int) -> bool {
    stripe.first_row <= row < stripe.first_row + stripe.row_count
}

/// Some stripe of a list holds an image row.
pub open spec fn row_is_covered(stripes: Seq<UploadStripe>, row: int) -> bool {
    exists|k: int| 0 <= k < stripes.len() && #[trigger] stripe_holds(stripes[k], row)
}

/// Every stripe of a layout lies in the image and fits its staging allocation.
pub proof fn layouts_admit_their_stripes(layout: TextureUploadLayout, next_row: int)
    requires
        layout.wf(),
        0 <= next_row <= layout.height,
    ensures
        forall|i: int|
            #![trigger stripes_from(
                next_row,
                layout.height as int,
                layout.rows_per_stripe as int,
            )[i]]
            0 <= i < stripes_from(
                next_row,
                layout.height as int,
                layout.rows_per_stripe as int,
            ).len() ==> layout.admits(
                stripes_from(next_row, layout.height as int, layout.rows_per_stripe as int)[i],
            ),
    decreases layout.height - next_row,
{
    let stripes = stripes_from(next_row, layout.height as int, layout.rows_per_stripe as int);
    if next_row < layout.height {
        let row_count = numeric::smaller(layout.rows_per_stripe as int, layout.height - next_row);
        let rest = stripes_from(
            next_row + row_count,
            layout.height as int,
            layout.rows_per_stripe as int,
        );
        layouts_admit_their_stripes(layout, next_row + row_count);
        assert forall|i: int| #![trigger stripes[i]] 0 <= i < stripes.len() implies layout.admits(
            stripes[i],
        ) by {
            if i > 0 {
                assert(stripes[i] == rest[i - 1]);
            }
        }
    }
}

/// The staging allocation stays within its limit wherever one row does.
pub proof fn staging_stays_within_its_limit(layout: TextureUploadLayout)
    requires
        layout.wf(),
    ensures
        layout.padded_row_bytes <= MAX_STAGING_BYTES ==> layout.staging_bytes <= MAX_STAGING_BYTES,
        layout.padded_row_bytes > MAX_STAGING_BYTES ==> layout.rows_per_stripe == 1,
        layout.padded_row_bytes % 256 == 0,
        layout.row_bytes <= layout.padded_row_bytes < layout.row_bytes + 256,
{
    let padded = layout.padded_row_bytes as int;
    let limit = MAX_STAGING_BYTES as int;
    lemma_fundamental_div_mod(limit, padded);
    if padded <= limit {
        lemma_div_is_ordered(padded, limit, padded);
        lemma_div_by_self(padded);
        lemma_mul_inequality(layout.rows_per_stripe as int, limit / padded, padded);
        lemma_mul_is_commutative(layout.rows_per_stripe as int, padded);
        lemma_mul_is_commutative(limit / padded, padded);
    } else {
        lemma_basic_div(limit, padded);
    }
}

/// What is copied through the staging allocation is what the image holds: every
/// byte of a stripe's rows lands at its place in the padded row.
pub proof fn staged_rows_are_the_source_rows(
    layout: TextureUploadLayout,
    source: Seq<u8>,
    stripe: UploadStripe,
    staging: Seq<u8>,
    row: int,
    byte: int,
)
    requires
        layout.wf(),
        layout.admits(stripe),
        source.len() == layout.source_bytes,
        staging.len() >= layout.staging_bytes,
        0 <= row < stripe.row_count,
        0 <= byte < layout.padded_row_bytes,
    ensures
        layout.staged_byte(source, stripe, staging, row * layout.padded_row_bytes + byte) == (
        if byte < layout.row_bytes {
            source[(stripe.first_row + row) * layout.row_bytes + byte]
        } else {
            staging[row * layout.padded_row_bytes + byte]
        }),
{
    lemma_mul_nonnegative(row, layout.padded_row_bytes as int);
    lemma_mul_is_distributive_add_other_way(layout.padded_row_bytes as int, row, 1);
    lemma_row_of_index(
        row * layout.padded_row_bytes + byte,
        layout.padded_row_bytes as int,
        row,
    );
}

/// A layout describes its image: rows of eight bytes a pixel, padded as little as the
/// copy alignment asks for, staged in stripes of as many rows as the limit allows.
pub proof fn layouts_describe_their_image(
    width: u32,
    height: u32,
    context: &'static str,
    layout: TextureUploadLayout,
)
    requires
        planned_layout(width, height, RGBA16F_BYTES_PER_PIXEL, context) == Ok::<
            TextureUploadLayout,
            UploadError,
        >(layout),
    ensures
        layout.context == context,
        layout.width == width && layout.height == height,
        width > 0 && height > 0,
        layout.row_bytes == width * 8,
        layout.padded_row_bytes % 256 == 0,
        layout.row_bytes <= layout.padded_row_bytes < layout.row_bytes + 256,
        layout.source_bytes == width * 8 * height,
        1 <= layout.rows_per_stripe <= height,
        layout.staging_bytes == layout.padded_row_bytes * layout.rows_per_stripe,
        layout.rows_per_stripe > 1 ==> layout.staging_bytes <= 16 * 1024 * 1024,
        layout.rows_per_stripe < height ==> layout.padded_row_bytes * (layout.rows_per_stripe + 1)
            > 16 * 1024 * 1024,
{
    let padded = layout.padded_row_bytes as int;
    let limit = MAX_STAGING_BYTES as int;
    let rows = limit / padded;
    assert(rows * padded <= limit < (rows + 1) * padded) by (nonlinear_arith)
        requires
            rows == limit / padded,
            padded > 0,
            limit >= 0,
    ;
    let staged = layout.rows_per_stripe as int;
    if staged > 1 {
        assert(padded * staged <= rows * padded) by (nonlinear_arith)
            requires
                staged <= rows,
                padded > 0,
        ;
    }
    if staged < height {
        assert(padded * (staged + 1) >= (rows + 1) * padded) by (nonlinear_arith)
            requires
                staged >= rows,
                padded > 0,
        ;
    }
}

/// An upload is refused exactly where the image is empty, or a size cannot be counted.
/// The samples of a texture are four a pixel, no more and no less.
pub proof fn refused_uploads_do_not_fit(
    width: u32,
    height: u32,
    samples: usize,
    context: &'static str,
)
    ensures
        ({
            let planned = planned_layout(width, height, RGBA16F_BYTES_PER_PIXEL, context);
            &&& planned is Ok ==> width > 0 && height > 0 && width * 8 * height <= usize::MAX
            &&& (planned is Err && planned->Err_0 is ZeroDimensions) <==> width == 0 || height == 0
            &&& planned is Err && width > 0 && height > 0 ==> width * 8 + 255 > u32::MAX || width
                * 8 * height > usize::MAX || width * 8 + 255 > usize::MAX || (width * 8 + 255)
                * height > usize::MAX
        }),
        ({
            let planned = planned_texture(width, height, samples, context);
            &&& planned is Ok ==> samples == width * height * 4
            &&& planned == planned_layout(width, height, RGBA16F_BYTES_PER_PIXEL, context)
                || (planned is Err && (planned->Err_0 is SampleCount || planned->Err_0
                is SampleCountOverflow))
            &&& planned matches Err(UploadError::SampleCount { expected, actual, .. }) ==> expected
                == width * height * 4 && actual == samples && expected != actual
        }),
{
    let padded = aligned_row(width * 8);
    let rows = stripe_rows(padded, height as int);
    if width > 0 && height > 0 {
        assert(padded * rows <= (width * 8 + 255) * height) by (nonlinear_arith)
            requires
                0 <= padded <= width * 8 + 255,
                0 <= rows <= height,
        ;
    }
}

/// A row of samples is encoded whole: two bytes for each of the four samples of a
/// pixel, the low byte first, for as many pixels as there are samples and room for.
pub proof fn rows_are_encoded_whole(pixels: nat, halves: Seq<u16>, sample: int)
    requires
        0 <= sample < halves.len(),
    ensures
        encoded_bytes(4 * pixels, 8 * pixels) == 8 * pixels,
        half_byte(halves, 2 * sample) == halves[sample] as int % 256,
        half_byte(halves, 2 * sample + 1) == halves[sample] as int / 256,
{
}

/// A length that does not fit is told with what was expected and what was got, in this
/// order, and with the upload that it concerns.
pub proof fn upload_errors_tell_both_lengths(
    context: &'static str,
    expected: usize,
    actual: usize,
)
    ensures
        text::mentions(
            upload_error_text(UploadError::SourceLength { context, expected, actual }),
            " expected "@ + text::decimal(expected as nat) + " bytes, got "@ + text::decimal(
                actual as nat,
            ),
        ),
        text::mentions(
            upload_error_text(UploadError::SampleCount { context, expected, actual }),
            " expected "@ + text::decimal(expected as nat) + " samples, got "@ + text::decimal(
                actual as nat,
            ),
        ),
        text::mentions(
            upload_error_text(UploadError::SourceLength { context, expected, actual }),
            context@,
        ),
        text::mentions(
            upload_error_text(UploadError::SampleCount { context, expected, actual }),
            context@,
        ),
{
    let none = Seq::<char>::empty();
    let wanted = text::decimal(expected as nat);
    let got = text::decimal(actual as nat);
    let bytes = " expected "@ + wanted + " bytes, got "@;
    let samples = " expected "@ + wanted + " samples, got "@;
    text::lemma_grouped(context@, " expected "@, wanted, " bytes, got "@);
    text::lemma_grouped(context@, " expected "@, wanted, " samples, got "@);
    text::lemma_grouped(context@, bytes, got, none);
    text::lemma_grouped(context@, samples, got, none);
    text::lemma_appended(none, context@);
    assert(none + context@ =~= context@);
    text::lemma_appended(context@, bytes + got);
    text::lemma_appended(context@, samples + got);
}

} // verus!
