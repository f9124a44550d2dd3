//! The streaming schedule of a separable resampling: the source windows of every
//! target row and column, the batches in which source rows are read, and which
//! target rows each source row contributes to.
use core::ops::Range;
use std::collections::VecDeque;

use vstd::arithmetic::mul::*;
use vstd::prelude::*;

use crate::float_bits;
use crate::float_bits::{F32_ONE, clamp32, is_finite32, is_finite64, is_less64};
use crate::numeric;
use crate::numeric::{max_u32, max_usize, min_u32, min_usize, saturating_mul_usize};
use crate::resampler;
use crate::resampler::ViewportTarget;
use crate::text;
use crate::text::{push_decimal, push_text};

verus! {

/// The source rows that each worker thread gets of one batch.
pub const RESAMPLING_ROWS_PER_WORKER: usize = 2;

/// The bytes that a batch of source and target rows may take.
pub const MAX_RESAMPLING_ROW_BATCH_BYTES: usize = 33554432;

/// The bytes that the coefficients of one axis may take.
pub const MAX_COEFFICIENT_BYTES: usize = 67108864;

/// The bytes of one pixel of four single-precision samples.
pub const SCRATCH_PIXEL_BYTES: usize = 16;

/// The bytes of one coefficient.
pub const COEFFICIENT_BYTES: usize = 4;

/// The bytes of one canonical RGBA16F pixel.
pub const CANONICAL_BYTES_PER_PIXEL: usize = 8;

/// The bits of the largest finite half-precision number, 65504, in single
/// precision.
pub const MAX_FINITE_HALF: u32 = 0x477f_e000;

/// Why a viewport cannot be resampled.
#[derive(Clone, Copy, Debug, PartialEq, Eq, Structural)]
pub enum ResampleFailure {
    InvalidView,
    CoefficientWindow,
    CoefficientCount,
    CoefficientSize,
    CoefficientTable { bytes: usize },
    InvalidWeights,
    OutputSize,
    SourceBatchSize,
    HorizontalBatchSize,
    IncompleteRows,
}

/// The text of a resampling failure.
pub open spec fn resample_failure_text(error: ResampleFailure) -> Seq<char> {
    match error {
        ResampleFailure::InvalidView =>
            "resampling view must have finite coordinates and nonzero dimensions"@,
        ResampleFailure::CoefficientWindow => "Lanczos2 coefficient window overflowed"@,
        ResampleFailure::CoefficientCount => "Lanczos2 coefficient count overflowed"@,
        ResampleFailure::CoefficientSize => "Lanczos2 coefficient size overflowed"@,
        ResampleFailure::CoefficientTable { bytes } => "Lanczos2 coefficient table needs "@
            + text::decimal(bytes as nat) + " bytes; limit is "@ + text::decimal(
            MAX_COEFFICIENT_BYTES as nat,
        ),
        ResampleFailure::InvalidWeights => "Lanczos2 produced invalid coefficient weights"@,
        ResampleFailure::OutputSize => "resampled output size overflowed"@,
        ResampleFailure::SourceBatchSize => "source row batch size overflowed"@,
        ResampleFailure::HorizontalBatchSize => "horizontal row batch size overflowed"@,
        ResampleFailure::IncompleteRows => "Lanczos2 did not complete every target row"@,
    }
}

impl ResampleFailure {
    /// The message shown for the failure.
    pub fn message(&self) -> (message: String)
        ensures
            message@ == resample_failure_text(*self),
    {
        let mut message = String::new();
        match *self {
            ResampleFailure::InvalidView => push_text(
                &mut message,
                "resampling view must have finite coordinates and nonzero dimensions",
            ),
            ResampleFailure::CoefficientWindow => push_text(
                &mut message,
                "Lanczos2 coefficient window overflowed",
            ),
            ResampleFailure::CoefficientCount => push_text(
                &mut message,
                "Lanczos2 coefficient count overflowed",
            ),
            ResampleFailure::CoefficientSize => push_text(
                &mut message,
                "Lanczos2 coefficient size overflowed",
            ),
            ResampleFailure::CoefficientTable { bytes } => {
                push_text(&mut message, "Lanczos2 coefficient table needs ");
                push_decimal(&mut message, bytes as u64);
                push_text(&mut message, " bytes; limit is ");
                push_decimal(&mut message, MAX_COEFFICIENT_BYTES as u64);
            },
            ResampleFailure::InvalidWeights => push_text(
                &mut message,
                "Lanczos2 produced invalid coefficient weights",
            ),
            ResampleFailure::OutputSize => push_text(
                &mut message,
                "resampled output size overflowed",
            ),
            ResampleFailure::SourceBatchSize => push_text(
                &mut message,
                "source row batch size overflowed",
            ),
            ResampleFailure::HorizontalBatchSize => push_text(
                &mut message,
                "horizontal row batch size overflowed",
            ),
            ResampleFailure::IncompleteRows => push_text(
                &mut message,
                "Lanczos2 did not complete every target row",
            ),
        }
        assert(message@ =~= resample_failure_text(*self));
        message
    }
}

/// The source window of one target row or column, and where its coefficients
/// start. A window of length zero lies outside the image.
#[derive(Clone, Copy, Debug, PartialEq, Eq, Structural)]
pub struct AxisBound {
    pub start: u32,
    pub length: u32,
    pub weights_start: usize,
}

impl AxisBound {
    /// The end of the window.
    pub open spec fn end(&self) -> int {
        self.start + self.length
    }

    /// The window is not empty and holds a source row.
    pub open spec fn holds(&self, source: int) -> bool {
        self.start <= source < self.end()
    }
}

/// The inputs of an axis that cannot be resampled.
pub open spec fn invalid_axis(
    source_size: u32,
    target_size: u32,
    view_center: u64,
    view_scale: u64,
) -> bool {
    source_size == 0 || target_size == 0 || !float_bits::finite64(view_center)
        || !resampler::valid_scale(view_scale)
}

/// Whether the inputs of an axis cannot be resampled.
pub fn axis_inputs_are_invalid(
    source_size: u32,
    target_size: u32,
    view_center: u64,
    view_scale: u64,
) -> (invalid: bool)
    ensures
        invalid == invalid_axis(source_size, target_size, view_center, view_scale),
{
    source_size == 0 || target_size == 0 || !is_finite64(view_center) || !is_finite64(view_scale)
        || !is_less64(0, view_scale)
}

/// The coefficients that an axis may need, or the limit that it breaks.
/// `radius_pixels` is the filter radius in source pixels, rounded up.
pub open spec fn coefficient_plan(target_size: u32, radius_pixels: usize) -> Result<
    usize,
    ResampleFailure,
> {
    let window = radius_pixels * 2 + 1;
    let weights = target_size * window;
    if window > usize::MAX {
        Err(ResampleFailure::CoefficientWindow)
    } else if weights > usize::MAX {
        Err(ResampleFailure::CoefficientCount)
    } else if weights * 4 > usize::MAX {
        Err(ResampleFailure::CoefficientSize)
    } else if weights * 4 > MAX_COEFFICIENT_BYTES {
        Err(ResampleFailure::CoefficientTable { bytes: (weights * 4) as usize })
    } else {
        Ok(weights as usize)
    }
}

/// Checks the inputs of an axis and the size of its coefficient table. Returns
/// the most coefficients that the axis needs.
pub fn plan_axis(
    source_size: u32,
    target_size: u32,
    view_center: u64,
    view_scale: u64,
    radius_pixels: usize,
) -> (weights: Result<usize, ResampleFailure>)
    ensures
        weights == (if invalid_axis(source_size, target_size, view_center, view_scale) {
            Err(ResampleFailure::InvalidView)
        } else {
            coefficient_plan(target_size, radius_pixels)
        }),
{
    if axis_inputs_are_invalid(source_size, target_size, view_center, view_scale) {
        return Err(ResampleFailure::InvalidView);
    }
    let window: usize = match radius_pixels.checked_mul(2) {
        Some(value) => match value.checked_add(1) {
            Some(window) => window,
            None => {
                return Err(ResampleFailure::CoefficientWindow);
            },
        },
        None => {
            return Err(ResampleFailure::CoefficientWindow);
        },
    };
    let weights: usize = match (target_size as usize).checked_mul(window) {
        Some(weights) => weights,
        None => {
            return Err(ResampleFailure::CoefficientCount);
        },
    };
    let bytes: usize = match weights.checked_mul(COEFFICIENT_BYTES) {
        Some(bytes) => bytes,
        None => {
            return Err(ResampleFailure::CoefficientSize);
        },
    };
    if bytes > MAX_COEFFICIENT_BYTES {
        return Err(ResampleFailure::CoefficientTable { bytes });
    }
    Ok(weights)
}

/// Rejects a sum of coefficients, given as double-precision bits, that cannot
/// normalize them.
pub fn validate_weight_sum(sum: u64) -> (validated: Result<(), ResampleFailure>)
    ensures
        validated == (if !float_bits::finite64(sum) || float_bits::order64(sum) == 0 {
            Err::<(), ResampleFailure>(ResampleFailure::InvalidWeights)
        } else {
            Ok(())
        }),
{
    if !is_finite64(sum) || sum % 0x8000_0000_0000_0000 == 0 {
        return Err(ResampleFailure::InvalidWeights);
    }
    Ok(())
}

/// The coefficients of the first `count` windows.
pub open spec fn weights_before(bounds: Seq<AxisBound>, count: int) -> int
    decreases count,
{
    if count <= 0 {
        0
    } else {
        weights_before(bounds, count - 1) + bounds[count - 1].length
    }
}

/// The windows of an axis while they are built, target by target.
#[derive(Debug)]
pub struct AxisBuilder {
    pub source_size: u32,
    pub target_size: u32,
    pub bounds: Vec<AxisBound>,
    pub weights: usize,
}

/// Windows lie in the source, and their coefficients stand one after another.
pub open spec fn packed_bounds(bounds: Seq<AxisBound>, source_size: int, weights: int) -> bool {
    &&& weights == weights_before(bounds, bounds.len() as int)
    &&& forall|i: int|
        #![trigger bounds[i]]
        0 <= i < bounds.len() ==> bounds[i].end() <= source_size && bounds[i].weights_start
            == weights_before(bounds, i)
}

impl AxisBuilder {
    /// What every builder satisfies.
    pub open spec fn wf(&self) -> bool {
        &&& self.bounds@.len() <= self.target_size
        &&& packed_bounds(self.bounds@, self.source_size as int, self.weights as int)
    }

    /// A builder that holds no window. It lists them in the given buffer, whose
    /// contents are dropped.
    pub fn new(source_size: u32, target_size: u32, buffer: Vec<AxisBound>) -> (builder: AxisBuilder)
        ensures
            builder.wf(),
            builder.source_size == source_size,
            builder.target_size == target_size,
            builder.bounds@ == Seq::<AxisBound>::empty(),
            builder.weights == 0,
    {
        let mut bounds: Vec<AxisBound> = buffer;
        bounds.clear();
        AxisBuilder { source_size, target_size, bounds, weights: 0 }
    }

    /// The next target to build, unless all are built.
    pub fn next_target(&self) -> (target: Option<u32>)
        requires
            self.wf(),
        ensures
            target == (if self.bounds@.len() < self.target_size {
                Some(self.bounds@.len() as u32)
            } else {
                None
            }),
    {
        if self.bounds.len() < self.target_size as usize {
            Some(self.bounds.len() as u32)
        } else {
            None
        }
    }

    /// Whether building looks for a cancellation before the next target.
    pub fn checks_cancellation(&self) -> (checks: bool)
        requires
            self.wf(),
        ensures
            checks == (self.bounds@.len() < self.target_size && self.bounds@.len() % 32 == 0),
    {
        self.bounds.len() < self.target_size as usize && self.bounds.len() % 32 == 0
    }

    /// Adds a target whose center lies outside the source.
    pub fn push_outside(&mut self)
        requires
            old(self).wf(),
            old(self).bounds@.len() < old(self).target_size,
        ensures
            final(self).wf(),
            final(self).source_size == old(self).source_size,
            final(self).target_size == old(self).target_size,
            final(self).weights == old(self).weights,
            final(self).bounds@ == old(self).bounds@.push(
                AxisBound { start: 0, length: 0, weights_start: old(self).weights },
            ),
    {
        let ghost before = self.bounds@;
        self.bounds.push(AxisBound { start: 0, length: 0, weights_start: self.weights });
        proof {
            lemma_weights_before_push(before, self.bounds@.last());
        }
    }

    /// Adds a target whose window reaches from `first` to `end`, with the sum of
    /// its coefficients as double-precision bits.
    pub fn push_window(&mut self, first: u32, end: u32, sum: u64) -> (pushed: Result<
        (),
        ResampleFailure,
    >)
        requires
            old(self).wf(),
            old(self).bounds@.len() < old(self).target_size,
            first <= end <= old(self).source_size,
            old(self).weights + (end - first) <= usize::MAX,
        ensures
            final(self).wf(),
            final(self).source_size == old(self).source_size,
            final(self).target_size == old(self).target_size,
            if !float_bits::finite64(sum) || float_bits::order64(sum) == 0 {
                &&& pushed == Err::<(), ResampleFailure>(ResampleFailure::InvalidWeights)
                &&& final(self).bounds@ == old(self).bounds@
                &&& final(self).weights == old(self).weights
            } else {
                &&& pushed is Ok
                &&& final(self).bounds@ == old(self).bounds@.push(
                    AxisBound {
                        start: first,
                        length: (end - first) as u32,
                        weights_start: old(self).weights,
                    },
                )
                &&& final(self).weights == old(self).weights + (end - first)
            },
    {
        match validate_weight_sum(sum) {
            Ok(()) => {},
            Err(error) => {
                return Err(error);
            },
        }
        let ghost before = self.bounds@;
        self.bounds.push(
            AxisBound { start: first, length: end - first, weights_start: self.weights },
        );
        self.weights = self.weights + (end - first) as usize;
        proof {
            lemma_weights_before_push(before, self.bounds@.last());
        }
        Ok(())
    }
}

/// Adding a window leaves the coefficients before it where they are.
proof fn lemma_weights_before_push(bounds: Seq<AxisBound>, last: AxisBound)
    ensures
        forall|count: int|
            #![trigger weights_before(bounds.push(last), count)]
            0 <= count <= bounds.len() ==> weights_before(bounds.push(last), count)
                == weights_before(bounds, count),
        weights_before(bounds.push(last), (bounds.len() + 1) as int) == weights_before(
            bounds,
            bounds.len() as int,
        ) + last.length,
{
    assert forall|count: int|
        #![trigger weights_before(bounds.push(last), count)]
        0 <= count <= bounds.len() implies weights_before(bounds.push(last), count)
        == weights_before(bounds, count) by {
        lemma_weights_before_prefix(bounds, last, count);
    }
    let count = bounds.len() as int;
    assert(weights_before(bounds.push(last), count) == weights_before(bounds, count));
    assert(bounds.push(last)[count] == last);
}

proof fn lemma_weights_before_prefix(bounds: Seq<AxisBound>, last: AxisBound, count: int)
    requires
        0 <= count <= bounds.len(),
    ensures
        weights_before(bounds.push(last), count) == weights_before(bounds, count),
    decreases count,
{
    if count > 0 {
        lemma_weights_before_prefix(bounds, last, count - 1);
    }
}

/// The windows of different targets never share a coefficient, and all of them
/// lie in the table.
pub proof fn windows_own_their_coefficients(
    bounds: Seq<AxisBound>,
    source_size: int,
    weights: int,
    first: int,
    second: int,
)
    requires
        packed_bounds(bounds, source_size, weights),
        0 <= first < second < bounds.len(),
    ensures
        bounds[first].weights_start + bounds[first].length <= bounds[second].weights_start,
        bounds[second].weights_start + bounds[second].length <= weights,
{
    lemma_weights_before_grows(bounds, first + 1, second);
    lemma_weights_before_grows(bounds, second + 1, bounds.len() as int);
}

proof fn lemma_weights_before_grows(bounds: Seq<AxisBound>, fewer: int, more: int)
    requires
        0 <= fewer <= more <= bounds.len(),
    ensures
        weights_before(bounds, fewer) <= weights_before(bounds, more),
    decreases more - fewer,
{
    if fewer < more {
        lemma_weights_before_grows(bounds, fewer, more - 1);
    }
}

/// The source rows that some window holds: from the first start to the last
/// end, or none.
pub open spec fn is_source_range(bounds: Seq<AxisBound>, range: Option<(u32, u32)>) -> bool {
    match range {
        None => forall|i: int|
            #![trigger bounds[i]]
            0 <= i < bounds.len() ==> bounds[i].length == 0,
        Some((start, end)) => {
            &&& start < end
            &&& exists|i: int|
                #![trigger bounds[i]]
                0 <= i < bounds.len() && bounds[i].length != 0 && bounds[i].start == start
            &&& exists|i: int|
                #![trigger bounds[i]]
                0 <= i < bounds.len() && bounds[i].length != 0 && bounds[i].end() == end
            &&& forall|i: int|
                #![trigger bounds[i]]
                0 <= i < bounds.len() && bounds[i].length != 0 ==> start <= bounds[i].start
                    && bounds[i].end() <= end
        },
    }
}

/// Windows end inside 32 bits.
pub open spec fn bounded(bounds: Seq<AxisBound>) -> bool {
    forall|i: int|
        #![trigger bounds[i]]
        0 <= i < bounds.len() ==> bounds[i].end() <= u32::MAX
}

/// The source rows that the first `count` windows need.
pub open spec fn source_range(bounds: Seq<AxisBound>, count: int) -> Option<(u32, u32)>
    decreases count,
{
    if count <= 0 {
        None
    } else {
        let bound = bounds[count - 1];
        let before = source_range(bounds, count - 1);
        if bound.length == 0 {
            before
        } else {
            match before {
                None => Some((bound.start, bound.end() as u32)),
                Some((start, end)) => Some(
                    (
                        numeric::smaller(start as int, bound.start as int) as u32,
                        numeric::larger(end as int, bound.end()) as u32,
                    ),
                ),
            }
        }
    }
}

/// The source rows that all windows need.
pub open spec fn whole_range(bounds: Seq<AxisBound>) -> Option<(u32, u32)> {
    source_range(bounds, bounds.len() as int)
}

/// The source rows or columns that the windows of an axis need.
pub fn contribution_source_range(bounds: &[AxisBound]) -> (range: Option<(u32, u32)>)
    requires
        bounded(bounds@),
    ensures
        range == whole_range(bounds@),
        is_source_range(bounds@, range),
{
    let mut range: Option<(u32, u32)> = None;
    let mut index: usize = 0;
    assert(is_source_range(bounds@.take(0), None));
    while index < bounds.len()
        invariant
            index <= bounds@.len(),
            bounded(bounds@),
            range == source_range(bounds@, index as int),
            is_source_range(bounds@.take(index as int), range),
        decreases bounds@.len() - index,
    {
        let bound: AxisBound = bounds[index];
        let ghost shorter = bounds@.take(index as int);
        let ghost longer = bounds@.take(index + 1);
        let ghost before = range;
        assert(longer =~= shorter.push(bound));
        assert(longer[index as int] == bound);
        if bound.length != 0 {
            let end: u32 = bound.start + bound.length;
            range = match range {
                None => Some((bound.start, end)),
                Some((start, previous_end)) => Some(
                    (min_u32(start, bound.start), max_u32(previous_end, end)),
                ),
            };
        }
        proof {
            assert forall|i: int| #![trigger longer[i]] 0 <= i < shorter.len() implies longer[i]
                == shorter[i] by {}
            match before {
                None => {
                    assert forall|i: int|
                        #![trigger longer[i]]
                        0 <= i < longer.len() && i != index implies longer[i].length == 0 by {
                        assert(longer[i] == shorter[i]);
                    }
                },
                Some((start, end)) => {
                    let first = choose|i: int|
                        #![trigger shorter[i]]
                        0 <= i < shorter.len() && shorter[i].length != 0 && shorter[i].start
                            == start;
                    let last = choose|i: int|
                        #![trigger shorter[i]]
                        0 <= i < shorter.len() && shorter[i].length != 0 && shorter[i].end()
                            == end;
                    assert(longer[first] == shorter[first]);
                    assert(longer[last] == shorter[last]);
                    assert forall|i: int|
                        #![trigger longer[i]]
                        0 <= i < longer.len() && longer[i].length != 0 && i
                            != index implies start <= longer[i].start && longer[i].end()
                        <= end by {
                        assert(longer[i] == shorter[i]);
                    }
                },
            }
        }
        index = index + 1;
    }
    assert(bounds@.take(bounds@.len() as int) =~= bounds@);
    range
}

/// Windows that are not empty follow each other: neither their starts nor their
/// ends ever move back.
pub open spec fn monotone(bounds: Seq<AxisBound>) -> bool {
    forall|i: int, j: int|
        #![trigger bounds[i], bounds[j]]
        0 <= i < j < bounds.len() && bounds[i].length != 0 && bounds[j].length != 0
            ==> bounds[i].start <= bounds[j].start && bounds[i].end() <= bounds[j].end()
}

/// Whether the windows of an axis follow each other.
pub fn is_monotone(bounds: &[AxisBound]) -> (follows: bool)
    requires
        bounded(bounds@),
    ensures
        follows == monotone(bounds@),
{
    let mut previous: Option<AxisBound> = None;
    let ghost mut at: int = -1;
    let mut index: usize = 0;
    while index < bounds.len()
        invariant
            index <= bounds@.len(),
            bounded(bounds@),
            -1 <= at < index,
            match previous {
                None => at == -1 && forall|i: int|
                    #![trigger bounds@[i]]
                    0 <= i < index ==> bounds@[i].length == 0,
                Some(bound) => {
                    &&& 0 <= at
                    &&& bounds@[at] == bound
                    &&& bound.length != 0
                    &&& forall|i: int|
                        #![trigger bounds@[i]]
                        at < i < index ==> bounds@[i].length == 0
                    &&& forall|i: int|
                        #![trigger bounds@[i]]
                        0 <= i < index && bounds@[i].length != 0 ==> bounds@[i].start
                            <= bound.start && bounds@[i].end() <= bound.end()
                },
            },
            forall|i: int, j: int|
                #![trigger bounds@[i], bounds@[j]]
                0 <= i < j < index && bounds@[i].length != 0 && bounds@[j].length != 0
                    ==> bounds@[i].start <= bounds@[j].start && bounds@[i].end()
                    <= bounds@[j].end(),
        decreases bounds@.len() - index,
    {
        let bound: AxisBound = bounds[index];
        if bound.length != 0 {
            if let Some(before) = previous {
                if bound.start < before.start || bound.start + bound.length < before.start
                    + before.length {
                    assert(bounds@[at].length != 0 && bounds@[index as int].length != 0);
                    return false;
                }
            }
            previous = Some(bound);
            proof {
                at = index as int;
            }
        }
        index = index + 1;
    }
    true
}

/// The targets below `count` whose window satisfies a condition, in order.
pub open spec fn targets_where(
    bounds: Seq<AxisBound>,
    count: int,
    condition: spec_fn(AxisBound) -> bool,
) -> Seq<u32>
    decreases count,
{
    if count <= 0 {
        Seq::empty()
    } else {
        let before = targets_where(bounds, count - 1, condition);
        if condition(bounds[count - 1]) {
            before.push((count - 1) as u32)
        } else {
            before
        }
    }
}

/// The targets whose windows hold a source row.
pub open spec fn targets_holding(bounds: Seq<AxisBound>, source_y: int) -> Seq<u32> {
    targets_where(bounds, bounds.len() as int, |bound: AxisBound| bound.holds(source_y))
}

/// The targets whose windows start at a source row.
pub open spec fn targets_starting(bounds: Seq<AxisBound>, source_y: int) -> Seq<u32> {
    targets_where(
        bounds,
        bounds.len() as int,
        |bound: AxisBound| bound.length != 0 && bound.start == source_y,
    )
}

/// The targets whose windows end with a source row.
pub open spec fn targets_ending(bounds: Seq<AxisBound>, source_y: int) -> Seq<u32> {
    targets_where(
        bounds,
        bounds.len() as int,
        |bound: AxisBound| bound.length != 0 && bound.end() == source_y + 1,
    )
}

/// A target row that collects source rows until its window ends.
#[derive(Clone, Copy, Debug, PartialEq, Eq, Structural)]
pub struct ActiveRow {
    pub target_y: u32,
    pub end_source_y: u32,
}

/// The share that a source row has in a target row: its coefficient's place.
#[derive(Clone, Copy, Debug, PartialEq, Eq, Structural)]
pub struct RowContribution {
    pub target_y: u32,
    pub weight_index: usize,
}

/// What one source row does to the target rows: those it begins, those it
/// contributes to, and those it completes.
#[derive(Debug)]
pub struct RowStep {
    pub activated: Vec<u32>,
    pub contributions: Vec<RowContribution>,
    pub completed: Vec<u32>,
}

/// The target rows of a resampling that are begun and not completed.
#[derive(Debug)]
pub struct RowSchedule {
    pub next_target_y: u32,
    pub active: VecDeque<ActiveRow>,
}

/// The target rows of active rows.
pub open spec fn active_targets(active: Seq<ActiveRow>) -> Seq<u32> {
    active.map_values(|row: ActiveRow| row.target_y)
}

impl RowSchedule {
    /// The active rows are targets of the table and know where they end.
    pub open spec fn knows(&self, bounds: Seq<AxisBound>) -> bool {
        &&& self.next_target_y <= bounds.len()
        &&& forall|i: int|
            #![trigger self.active@[i]]
            0 <= i < self.active@.len() ==> self.active@[i].target_y < self.next_target_y
                && self.active@[i].end_source_y == bounds[self.active@[i].target_y as int].end()
                && bounds[self.active@[i].target_y as int].length != 0
    }

    /// Every source row before `source_y` was processed: exactly the targets whose
    /// windows began before it are begun, and exactly those that end after it are
    /// still active.
    pub open spec fn ready_for(&self, bounds: Seq<AxisBound>, source_y: int) -> bool {
        &&& self.knows(bounds)
        &&& forall|t: int|
            #![trigger bounds[t]]
            0 <= t < self.next_target_y && bounds[t].length != 0 ==> bounds[t].start < source_y
        &&& forall|t: int|
            #![trigger bounds[t]]
            self.next_target_y <= t < bounds.len() && bounds[t].length != 0 ==> bounds[t].start
                >= source_y
        &&& active_targets(self.active@) == targets_where(
            bounds,
            self.next_target_y as int,
            |bound: AxisBound| bound.length != 0 && bound.end() > source_y,
        )
    }

    /// A schedule that has begun no row.
    pub fn new() -> (schedule: RowSchedule)
        ensures
            schedule.next_target_y == 0,
            schedule.active@ == Seq::<ActiveRow>::empty(),
            forall|bounds: Seq<AxisBound>, source_y: int|
                #![trigger schedule.ready_for(bounds, source_y)]
                (forall|t: int|
                    #![trigger bounds[t]]
                    0 <= t < bounds.len() && bounds[t].length != 0 ==> bounds[t].start
                        >= source_y) ==> schedule.ready_for(bounds, source_y),
    {
        let schedule = RowSchedule { next_target_y: 0, active: VecDeque::new() };
        assert(active_targets(schedule.active@) =~= Seq::<u32>::empty());
        schedule
    }

    /// Begins the target rows, in order, whose windows start at or before a source
    /// row, up to the first that starts later. Empty windows are passed over.
    pub fn activate_output_rows(&mut self, bounds: &[AxisBound], source_y: u32) -> (activated: Vec<
        u32,
    >)
        requires
            bounds@.len() <= u32::MAX,
            bounded(bounds@),
            old(self).knows(bounds@),
        ensures
            final(self).knows(bounds@),
            old(self).next_target_y <= final(self).next_target_y <= bounds@.len(),
            final(self).next_target_y < bounds@.len() ==> bounds@[final(self).next_target_y as int].length
                != 0 && bounds@[final(self).next_target_y as int].start > source_y,
            forall|t: int|
                #![trigger bounds@[t]]
                old(self).next_target_y <= t < final(self).next_target_y && bounds@[t].length != 0
                    ==> bounds@[t].start <= source_y,
            active_targets(final(self).active@) == active_targets(old(self).active@) + activated@,
            targets_where(
                bounds@,
                final(self).next_target_y as int,
                |bound: AxisBound| bound.length != 0,
            ) == targets_where(
                bounds@,
                old(self).next_target_y as int,
                |bound: AxisBound| bound.length != 0,
            ) + activated@,
    {
        let mut activated: Vec<u32> = Vec::new();
        let ghost not_empty = |bound: AxisBound| bound.length != 0;
        let ghost begun = targets_where(bounds@, self.next_target_y as int, not_empty);
        let ghost first = active_targets(self.active@);
        assert(first + activated@ =~= first);
        assert(begun + activated@ =~= begun);
        while self.next_target_y < bounds.len() as u32 && (bounds[self.next_target_y as usize].length
            == 0 || bounds[self.next_target_y as usize].start <= source_y)
            invariant
                bounds@.len() <= u32::MAX,
                bounded(bounds@),
                self.knows(bounds@),
                old(self).next_target_y <= self.next_target_y,
                forall|t: int|
                    #![trigger bounds@[t]]
                    old(self).next_target_y <= t < self.next_target_y && bounds@[t].length != 0
                        ==> bounds@[t].start <= source_y,
                active_targets(self.active@) == first + activated@,
                not_empty == (|bound: AxisBound| bound.length != 0),
                targets_where(bounds@, self.next_target_y as int, not_empty) == begun + activated@,
            decreases bounds@.len() - self.next_target_y,
        {
            let target_y: u32 = self.next_target_y;
            let bound: AxisBound = bounds[target_y as usize];
            let ghost active = self.active@;
            let ghost listed = activated@;
            if bound.length != 0 {
                self.active.push_back(
                    ActiveRow { target_y, end_source_y: bound.start + bound.length },
                );
                activated.push(target_y);
                proof {
                    assert(active_targets(self.active@) =~= active_targets(active).push(target_y));
                    assert(first + activated@ =~= (first + listed).push(target_y));
                    assert(begun + activated@ =~= (begun + listed).push(target_y));
                }
            }
            self.next_target_y = target_y + 1;
        }
        activated
    }

    /// Completes the front rows whose windows end with a source row or before.
    pub fn flush_completed_output_rows(&mut self, source_y: u32) -> (completed: Vec<u32>)
        requires
            source_y < u32::MAX,
        ensures
            final(self).next_target_y == old(self).next_target_y,
            active_targets(old(self).active@) == completed@ + active_targets(final(self).active@),
            completed@.len() <= old(self).active@.len(),
            final(self).active@ == old(self).active@.skip(completed@.len() as int),
            forall|i: int|
                #![trigger old(self).active@[i]]
                0 <= i < completed@.len() ==> old(self).active@[i].end_source_y <= source_y + 1,
            final(self).active@.len() > 0 ==> final(self).active@[0].end_source_y > source_y + 1,
    {
        let mut completed: Vec<u32> = Vec::new();
        let ghost before = self.active@;
        assert(before.skip(0) =~= before);
        assert(completed@ + active_targets(before) =~= active_targets(before));
        let mut more: bool = true;
        while more
            invariant
                source_y < u32::MAX,
                self.next_target_y == old(self).next_target_y,
                completed@.len() <= before.len(),
                self.active@ == before.skip(completed@.len() as int),
                completed@ + active_targets(self.active@) == active_targets(before),
                forall|i: int|
                    #![trigger before[i]]
                    0 <= i < completed@.len() ==> before[i].end_source_y <= source_y + 1,
                !more ==> self.active@.len() == 0 || self.active@[0].end_source_y > source_y + 1,
            decreases self.active@.len(), more as int,
        {
            if self.active.len() == 0 || self.active[0].end_source_y > source_y + 1 {
                more = false;
            } else {
                let ghost queued = self.active@;
                let ghost listed = completed@;
                match self.active.pop_front() {
                    Some(row) => {
                        completed.push(row.target_y);
                        proof {
                            assert(queued[0] == row);
                            assert(before[listed.len() as int] == row);
                            assert(self.active@ =~= before.skip(completed@.len() as int));
                            assert(active_targets(queued) =~= seq![row.target_y]
                                + active_targets(self.active@));
                            assert(completed@ + active_targets(self.active@) =~= listed
                                + active_targets(queued));
                        }
                    },
                    None => {},
                }
            }
        }
        completed
    }

    /// Passes over the empty windows that follow.
    pub fn skip_empty_output_rows(&mut self, bounds: &[AxisBound])
        requires
            bounds@.len() <= u32::MAX,
            old(self).next_target_y <= bounds@.len(),
        ensures
            final(self).active@ == old(self).active@,
            old(self).next_target_y <= final(self).next_target_y <= bounds@.len(),
            final(self).next_target_y < bounds@.len() ==> bounds@[final(self).next_target_y as int].length
                != 0,
            forall|t: int|
                #![trigger bounds@[t]]
                old(self).next_target_y <= t < final(self).next_target_y ==> bounds@[t].length
                    == 0,
    {
        while self.next_target_y < bounds.len() as u32 && bounds[self.next_target_y as usize].length
            == 0
            invariant
                bounds@.len() <= u32::MAX,
                self.active@ == old(self).active@,
                old(self).next_target_y <= self.next_target_y <= bounds@.len(),
                forall|t: int|
                    #![trigger bounds@[t]]
                    old(self).next_target_y <= t < self.next_target_y ==> bounds@[t].length == 0,
            decreases bounds@.len() - self.next_target_y,
        {
            self.next_target_y = self.next_target_y + 1;
        }
    }

    /// The coefficients with which a source row contributes to the active rows.
    fn active_contributions(&self, bounds: &[AxisBound], source_y: u32) -> (contributions: Vec<
        RowContribution,
    >)
        requires
            self.knows(bounds@),
            forall|i: int|
                #![trigger self.active@[i]]
                0 <= i < self.active@.len() ==> {
                    let bound = bounds@[self.active@[i].target_y as int];
                    bound.holds(source_y as int) && bound.weights_start + bound.length <= usize::MAX
                },
        ensures
            contributions@ == Seq::new(
                self.active@.len(),
                |i: int| contribution_of(bounds@, self.active@[i].target_y, source_y as int),
            ),
    {
        let mut contributions: Vec<RowContribution> = Vec::new();
        let mut index: usize = 0;
        while index < self.active.len()
            invariant
                self.knows(bounds@),
                index <= self.active@.len(),
                forall|i: int|
                    #![trigger self.active@[i]]
                    0 <= i < self.active@.len() ==> {
                        let bound = bounds@[self.active@[i].target_y as int];
                        bound.holds(source_y as int) && bound.weights_start + bound.length
                            <= usize::MAX
                    },
                contributions@ == Seq::new(
                    index as nat,
                    |i: int| contribution_of(bounds@, self.active@[i].target_y, source_y as int),
                ),
            decreases self.active@.len() - index,
        {
            let row: ActiveRow = self.active[index];
            assert(row == self.active@[index as int]);
            let bound: AxisBound = bounds[row.target_y as usize];
            contributions.push(
                RowContribution {
                    target_y: row.target_y,
                    weight_index: bound.weights_start + (source_y - bound.start) as usize,
                },
            );
            assert(contributions@ =~= Seq::new(
                (index + 1) as nat,
                |i: int| contribution_of(bounds@, self.active@[i].target_y, source_y as int),
            ));
            index = index + 1;
        }
        contributions
    }

    /// Processes one source row: begins the target rows whose windows start with
    /// it, lists those whose windows hold it, and completes those whose windows end
    /// with it.
    pub fn advance(&mut self, bounds: &[AxisBound], source_y: u32) -> (step: RowStep)
        requires
            bounds@.len() <= u32::MAX,
            source_y < u32::MAX,
            bounded(bounds@),
            monotone(bounds@),
            forall|i: int|
                #![trigger bounds@[i]]
                0 <= i < bounds@.len() ==> bounds@[i].weights_start + bounds@[i].length
                    <= usize::MAX,
            old(self).ready_for(bounds@, source_y as int),
        ensures
            final(self).ready_for(bounds@, source_y + 1),
            step.activated@ == targets_starting(bounds@, source_y as int),
            step.contributions@ == contributions_at(bounds@, source_y as int),
            forall|i: int|
                #![trigger step.contributions@[i]]
                0 <= i < step.contributions@.len() ==> takes_its_coefficient(
                    bounds@,
                    step.contributions@[i],
                    source_y as int,
                ),
            step.completed@ == targets_ending(bounds@, source_y as int),
    {
        let y: Ghost<int> = Ghost(source_y as int);
        let activated: Vec<u32> = self.activate_output_rows(bounds, source_y);
        proof {
            lemma_rows_after_activation(
                bounds@,
                old(self).next_target_y as int,
                self.next_target_y as int,
                activated@,
                y@,
            );
            lemma_targets_listed(
                bounds@,
                bounds@.len() as int,
                |bound: AxisBound| bound.holds(y@),
            );
            let held = targets_holding(bounds@, y@);
            assert(active_targets(self.active@) == held);
            assert forall|i: int|
                #![trigger self.active@[i]]
                0 <= i < self.active@.len() implies {
                let bound = bounds@[self.active@[i].target_y as int];
                bound.holds(source_y as int) && bound.weights_start + bound.length <= usize::MAX
            } by {
                assert(active_targets(self.active@)[i] == self.active@[i].target_y);
                assert(held[i] == self.active@[i].target_y);
            }
        }
        let contributions: Vec<RowContribution> = self.active_contributions(bounds, source_y);
        assert(contributions@ =~= contributions_at(bounds@, source_y as int)) by {
            assert forall|i: int| 0 <= i < contributions@.len() implies contributions@[i]
                == contributions_at(bounds@, source_y as int)[i] by {
                assert(active_targets(self.active@)[i] == self.active@[i].target_y);
            }
        }
        proof {
            lemma_shares_take_their_coefficients(bounds@, source_y as int);
        }
        let ghost active = self.active@;
        let completed: Vec<u32> = self.flush_completed_output_rows(source_y);
        proof {
            lemma_rows_after_flush(
                bounds@,
                self.next_target_y as int,
                active,
                completed@,
                self.active@,
                y@,
            );
        }
        RowStep { activated, contributions, completed }
    }

    /// Fails unless every target row was begun and completed.
    pub fn ensure_output_rows_complete(&self, target_height: u32) -> (complete: Result<
        (),
        ResampleFailure,
    >)
        ensures
            complete == (if self.next_target_y != target_height || self.active@.len() != 0 {
                Err::<(), ResampleFailure>(ResampleFailure::IncompleteRows)
            } else {
                Ok(())
            }),
    {
        if self.next_target_y != target_height || self.active.len() != 0 {
            return Err(ResampleFailure::IncompleteRows);
        }
        Ok(())
    }
}

/// The share of a source row in a target row.
pub open spec fn contribution_of(
    bounds: Seq<AxisBound>,
    target_y: u32,
    source_y: int,
) -> RowContribution {
    RowContribution {
        target_y,
        weight_index: (bounds[target_y as int].weights_start + (source_y
            - bounds[target_y as int].start)) as usize,
    }
}

/// A share of a source row is of a target row whose window holds it, and its
/// coefficient stands as far behind the window's first coefficient as the row lies
/// behind the window's first row.
pub open spec fn takes_its_coefficient(
    bounds: Seq<AxisBound>,
    share: RowContribution,
    source_y: int,
) -> bool {
    let bound = bounds[share.target_y as int];
    &&& share.target_y < bounds.len()
    &&& bound.start <= source_y < bound.start + bound.length
    &&& share.weight_index - bound.weights_start == source_y - bound.start
}

/// The shares of a source row: one in every target row whose window holds it.
pub open spec fn contributions_at(bounds: Seq<AxisBound>, source_y: int) -> Seq<RowContribution> {
    targets_holding(bounds, source_y).map_values(
        |target_y: u32| contribution_of(bounds, target_y, source_y),
    )
}

/// The targets from `first` to below `end` whose window satisfies a condition.
spec fn targets_between(
    bounds: Seq<AxisBound>,
    first: int,
    end: int,
    condition: spec_fn(AxisBound) -> bool,
) -> Seq<u32>
    decreases end - first,
{
    if end <= first {
        Seq::empty()
    } else {
        let before = targets_between(bounds, first, end - 1, condition);
        if condition(bounds[end - 1]) {
            before.push((end - 1) as u32)
        } else {
            before
        }
    }
}

/// A list of targets is the list up to a place and the list from there on.
proof fn lemma_targets_split(
    bounds: Seq<AxisBound>,
    first: int,
    end: int,
    condition: spec_fn(AxisBound) -> bool,
)
    requires
        0 <= first <= end <= bounds.len(),
    ensures
        targets_where(bounds, end, condition) == targets_where(bounds, first, condition)
            + targets_between(bounds, first, end, condition),
    decreases end - first,
{
    if first < end {
        lemma_targets_split(bounds, first, end - 1, condition);
        assert(targets_where(bounds, end, condition) =~= targets_where(bounds, first, condition)
            + targets_between(bounds, first, end, condition));
    } else {
        assert(targets_where(bounds, first, condition) + Seq::<u32>::empty() =~= targets_where(
            bounds,
            first,
            condition,
        ));
    }
}

/// Conditions that agree on a stretch of windows list the same targets there.
proof fn lemma_targets_agree(
    bounds: Seq<AxisBound>,
    first: int,
    end: int,
    left: spec_fn(AxisBound) -> bool,
    right: spec_fn(AxisBound) -> bool,
)
    requires
        0 <= first <= end <= bounds.len(),
        forall|t: int|
            #![trigger bounds[t]]
            first <= t < end ==> left(bounds[t]) == right(bounds[t]),
    ensures
        targets_between(bounds, first, end, left) == targets_between(bounds, first, end, right),
    decreases end - first,
{
    if first < end {
        lemma_targets_agree(bounds, first, end - 1, left, right);
        assert(left(bounds[end - 1]) == right(bounds[end - 1]));
    }
}

/// A condition that no window of a stretch satisfies lists no target there.
proof fn lemma_targets_none(
    bounds: Seq<AxisBound>,
    first: int,
    end: int,
    condition: spec_fn(AxisBound) -> bool,
)
    requires
        0 <= first <= end <= bounds.len(),
        forall|t: int| #![trigger bounds[t]] first <= t < end ==> !condition(bounds[t]),
    ensures
        targets_between(bounds, first, end, condition) == Seq::<u32>::empty(),
    decreases end - first,
{
    if first < end {
        lemma_targets_none(bounds, first, end - 1, condition);
        assert(!condition(bounds[end - 1]));
    }
}

/// The listed targets satisfy the condition and stand in order.
pub proof fn lemma_targets_listed(
    bounds: Seq<AxisBound>,
    count: int,
    condition: spec_fn(AxisBound) -> bool,
)
    requires
        0 <= count <= bounds.len() <= u32::MAX,
    ensures
        ({
            let listed = targets_where(bounds, count, condition);
            &&& forall|i: int|
                #![trigger listed[i]]
                0 <= i < listed.len() ==> listed[i] < count && condition(bounds[listed[i] as int])
            &&& forall|i: int, j: int|
                #![trigger listed[i], listed[j]]
                0 <= i < j < listed.len() ==> listed[i] < listed[j]
            &&& forall|t: int|
                #![trigger bounds[t]]
                0 <= t < count && condition(bounds[t]) ==> listed.contains(t as u32)
        }),
    decreases count,
{
    if count > 0 {
        lemma_targets_listed(bounds, count - 1, condition);
        let before = targets_where(bounds, count - 1, condition);
        let listed = targets_where(bounds, count, condition);
        assert forall|t: int|
            #![trigger bounds[t]]
            0 <= t < count && condition(bounds[t]) implies listed.contains(t as u32) by {
            if t < count - 1 {
                assert(before.contains(t as u32));
                let i = choose|i: int| 0 <= i < before.len() && before[i] == t as u32;
                assert(listed[i] == t as u32);
            } else {
                assert(listed.last() == t as u32);
                assert(listed[listed.len() - 1] == t as u32);
            }
        }
    }
}

/// After the activation for a source row, the activated rows are those whose
/// windows start with it, and the active ones those whose windows hold it.
proof fn lemma_rows_after_activation(
    bounds: Seq<AxisBound>,
    before: int,
    after: int,
    activated: Seq<u32>,
    source_y: int,
)
    requires
        bounds.len() <= u32::MAX,
        monotone(bounds),
        0 <= before <= after <= bounds.len(),
        after < bounds.len() ==> bounds[after].length != 0 && bounds[after].start > source_y,
        forall|t: int|
            #![trigger bounds[t]]
            before <= t < after && bounds[t].length != 0 ==> bounds[t].start <= source_y,
        forall|t: int|
            #![trigger bounds[t]]
            0 <= t < before && bounds[t].length != 0 ==> bounds[t].start < source_y,
        forall|t: int|
            #![trigger bounds[t]]
            before <= t < bounds.len() && bounds[t].length != 0 ==> bounds[t].start >= source_y,
        targets_where(bounds, after, |bound: AxisBound| bound.length != 0) == targets_where(
            bounds,
            before,
            |bound: AxisBound| bound.length != 0,
        ) + activated,
    ensures
        activated == targets_starting(bounds, source_y),
        targets_where(
            bounds,
            before,
            |bound: AxisBound| bound.length != 0 && bound.end() > source_y,
        ) + activated == targets_holding(bounds, source_y),
        forall|t: int|
            #![trigger bounds[t]]
            after <= t < bounds.len() && bounds[t].length != 0 ==> bounds[t].start > source_y,
{
    let count = bounds.len() as int;
    let not_empty = |bound: AxisBound| bound.length != 0;
    let starts = |bound: AxisBound| bound.length != 0 && bound.start == source_y;
    let open = |bound: AxisBound| bound.length != 0 && bound.end() > source_y;
    let holds = |bound: AxisBound| bound.holds(source_y);
    assert forall|t: int|
        #![trigger bounds[t]]
        after <= t < bounds.len() && bounds[t].length != 0 implies bounds[t].start > source_y by {
        if t > after {
            assert(bounds[after].start <= bounds[t].start);
        }
    }
    lemma_targets_split(bounds, before, after, not_empty);
    let begun = targets_where(bounds, before, not_empty);
    assert(activated =~= (begun + activated).skip(begun.len() as int));
    assert(activated =~= targets_between(bounds, before, after, not_empty)) by {
        assert(targets_between(bounds, before, after, not_empty) =~= (begun + targets_between(
            bounds,
            before,
            after,
            not_empty,
        )).skip(begun.len() as int));
    }
    lemma_targets_agree(bounds, before, after, not_empty, starts);
    lemma_targets_agree(bounds, before, after, not_empty, holds);
    lemma_targets_split(bounds, 0, before, starts);
    lemma_targets_none(bounds, 0, before, starts);
    lemma_targets_split(bounds, before, after, starts);
    lemma_targets_split(bounds, after, count, starts);
    lemma_targets_none(bounds, after, count, starts);
    assert(targets_starting(bounds, source_y) =~= activated);
    lemma_targets_split(bounds, 0, before, open);
    lemma_targets_split(bounds, 0, before, holds);
    lemma_targets_agree(bounds, 0, before, open, holds);
    lemma_targets_split(bounds, before, after, holds);
    lemma_targets_split(bounds, after, count, holds);
    lemma_targets_none(bounds, after, count, holds);
    assert(targets_holding(bounds, source_y) =~= targets_where(bounds, before, open) + activated);
}

/// Splitting a list of targets where a property begins to hold separates the
/// targets with it from those without.
proof fn lemma_targets_partition(
    bounds: Seq<AxisBound>,
    count: int,
    condition: spec_fn(AxisBound) -> bool,
    early: spec_fn(AxisBound) -> bool,
    first: Seq<u32>,
    rest: Seq<u32>,
)
    requires
        0 <= count <= bounds.len() <= u32::MAX,
        targets_where(bounds, count, condition) == first + rest,
        forall|i: int|
            #![trigger first[i]]
            0 <= i < first.len() ==> early(bounds[first[i] as int]),
        forall|i: int|
            #![trigger rest[i]]
            0 <= i < rest.len() ==> !early(bounds[rest[i] as int]),
    ensures
        targets_where(bounds, count, |bound: AxisBound| condition(bound) && early(bound)) == first,
        targets_where(bounds, count, |bound: AxisBound| condition(bound) && !early(bound)) == rest,
    decreases count,
{
    let with = |bound: AxisBound| condition(bound) && early(bound);
    let without = |bound: AxisBound| condition(bound) && !early(bound);
    let listed = targets_where(bounds, count, condition);
    if count > 0 {
        let before = targets_where(bounds, count - 1, condition);
        if condition(bounds[count - 1]) {
            assert(listed.last() == (count - 1) as u32);
            assert(listed.drop_last() =~= before);
            if rest.len() > 0 {
                assert((first + rest).last() == rest.last());
                assert(rest[rest.len() - 1] == (count - 1) as u32);
                assert(before =~= first + rest.drop_last());
                assert forall|i: int|
                    #![trigger rest.drop_last()[i]]
                    0 <= i < rest.drop_last().len() implies !early(
                    bounds[rest.drop_last()[i] as int],
                ) by {
                    assert(rest.drop_last()[i] == rest[i]);
                }
                lemma_targets_partition(
                    bounds,
                    count - 1,
                    condition,
                    early,
                    first,
                    rest.drop_last(),
                );
                assert(rest =~= rest.drop_last().push((count - 1) as u32));
            } else {
                assert(first + rest =~= first);
                assert(first[first.len() - 1] == (count - 1) as u32);
                assert(before =~= first.drop_last() + rest);
                assert forall|i: int|
                    #![trigger first.drop_last()[i]]
                    0 <= i < first.drop_last().len() implies early(
                    bounds[first.drop_last()[i] as int],
                ) by {
                    assert(first.drop_last()[i] == first[i]);
                }
                lemma_targets_partition(
                    bounds,
                    count - 1,
                    condition,
                    early,
                    first.drop_last(),
                    rest,
                );
                assert(first =~= first.drop_last().push((count - 1) as u32));
            }
        } else {
            lemma_targets_partition(bounds, count - 1, condition, early, first, rest);
        }
    } else {
        assert((first + rest).len() == first.len() + rest.len());
        assert(listed.len() == 0);
        assert(first =~= Seq::<u32>::empty());
        assert(rest =~= Seq::<u32>::empty());
    }
}

/// After the flush for a source row, the completed rows are those whose windows
/// end with it, and the active ones those that go on.
proof fn lemma_rows_after_flush(
    bounds: Seq<AxisBound>,
    next: int,
    active: Seq<ActiveRow>,
    completed: Seq<u32>,
    remaining: Seq<ActiveRow>,
    source_y: int,
)
    requires
        bounds.len() <= u32::MAX,
        monotone(bounds),
        0 <= next <= bounds.len(),
        forall|t: int|
            #![trigger bounds[t]]
            0 <= t < next && bounds[t].length != 0 ==> bounds[t].start <= source_y,
        forall|t: int|
            #![trigger bounds[t]]
            next <= t < bounds.len() && bounds[t].length != 0 ==> bounds[t].start > source_y,
        forall|i: int|
            #![trigger active[i]]
            0 <= i < active.len() ==> active[i].target_y < next && active[i].end_source_y
                == bounds[active[i].target_y as int].end(),
        active_targets(active) == targets_holding(bounds, source_y),
        active_targets(active) == completed + active_targets(remaining),
        completed.len() <= active.len(),
        remaining == active.skip(completed.len() as int),
        forall|i: int|
            #![trigger active[i]]
            0 <= i < completed.len() ==> active[i].end_source_y <= source_y + 1,
        remaining.len() > 0 ==> remaining[0].end_source_y > source_y + 1,
    ensures
        completed == targets_ending(bounds, source_y),
        active_targets(remaining) == targets_where(
            bounds,
            next,
            |bound: AxisBound| bound.length != 0 && bound.end() > source_y + 1,
        ),
{
    let count = bounds.len() as int;
    let holds = |bound: AxisBound| bound.holds(source_y);
    let early = |bound: AxisBound| bound.end() <= source_y + 1;
    let ends = |bound: AxisBound| bound.length != 0 && bound.end() == source_y + 1;
    let goes_on = |bound: AxisBound| bound.length != 0 && bound.end() > source_y + 1;
    let held = targets_holding(bounds, source_y);
    lemma_targets_listed(bounds, count, holds);
    assert forall|i: int|
        #![trigger completed[i]]
        0 <= i < completed.len() implies early(bounds[completed[i] as int]) by {
        assert(active_targets(active)[i] == completed[i]);
        assert(active[i].target_y == completed[i]);
    }
    let rest = active_targets(remaining);
    assert forall|i: int| #![trigger rest[i]] 0 <= i < rest.len() implies !early(
        bounds[rest[i] as int],
    ) by {
        let k = completed.len() + i;
        let k0 = completed.len() as int;
        assert(active_targets(active)[k] == rest[i]);
        assert(active[k].target_y == rest[i]);
        assert(remaining[0] == active[k0]);
        assert(held[k] == rest[i]);
        assert(held[k0] == active[k0].target_y) by {
            assert(active_targets(active)[k0] == active[k0].target_y);
        }
        assert(bounds[active[k0].target_y as int].end() > source_y + 1);
        if i > 0 {
            assert(held[k0] < held[k]);
            assert(bounds[held[k0] as int].end() <= bounds[held[k] as int].end());
        }
    }
    lemma_targets_partition(bounds, count, holds, early, completed, rest);
    let with = |bound: AxisBound| holds(bound) && early(bound);
    let without = |bound: AxisBound| holds(bound) && !early(bound);
    lemma_targets_split(bounds, 0, count, with);
    lemma_targets_split(bounds, 0, count, ends);
    assert forall|t: int| #![trigger bounds[t]] 0 <= t < count implies with(bounds[t]) == ends(
        bounds[t],
    ) by {
        if bounds[t].length != 0 && t >= next {
            assert(bounds[t].start > source_y);
        }
    }
    lemma_targets_agree(bounds, 0, count, with, ends);
    lemma_targets_split(bounds, 0, next, without);
    lemma_targets_split(bounds, next, count, without);
    lemma_targets_none(bounds, next, count, without);
    lemma_targets_split(bounds, 0, next, goes_on);
    lemma_targets_agree(bounds, 0, next, without, goes_on);
    assert(completed =~= targets_ending(bounds, source_y));
    assert(rest =~= targets_where(bounds, next, goes_on));
}

/// The source rows of one batch: no more than there are, than the threads
/// share, or than the byte limit holds, but at least one.
pub open spec fn batch_capacity(
    source_row_pixels: int,
    target_row_pixels: int,
    source_row_count: int,
    threads: int,
) -> int {
    let pixels = numeric::smaller(source_row_pixels + target_row_pixels, usize::MAX as int);
    let row_bytes = numeric::larger(numeric::smaller(pixels * 16, usize::MAX as int), 1);
    let by_memory = numeric::larger(MAX_RESAMPLING_ROW_BATCH_BYTES as int / row_bytes, 1);
    let by_threads = numeric::larger(numeric::smaller(threads * 2, usize::MAX as int), 1);
    numeric::smaller(numeric::smaller(source_row_count, by_threads), by_memory)
}

/// `rayon::current_num_threads`, the number of threads of the current pool. It
/// depends on the machine and on the pool, and nothing is claimed of it.
#[verifier::external_body]
fn worker_threads() -> (threads: usize) {
    rayon::current_num_threads()
}

/// The source rows of one batch for a number of threads.
pub fn row_batch_capacity(
    source_row_pixels: usize,
    target_row_pixels: usize,
    source_row_count: usize,
    threads: usize,
) -> (capacity: usize)
    ensures
        capacity == batch_capacity(
            source_row_pixels as int,
            target_row_pixels as int,
            source_row_count as int,
            threads as int,
        ),
        source_row_count > 0 ==> capacity > 0,
        capacity <= source_row_count,
{
    let pixels: usize = source_row_pixels.saturating_add(target_row_pixels);
    let row_bytes: usize = max_usize(saturating_mul_usize(pixels, SCRATCH_PIXEL_BYTES), 1);
    let by_memory: usize = max_usize(MAX_RESAMPLING_ROW_BATCH_BYTES / row_bytes, 1);
    let by_threads: usize = max_usize(saturating_mul_usize(threads, RESAMPLING_ROWS_PER_WORKER), 1);
    min_usize(min_usize(source_row_count, by_threads), by_memory)
}

/// However wide the rows are, a batch of more than one row stays within the byte
/// limit.
pub proof fn row_batches_stay_within_their_limit(
    source_row_pixels: int,
    target_row_pixels: int,
    source_row_count: int,
    threads: int,
)
    requires
        0 <= source_row_pixels,
        0 <= target_row_pixels,
    ensures
        ({
            let capacity = batch_capacity(
                source_row_pixels,
                target_row_pixels,
                source_row_count,
                threads,
            );
            capacity > 1 ==> (source_row_pixels + target_row_pixels) * 16 * capacity
                <= MAX_RESAMPLING_ROW_BATCH_BYTES
        }),
{
    let capacity = batch_capacity(
        source_row_pixels,
        target_row_pixels,
        source_row_count,
        threads,
    );
    let limit = MAX_RESAMPLING_ROW_BATCH_BYTES as int;
    let pixels = numeric::smaller(source_row_pixels + target_row_pixels, usize::MAX as int);
    let row_bytes = numeric::larger(numeric::smaller(pixels * 16, usize::MAX as int), 1);
    if capacity > 1 {
        assert(capacity * row_bytes <= limit && 2 * row_bytes <= limit) by (nonlinear_arith)
            requires
                2 <= capacity <= limit / row_bytes,
                1 <= row_bytes,
        ;
        assert((source_row_pixels + target_row_pixels) * 16 <= row_bytes);
        assert((source_row_pixels + target_row_pixels) * 16 * capacity <= row_bytes * capacity)
            by (nonlinear_arith)
            requires
                (source_row_pixels + target_row_pixels) * 16 <= row_bytes,
                0 <= capacity,
        ;
        assert(row_bytes * capacity == capacity * row_bytes) by (nonlinear_arith);
    }
}

/// The source rows of one batch for the threads of the current pool.
pub fn resampling_row_batch_capacity(
    source_row_pixels: usize,
    target_row_pixels: usize,
    source_row_count: usize,
) -> (capacity: usize)
    ensures
        exists|threads: usize|
            capacity == #[trigger] batch_capacity(
                source_row_pixels as int,
                target_row_pixels as int,
                source_row_count as int,
                threads as int,
            ),
        source_row_count > 0 ==> capacity > 0,
        capacity <= source_row_count,
{
    let threads: usize = worker_threads();
    row_batch_capacity(source_row_pixels, target_row_pixels, source_row_count, threads)
}

/// The buffers and the source region of a resampling.
#[derive(Clone, Copy, Debug, PartialEq, Eq, Structural)]
pub struct ResamplePlan {
    pub source_x_start: u32,
    pub source_row_pixels: usize,
    pub target_row_pixels: usize,
    pub output_bytes: usize,
    pub first_source_y: u32,
    pub end_source_y: u32,
    pub batch_capacity: usize,
    pub source_batch_pixels: usize,
    pub horizontal_batch_pixels: usize,
}

/// The start of a source range; an empty one starts at the first row.
pub open spec fn range_start(range: Option<(u32, u32)>) -> int {
    match range {
        Some((start, end)) => start as int,
        None => 0,
    }
}

/// The rows of a source range.
pub open spec fn range_length(range: Option<(u32, u32)>) -> int {
    match range {
        Some((start, end)) => end - start,
        None => 0,
    }
}

/// The plan of a resampling in batches of `capacity` rows, or the first buffer
/// that does not fit the machine.
pub open spec fn planned_rows(
    horizontal: Seq<AxisBound>,
    vertical: Seq<AxisBound>,
    target: ViewportTarget,
    capacity: int,
) -> Result<ResamplePlan, ResampleFailure> {
    let columns = whole_range(horizontal);
    let rows = whole_range(vertical);
    let output_bytes = target.width * target.height * 8;
    if output_bytes > usize::MAX {
        Err(ResampleFailure::OutputSize)
    } else if range_length(columns) * capacity > usize::MAX {
        Err(ResampleFailure::SourceBatchSize)
    } else if target.width * capacity > usize::MAX {
        Err(ResampleFailure::HorizontalBatchSize)
    } else {
        Ok(
            ResamplePlan {
                source_x_start: range_start(columns) as u32,
                source_row_pixels: range_length(columns) as usize,
                target_row_pixels: target.width as usize,
                output_bytes: output_bytes as usize,
                first_source_y: range_start(rows) as u32,
                end_source_y: (range_start(rows) + range_length(rows)) as u32,
                batch_capacity: capacity as usize,
                source_batch_pixels: (range_length(columns) * capacity) as usize,
                horizontal_batch_pixels: (target.width * capacity) as usize,
            },
        )
    }
}

/// Plans a resampling for a number of threads.
pub fn plan_rows(
    horizontal: &[AxisBound],
    vertical: &[AxisBound],
    target: ViewportTarget,
    threads: usize,
) -> (plan: Result<ResamplePlan, ResampleFailure>)
    requires
        bounded(horizontal@),
        bounded(vertical@),
    ensures
        plan == planned_rows(
            horizontal@,
            vertical@,
            target,
            batch_capacity(
                range_length(whole_range(horizontal@)),
                target.width as int,
                range_length(whole_range(vertical@)),
                threads as int,
            ),
        ),
        plan matches Ok(planned) ==> planned.fits(vertical@),
{
    let columns: Option<(u32, u32)> = contribution_source_range(horizontal);
    let rows: Option<(u32, u32)> = contribution_source_range(vertical);
    let (source_x_start, source_row_pixels): (u32, usize) = match columns {
        Some((start, end)) => (start, (end - start) as usize),
        None => (0, 0),
    };
    let (first_source_y, end_source_y): (u32, u32) = match rows {
        Some((start, end)) => (start, end),
        None => (0, 0),
    };
    let target_row_pixels: usize = target.width as usize;
    let output_bytes: usize = match target_row_pixels.checked_mul(target.height as usize) {
        Some(pixels) => match pixels.checked_mul(CANONICAL_BYTES_PER_PIXEL) {
            Some(bytes) => bytes,
            None => {
                return Err(ResampleFailure::OutputSize);
            },
        },
        None => {
            return Err(ResampleFailure::OutputSize);
        },
    };
    let capacity: usize = row_batch_capacity(
        source_row_pixels,
        target_row_pixels,
        (end_source_y - first_source_y) as usize,
        threads,
    );
    let source_batch_pixels: usize = match source_row_pixels.checked_mul(capacity) {
        Some(pixels) => pixels,
        None => {
            return Err(ResampleFailure::SourceBatchSize);
        },
    };
    let horizontal_batch_pixels: usize = match target_row_pixels.checked_mul(capacity) {
        Some(pixels) => pixels,
        None => {
            return Err(ResampleFailure::HorizontalBatchSize);
        },
    };
    Ok(
        ResamplePlan {
            source_x_start,
            source_row_pixels,
            target_row_pixels,
            output_bytes,
            first_source_y,
            end_source_y,
            batch_capacity: capacity,
            source_batch_pixels,
            horizontal_batch_pixels,
        },
    )
}

/// Plans a resampling for the threads of the current pool.
pub fn plan_resampling(
    horizontal: &[AxisBound],
    vertical: &[AxisBound],
    target: ViewportTarget,
) -> (plan: Result<ResamplePlan, ResampleFailure>)
    requires
        bounded(horizontal@),
        bounded(vertical@),
    ensures
        exists|threads: usize|
            plan == planned_rows(
                horizontal@,
                vertical@,
                target,
                #[trigger] batch_capacity(
                    range_length(whole_range(horizontal@)),
                    target.width as int,
                    range_length(whole_range(vertical@)),
                    threads as int,
                ),
            ),
        plan matches Ok(planned) ==> planned.fits(vertical@),
{
    let threads: usize = worker_threads();
    plan_rows(horizontal, vertical, target, threads)
}

impl ResamplePlan {
    /// The plan reads exactly the source rows that the windows of the target rows
    /// need, in batches that are not empty.
    pub open spec fn fits(&self, vertical: Seq<AxisBound>) -> bool {
        &&& self.first_source_y <= self.end_source_y
        &&& self.first_source_y < self.end_source_y ==> self.batch_capacity > 0
        &&& is_source_range(
            vertical,
            if self.first_source_y < self.end_source_y {
                Some((self.first_source_y, self.end_source_y))
            } else {
                None
            },
        )
    }
}

/// Why a resampling stopped.
#[derive(Clone, Copy, Debug, PartialEq, Eq, Structural)]
pub enum ResampleError {
    Cancelled,
    Failed(ResampleFailure),
}

/// What is to be done next in a resampling.
#[derive(Debug)]
pub enum ResampleAction {
    /// Read source rows and convolve them horizontally.
    ReadBatch { first_row: u32, row_count: usize },
    /// Add a row of the batch to the target rows.
    AddRow { batch_row: usize, step: RowStep },
    Done { source_bytes: usize },
    Stop(ResampleError),
}

/// A resampling under way: the rows of a batch are added one after another, and
/// then the next batch is read.
#[derive(Debug)]
pub struct ResampleRun {
    pub plan: ResamplePlan,
    pub schedule: RowSchedule,
    pub batch_start: u32,
    pub batch_rows: u32,
    pub next_in_batch: u32,
    pub rows_read: usize,
}

impl ResampleRun {
    /// The next source row to add.
    pub open spec fn position(&self) -> int {
        self.batch_start + self.next_in_batch
    }

    /// The invariant of a resampling: the rows before the position were added, and
    /// the rows of the batch were read.
    pub open spec fn wf(&self, vertical: Seq<AxisBound>) -> bool {
        &&& vertical.len() <= u32::MAX
        &&& bounded(vertical)
        &&& monotone(vertical)
        &&& forall|i: int|
            #![trigger vertical[i]]
            0 <= i < vertical.len() ==> vertical[i].weights_start + vertical[i].length
                <= usize::MAX
        &&& self.plan.fits(vertical)
        &&& self.plan.first_source_y <= self.batch_start
        &&& self.next_in_batch <= self.batch_rows
        &&& self.batch_start + self.batch_rows <= self.plan.end_source_y
        &&& self.rows_read == self.batch_start + self.batch_rows - self.plan.first_source_y
        &&& self.schedule.ready_for(vertical, self.position())
    }

    /// A resampling that has read nothing.
    pub fn new(plan: ResamplePlan, vertical: &[AxisBound]) -> (run: ResampleRun)
        requires
            vertical@.len() <= u32::MAX,
            bounded(vertical@),
            monotone(vertical@),
            forall|i: int|
                #![trigger vertical@[i]]
                0 <= i < vertical@.len() ==> vertical@[i].weights_start + vertical@[i].length
                    <= usize::MAX,
            plan.fits(vertical@),
        ensures
            run.wf(vertical@),
            run.plan == plan,
            run.position() == plan.first_source_y,
            run.batch_rows == 0,
    {
        let schedule = RowSchedule::new();
        assert(schedule.ready_for(vertical@, plan.first_source_y as int));
        ResampleRun {
            plan,
            schedule,
            batch_start: plan.first_source_y,
            batch_rows: 0,
            next_in_batch: 0,
            rows_read: 0,
        }
    }

    /// Whether the next step looks for a cancellation: every one but the last.
    pub fn checks_cancellation(&self) -> (checks: bool)
        requires
            self.batch_start + self.next_in_batch <= u32::MAX,
        ensures
            checks == (self.position() < self.plan.end_source_y),
    {
        self.batch_start + self.next_in_batch < self.plan.end_source_y
    }

    /// Decides what is to be done next. `cancelled` is what the cancellation check
    /// gave, where this step looks for one.
    pub fn step(&mut self, vertical: &[AxisBound], cancelled: bool) -> (action: ResampleAction)
        requires
            old(self).wf(vertical@),
        ensures
            final(self).plan == old(self).plan,
            old(self).position() < old(self).plan.end_source_y && cancelled ==> action
                == ResampleAction::Stop(ResampleError::Cancelled) && *final(self) == *old(self),
            old(self).position() < old(self).plan.end_source_y && !cancelled ==> {
                &&& final(self).wf(vertical@)
                &&& if old(self).next_in_batch < old(self).batch_rows {
                    &&& action matches ResampleAction::AddRow { batch_row, step }
                    &&& batch_row == old(self).next_in_batch
                    &&& step.activated@ == targets_starting(vertical@, old(self).position())
                    &&& step.contributions@ == contributions_at(vertical@, old(self).position())
                    &&& forall|i: int|
                        #![trigger step.contributions@[i]]
                        0 <= i < step.contributions@.len() ==> takes_its_coefficient(
                            vertical@,
                            step.contributions@[i],
                            old(self).position(),
                        )
                    &&& step.completed@ == targets_ending(vertical@, old(self).position())
                    &&& final(self).position() == old(self).position() + 1
                    &&& final(self).batch_start == old(self).batch_start
                    &&& final(self).batch_rows == old(self).batch_rows
                } else {
                    &&& action matches ResampleAction::ReadBatch { first_row, row_count }
                    &&& first_row == old(self).position()
                    &&& row_count == numeric::smaller(
                        old(self).plan.end_source_y - old(self).position(),
                        old(self).plan.batch_capacity as int,
                    )
                    &&& row_count > 0
                    &&& final(self).batch_start == first_row
                    &&& final(self).batch_rows == row_count
                    &&& final(self).next_in_batch == 0
                }
            },
            old(self).position() == old(self).plan.end_source_y ==> {
                &&& action matches ResampleAction::Done { source_bytes }
                &&& source_bytes == numeric::smaller(
                    numeric::smaller(
                        old(self).plan.source_row_pixels * (old(self).plan.end_source_y
                            - old(self).plan.first_source_y),
                        usize::MAX as int,
                    ) * 8,
                    usize::MAX as int,
                )
                &&& final(self).schedule.next_target_y == vertical@.len()
                &&& final(self).schedule.active@.len() == 0
            },
    {
        let position: u32 = self.batch_start + self.next_in_batch;
        if position < self.plan.end_source_y {
            if cancelled {
                return ResampleAction::Stop(ResampleError::Cancelled);
            }
            if self.next_in_batch < self.batch_rows {
                let batch_row: usize = self.next_in_batch as usize;
                let step: RowStep = self.schedule.advance(vertical, position);
                self.next_in_batch = self.next_in_batch + 1;
                return ResampleAction::AddRow { batch_row, step };
            }
            let remaining: usize = (self.plan.end_source_y - position) as usize;
            let row_count: usize = min_usize(remaining, self.plan.batch_capacity);
            self.batch_start = position;
            self.batch_rows = row_count as u32;
            self.next_in_batch = 0;
            self.rows_read = self.rows_read + row_count;
            return ResampleAction::ReadBatch { first_row: position, row_count };
        }
        proof {
            lemma_all_rows_complete(vertical@, self.schedule, self.plan.end_source_y as int);
        }
        self.schedule.skip_empty_output_rows(vertical);
        match self.schedule.ensure_output_rows_complete(vertical.len() as u32) {
            Ok(()) => ResampleAction::Done {
                source_bytes: saturating_mul_usize(
                    saturating_mul_usize(self.plan.source_row_pixels, self.rows_read),
                    CANONICAL_BYTES_PER_PIXEL,
                ),
            },
            Err(failure) => ResampleAction::Stop(ResampleError::Failed(failure)),
        }
    }
}

/// Once every needed source row was added, no row is active, and only empty
/// windows are left.
proof fn lemma_all_rows_complete(bounds: Seq<AxisBound>, schedule: RowSchedule, end: int)
    requires
        bounds.len() <= u32::MAX,
        schedule.ready_for(bounds, end),
        forall|t: int|
            #![trigger bounds[t]]
            0 <= t < bounds.len() && bounds[t].length != 0 ==> bounds[t].end() <= end,
    ensures
        schedule.active@.len() == 0,
        forall|t: int|
            #![trigger bounds[t]]
            schedule.next_target_y <= t < bounds.len() ==> bounds[t].length == 0,
{
    let open = |bound: AxisBound| bound.length != 0 && bound.end() > end;
    lemma_targets_split(bounds, 0, schedule.next_target_y as int, open);
    lemma_targets_none(bounds, 0, schedule.next_target_y as int, open);
    assert(targets_where(bounds, schedule.next_target_y as int, open).len() == 0);
    assert(active_targets(schedule.active@).len() == schedule.active@.len());
}

/// Every target row collects exactly its window: a source row contributes to it
/// if and only if the window holds the row, once, and with the coefficient that
/// stands for that row.
pub proof fn every_target_row_collects_its_window(
    bounds: Seq<AxisBound>,
    target_y: u32,
    source_y: int,
)
    requires
        bounds.len() <= u32::MAX,
        target_y < bounds.len(),
    ensures
        bounds[target_y as int].holds(source_y) <==> contributions_at(bounds, source_y).contains(
            contribution_of(bounds, target_y, source_y),
        ),
        bounds[target_y as int].holds(source_y) <==> targets_holding(bounds, source_y).contains(
            target_y,
        ),
        targets_holding(bounds, source_y).no_duplicates(),
{
    let holds = |bound: AxisBound| bound.holds(source_y);
    let listed = targets_holding(bounds, source_y);
    let shares = contributions_at(bounds, source_y);
    lemma_targets_listed(bounds, bounds.len() as int, holds);
    let share = contribution_of(bounds, target_y, source_y);
    if bounds[target_y as int].holds(source_y) {
        assert(holds(bounds[target_y as int]));
        assert(listed.contains(target_y));
        let i = choose|i: int| 0 <= i < listed.len() && listed[i] == target_y;
        assert(shares[i] == share);
    }
    if listed.contains(target_y) {
        let i = choose|i: int| 0 <= i < listed.len() && listed[i] == target_y;
        assert(holds(bounds[listed[i] as int]));
    }
    if shares.contains(share) {
        let i = choose|i: int| 0 <= i < shares.len() && shares[i] == share;
        assert(shares[i] == contribution_of(bounds, listed[i], source_y));
        assert(listed[i] == target_y);
        assert(holds(bounds[listed[i] as int]));
    }
}

/// Every target row with a window is begun once, with the first source row of
/// the window, and completed once, with its last.
pub proof fn every_target_row_begins_and_ends_once(
    bounds: Seq<AxisBound>,
    target_y: u32,
    source_y: int,
)
    requires
        bounds.len() <= u32::MAX,
        target_y < bounds.len(),
    ensures
        targets_starting(bounds, source_y).contains(target_y) <==> bounds[target_y as int].length
            != 0 && bounds[target_y as int].start == source_y,
        targets_ending(bounds, source_y).contains(target_y) <==> bounds[target_y as int].length != 0
            && bounds[target_y as int].end() - 1 == source_y,
        targets_starting(bounds, source_y).no_duplicates(),
        targets_ending(bounds, source_y).no_duplicates(),
{
    let starts = |bound: AxisBound| bound.length != 0 && bound.start == source_y;
    let ends = |bound: AxisBound| bound.length != 0 && bound.end() == source_y + 1;
    lemma_targets_listed(bounds, bounds.len() as int, starts);
    lemma_targets_listed(bounds, bounds.len() as int, ends);
    let first = targets_starting(bounds, source_y);
    let last = targets_ending(bounds, source_y);
    assert(starts(bounds[target_y as int]) ==> first.contains(target_y));
    assert(ends(bounds[target_y as int]) ==> last.contains(target_y));
    if first.contains(target_y) {
        let i = choose|i: int| 0 <= i < first.len() && first[i] == target_y;
        assert(starts(bounds[first[i] as int]));
    }
    if last.contains(target_y) {
        let i = choose|i: int| 0 <= i < last.len() && last[i] == target_y;
        assert(ends(bounds[last[i] as int]));
    }
}

/// The source pixels and the coefficients of one target pixel, counted from the
/// first source pixel that was read.
pub fn horizontal_window(bound: AxisBound, source_origin: u32) -> (window: (
    Range<usize>,
    Range<usize>,
))
    requires
        bound.length != 0 ==> source_origin <= bound.start && bound.end() <= u32::MAX
            && bound.weights_start + bound.length <= usize::MAX,
    ensures
        bound.length == 0 ==> window.0.start == 0 && window.0.end == 0 && window.1.start == 0
            && window.1.end == 0,
        bound.length != 0 ==> {
            &&& window.0.start == bound.start - source_origin
            &&& window.0.end == bound.end() - source_origin
            &&& window.1.start == bound.weights_start
            &&& window.1.end == bound.weights_start + bound.length
        },
{
    if bound.length == 0 {
        return (0..0, 0..0);
    }
    let start: usize = (bound.start - source_origin) as usize;
    let length: usize = bound.length as usize;
    (start..start + length, bound.weights_start..bound.weights_start + length)
}

/// The windows of an axis lie in the source pixels that are read for it.
pub proof fn windows_lie_in_the_read_region(bounds: Seq<AxisBound>, start: u32, end: u32, index: int)
    requires
        is_source_range(bounds, Some((start, end))),
        0 <= index < bounds.len(),
        bounds[index].length != 0,
    ensures
        0 <= bounds[index].start - start,
        bounds[index].end() - start <= end - start,
{
}

/// The bytes of one row of the resampled output.
pub fn resampled_row_range(target: ViewportTarget, row: u32) -> (range: Range<usize>)
    requires
        row < target.height,
        target.width * target.height * 8 <= usize::MAX,
    ensures
        range.start == row * (target.width * 8),
        range.end == (row + 1) * (target.width * 8),
        range.end <= target.width * target.height * 8,
{
    proof {
        let row_bytes = target.width * 8;
        lemma_mul_is_associative(target.width as int, target.height as int, 8);
        lemma_mul_is_associative(target.width as int, 8, target.height as int);
        lemma_mul_is_commutative(target.height as int, 8);
        lemma_mul_inequality(row + 1, target.height as int, row_bytes);
        lemma_mul_is_commutative(target.height as int, row_bytes);
        lemma_mul_is_distributive_add_other_way(row_bytes, row as int, 1);
        lemma_mul_nonnegative(row as int, row_bytes);
    }
    let row_bytes: usize = target.width as usize * CANONICAL_BYTES_PER_PIXEL;
    let start: usize = row as usize * row_bytes;
    start..start + row_bytes
}

/// An alpha that can be shown: between zero and one, and zero where it is not
/// finite.
pub open spec fn shown_alpha(alpha: u32) -> u32 {
    if float_bits::finite32(alpha) {
        float_bits::clamped32(alpha, 0, F32_ONE)
    } else {
        0
    }
}

/// A color that can be shown: zero where it is transparent or not finite, and
/// else within the finite half-precision numbers.
pub open spec fn shown_color(value: u32, alpha: u32) -> u32 {
    if float_bits::magnitude32(alpha) == 0 || !float_bits::finite32(value) {
        0
    } else {
        float_bits::clamped32(value, 0xc77f_e000, MAX_FINITE_HALF)
    }
}

/// Keeps an alpha, given as single-precision bits, between zero and one.
pub fn sanitize_alpha(alpha: u32) -> (shown: u32)
    ensures
        shown == shown_alpha(alpha),
{
    if is_finite32(alpha) {
        clamp32(alpha, 0, F32_ONE)
    } else {
        0
    }
}

/// Keeps a color, given as single-precision bits, within the finite
/// half-precision numbers.
pub fn sanitize_resampled_color(value: u32, alpha: u32) -> (shown: u32)
    ensures
        shown == shown_color(value, alpha),
{
    if alpha % 0x8000_0000 == 0 || !is_finite32(value) {
        0
    } else {
        clamp32(value, 0xc77f_e000, MAX_FINITE_HALF)
    }
}

/// Sanitizes the four samples of one pixel, given as single-precision bits.
pub fn sanitize_pixel(rgba: [u32; 4]) -> (shown: [u32; 4])
    ensures
        shown@ == seq![
            shown_color(rgba@[0], shown_alpha(rgba@[3])),
            shown_color(rgba@[1], shown_alpha(rgba@[3])),
            shown_color(rgba@[2], shown_alpha(rgba@[3])),
            shown_alpha(rgba@[3]),
        ],
{
    let alpha: u32 = sanitize_alpha(rgba[3]);
    let shown: [u32; 4] = [
        sanitize_resampled_color(rgba[0], alpha),
        sanitize_resampled_color(rgba[1], alpha),
        sanitize_resampled_color(rgba[2], alpha),
        alpha,
    ];
    assert(shown@ =~= seq![
        shown_color(rgba@[0], shown_alpha(rgba@[3])),
        shown_color(rgba@[1], shown_alpha(rgba@[3])),
        shown_color(rgba@[2], shown_alpha(rgba@[3])),
        shown_alpha(rgba@[3]),
    ]);
    shown
}

/// Whatever was resampled, what is shown stays within the finite half-precision
/// numbers, and its alpha between zero and one.
pub proof fn output_stays_finite(value: u32, alpha: u32)
    ensures
        -(MAX_FINITE_HALF as int) <= float_bits::order32(shown_color(value, alpha))
            <= MAX_FINITE_HALF,
        float_bits::finite32(shown_color(value, alpha)),
        0 <= float_bits::order32(shown_alpha(alpha)) <= F32_ONE,
        float_bits::finite32(shown_alpha(alpha)),
{
}

/// The capacity of one buffer and the size of its elements.
#[derive(Clone, Copy, Debug, PartialEq, Eq, Structural)]
pub struct BufferAllocation {
    pub capacity: usize,
    pub element_bytes: usize,
}

/// The bytes that the first `count` buffers allocate.
pub open spec fn allocated(buffers: Seq<BufferAllocation>, count: int) -> int
    decreases count,
{
    if count <= 0 {
        0
    } else {
        allocated(buffers, count - 1) + buffers[count - 1].capacity * buffers[count
            - 1].element_bytes
    }
}

/// The bytes that scratch buffers allocate, capped at what the machine counts.
pub fn allocated_bytes(buffers: &[BufferAllocation]) -> (bytes: usize)
    ensures
        bytes == numeric::smaller(
            allocated(buffers@, buffers@.len() as int),
            usize::MAX as int,
        ),
{
    let mut bytes: usize = 0;
    let mut index: usize = 0;
    while index < buffers.len()
        invariant
            index <= buffers@.len(),
            bytes == numeric::smaller(allocated(buffers@, index as int), usize::MAX as int),
            allocated(buffers@, index as int) >= 0,
        decreases buffers@.len() - index,
    {
        let buffer: BufferAllocation = buffers[index];
        proof {
            lemma_mul_nonnegative(buffer.capacity as int, buffer.element_bytes as int);
        }
        bytes = bytes.saturating_add(saturating_mul_usize(buffer.capacity, buffer.element_bytes));
        index = index + 1;
    }
    bytes
}

/// Every share of a source row takes the coefficient of that row.
proof fn lemma_shares_take_their_coefficients(bounds: Seq<AxisBound>, source_y: int)
    requires
        bounds.len() <= u32::MAX,
        forall|i: int|
            #![trigger bounds[i]]
            0 <= i < bounds.len() ==> bounds[i].weights_start + bounds[i].length <= usize::MAX,
    ensures
        forall|i: int|
            #![trigger contributions_at(bounds, source_y)[i]]
            0 <= i < contributions_at(bounds, source_y).len() ==> takes_its_coefficient(
                bounds,
                contributions_at(bounds, source_y)[i],
                source_y,
            ),
{
    let listed = targets_holding(bounds, source_y);
    let shares = contributions_at(bounds, source_y);
    lemma_targets_listed(
        bounds,
        bounds.len() as int,
        |bound: AxisBound| bound.holds(source_y),
    );
    assert forall|i: int| #![trigger shares[i]] 0 <= i < shares.len() implies takes_its_coefficient(
        bounds,
        shares[i],
        source_y,
    ) by {
        assert(shares[i].target_y == listed[i]);
        assert(bounds[listed[i] as int].holds(source_y));
    }
}

/// The rows of a window take its coefficients in their order, as the pixels of a
/// window do in a row: the first row takes the first coefficient, every further row
/// the next one, and the last row the last. So the vertical pass weighs the rows
/// that the horizontal pass hands on just as that one weighs pixels.
pub proof fn rows_take_coefficients_in_order(
    bounds: Seq<AxisBound>,
    target_y: u32,
    source_y: int,
)
    requires
        target_y < bounds.len(),
        bounds[target_y as int].length != 0,
        bounds[target_y as int].weights_start + bounds[target_y as int].length <= usize::MAX,
        bounds[target_y as int].start <= source_y,
        source_y < bounds[target_y as int].start + bounds[target_y as int].length,
    ensures
        ({
            let bound = bounds[target_y as int];
            let first = contribution_of(bounds, target_y, bound.start as int);
            let share = contribution_of(bounds, target_y, source_y);
            let last = contribution_of(bounds, target_y, bound.start + bound.length - 1);
            &&& share.target_y == target_y
            &&& first.weight_index == bound.weights_start
            &&& last.weight_index == bound.weights_start + bound.length - 1
            &&& share.weight_index - first.weight_index == source_y - bound.start
            &&& source_y + 1 < bound.start + bound.length ==> contribution_of(
                bounds,
                target_y,
                source_y + 1,
            ).weight_index == share.weight_index + 1
        }),
{
}

/// A source row reaches exactly the target rows whose windows hold it, in their
/// order, each with the coefficient of that row.
pub proof fn source_rows_reach_their_targets(bounds: Seq<AxisBound>, source_y: int, target_y: int)
    requires
        bounds.len() <= u32::MAX,
        forall|i: int|
            #![trigger bounds[i]]
            0 <= i < bounds.len() ==> bounds[i].weights_start + bounds[i].length <= usize::MAX,
        0 <= target_y < bounds.len(),
    ensures
        ({
            let shares = contributions_at(bounds, source_y);
            &&& (exists|i: int|
                #![trigger shares[i]]
                0 <= i < shares.len() && shares[i].target_y == target_y) <==> bounds[target_y].start
                <= source_y < bounds[target_y].start + bounds[target_y].length
            &&& forall|i: int|
                #![trigger shares[i]]
                0 <= i < shares.len() ==> {
                    let bound = bounds[shares[i].target_y as int];
                    &&& shares[i].target_y < bounds.len()
                    &&& bound.weights_start <= shares[i].weight_index
                    &&& shares[i].weight_index < bound.weights_start + bound.length
                    &&& shares[i].weight_index - bound.weights_start == source_y - bound.start
                }
            &&& forall|i: int, j: int|
                #![trigger shares[i], shares[j]]
                0 <= i < j < shares.len() ==> shares[i].target_y < shares[j].target_y
        }),
{
    let listed = targets_holding(bounds, source_y);
    let shares = contributions_at(bounds, source_y);
    let holds = |bound: AxisBound| bound.holds(source_y);
    lemma_targets_listed(bounds, bounds.len() as int, holds);
    lemma_shares_take_their_coefficients(bounds, source_y);
    if bounds[target_y].start <= source_y < bounds[target_y].start + bounds[target_y].length {
        assert(holds(bounds[target_y]));
        assert(listed.contains(target_y as u32));
        let i = choose|i: int| 0 <= i < listed.len() && listed[i] == target_y as u32;
        assert(shares[i].target_y == target_y);
    }
    assert forall|i: int, j: int|
        #![trigger shares[i], shares[j]]
        0 <= i < j < shares.len() implies shares[i].target_y < shares[j].target_y by {
        assert(shares[i].target_y == listed[i]);
        assert(shares[j].target_y == listed[j]);
    }
}

/// A table of coefficients has a place for every source pixel that the filter
/// reaches on both sides of a target and for the one under it, for each target,
/// and stays within its limit. It is refused only where that does not fit the
/// limit, or cannot be counted.
pub proof fn coefficient_tables_hold_every_window(target_size: u32, radius_pixels: usize)
    ensures
        match coefficient_plan(target_size, radius_pixels) {
            Ok(weights) => {
                &&& weights == target_size * (radius_pixels + 1 + radius_pixels)
                &&& weights * 4 <= MAX_COEFFICIENT_BYTES
            },
            Err(ResampleFailure::CoefficientTable { bytes }) => {
                &&& bytes == target_size * (radius_pixels + 1 + radius_pixels) * 4
                &&& bytes > MAX_COEFFICIENT_BYTES
            },
            Err(error) => {
                &&& target_size * (radius_pixels + 1 + radius_pixels) * 4 > usize::MAX || (
                radius_pixels + 1 + radius_pixels > usize::MAX)
                &&& error is CoefficientWindow || error is CoefficientCount || error
                    is CoefficientSize
            },
        },
        MAX_COEFFICIENT_BYTES == 64 * 1024 * 1024,
{
}

/// An axis is refused exactly where a size is zero, the center is no finite
/// number, or the scale is no finite number above zero.
pub proof fn refused_axes_cannot_be_resampled(
    source_size: u32,
    target_size: u32,
    view_center: u64,
    view_scale: u64,
)
    ensures
        !invalid_axis(source_size, target_size, view_center, view_scale) <==> {
            &&& source_size > 0
            &&& target_size > 0
            &&& view_center % 0x8000_0000_0000_0000 < float_bits::F64_INFINITY
            &&& 0 < view_scale < float_bits::F64_INFINITY
        },
{
}

/// A batch is as large as it may be: no more rows than there are, no more than two
/// for each thread, no more than the byte limit holds; and one more row would break
/// one of these. There is always at least one row, if there are any.
pub proof fn row_batches_are_as_large_as_allowed(
    source_row_pixels: int,
    target_row_pixels: int,
    source_row_count: int,
    threads: int,
)
    requires
        0 <= source_row_pixels,
        0 <= target_row_pixels,
        0 < source_row_pixels + target_row_pixels,
        (source_row_pixels + target_row_pixels) * 16 <= usize::MAX,
        1 <= source_row_count,
        1 <= threads,
        threads * 2 <= usize::MAX,
    ensures
        ({
            let capacity = batch_capacity(
                source_row_pixels,
                target_row_pixels,
                source_row_count,
                threads,
            );
            &&& 1 <= capacity <= source_row_count
            &&& capacity <= 2 * threads
            &&& capacity == source_row_count || capacity == 2 * threads || (source_row_pixels
                + target_row_pixels) * 16 * (capacity + 1) > 32 * 1024 * 1024
        }),
{
    let row_bytes = (source_row_pixels + target_row_pixels) * 16;
    let limit = MAX_RESAMPLING_ROW_BATCH_BYTES as int;
    let rows = limit / row_bytes;
    assert(rows * row_bytes <= limit < (rows + 1) * row_bytes && rows >= 0) by (nonlinear_arith)
        requires
            rows == limit / row_bytes,
            row_bytes >= 1,
            limit >= 0,
    ;
    let capacity = numeric::larger(rows, 1);
    assert(row_bytes * (capacity + 1) >= (rows + 1) * row_bytes) by (nonlinear_arith)
        requires
            capacity >= rows,
            row_bytes >= 1,
    ;
}

/// A color that can be shown is shown as it is, and one that cannot is shown as
/// the nearest that can: where a pixel is opaque to some degree, a color of at most
/// the largest finite half-precision number stays, and a larger one becomes that
/// number, of the same sign. A transparent pixel, or a color that is no finite
/// number, is shown black.
pub proof fn colors_are_shown_as_they_are(value: u32, alpha: u32)
    ensures
        ({
            let shown = shown_color(value, alpha);
            let size = value as int % 0x8000_0000;
            let transparent = alpha == 0 || alpha == 0x8000_0000;
            &&& transparent ==> shown == 0
            &&& size >= float_bits::F32_INFINITY ==> shown == 0
            &&& !transparent && size <= MAX_FINITE_HALF ==> shown == value
            &&& !transparent && MAX_FINITE_HALF < size < float_bits::F32_INFINITY ==> {
                &&& shown as int % 0x8000_0000 == MAX_FINITE_HALF
                &&& (shown >= 0x8000_0000) == (value >= 0x8000_0000)
            }
        }),
        output_half_limit(),
{
}

/// The largest finite half-precision number is 65504: eleven bits of ones below
/// 2^16.
pub open spec fn output_half_limit() -> bool {
    let exponent = MAX_FINITE_HALF as int / 0x80_0000;
    let significand = 0x80_0000 + MAX_FINITE_HALF as int % 0x80_0000;
    &&& exponent == 127 + 15
    &&& significand == 65504 * 0x100
}

/// An alpha between zero and one is shown as it is. A larger finite one is opaque,
/// and a negative one, or one that is no finite number, transparent.
pub proof fn alphas_are_shown_as_they_are(alpha: u32)
    ensures
        alpha <= F32_ONE ==> shown_alpha(alpha) == alpha,
        F32_ONE < alpha < float_bits::F32_INFINITY ==> shown_alpha(alpha) == F32_ONE,
        float_bits::F32_INFINITY <= alpha < 0x8000_0000 ==> shown_alpha(alpha) == 0,
        alpha > 0x8000_0000 ==> shown_alpha(alpha) == 0,
        float_bits::order32(shown_alpha(0x8000_0000)) == 0,
{
}

/// Buffers are accounted for one by one: a further buffer adds its own bytes, and
/// without buffers there are none.
pub proof fn buffers_add_their_bytes(buffers: Seq<BufferAllocation>, further: BufferAllocation)
    ensures
        allocated(buffers.push(further), buffers.len() as int + 1) == allocated(
            buffers,
            buffers.len() as int,
        ) + further.capacity * further.element_bytes,
        allocated(Seq::<BufferAllocation>::empty(), 0) == 0,
{
    lemma_allocated_prefix(buffers, further, buffers.len() as int);
}

proof fn lemma_allocated_prefix(
    buffers: Seq<BufferAllocation>,
    further: BufferAllocation,
    count: int,
)
    requires
        count <= buffers.len(),
    ensures
        allocated(buffers.push(further), count) == allocated(buffers, count),
    decreases count,
{
    if count > 0 {
        lemma_allocated_prefix(buffers, further, count - 1);
    }
}

/// A plan reads every source pixel that a window needs and no row or column
/// outside of them, writes a row of eight bytes a pixel for every target row, and
/// has buffers for whole batches of rows.
pub proof fn plans_read_what_the_windows_need(
    horizontal: Seq<AxisBound>,
    vertical: Seq<AxisBound>,
    target: ViewportTarget,
    capacity: int,
    plan: ResamplePlan,
)
    requires
        bounded(horizontal),
        bounded(vertical),
        0 <= capacity,
        planned_rows(horizontal, vertical, target, capacity) == Ok::<
            ResamplePlan,
            ResampleFailure,
        >(plan),
        capacity <= usize::MAX,
    ensures
        plan.target_row_pixels == target.width,
        plan.output_bytes == target.width * target.height * 8,
        plan.batch_capacity == capacity,
        plan.source_batch_pixels == plan.source_row_pixels * capacity,
        plan.horizontal_batch_pixels == target.width * capacity,
        forall|i: int|
            #![trigger horizontal[i]]
            0 <= i < horizontal.len() && horizontal[i].length != 0 ==> plan.source_x_start
                <= horizontal[i].start && horizontal[i].start + horizontal[i].length
                <= plan.source_x_start + plan.source_row_pixels,
        forall|i: int|
            #![trigger vertical[i]]
            0 <= i < vertical.len() && vertical[i].length != 0 ==> plan.first_source_y
                <= vertical[i].start && vertical[i].start + vertical[i].length
                <= plan.end_source_y,
        plan.source_row_pixels > 0 ==> exists|i: int|
            #![trigger horizontal[i]]
            0 <= i < horizontal.len() && horizontal[i].length != 0 && horizontal[i].start
                == plan.source_x_start,
        plan.source_row_pixels > 0 ==> exists|i: int|
            #![trigger horizontal[i]]
            0 <= i < horizontal.len() && horizontal[i].length != 0 && horizontal[i].start
                + horizontal[i].length == plan.source_x_start + plan.source_row_pixels,
        plan.first_source_y < plan.end_source_y ==> exists|i: int|
            #![trigger vertical[i]]
            0 <= i < vertical.len() && vertical[i].length != 0 && vertical[i].start
                == plan.first_source_y,
        plan.first_source_y < plan.end_source_y ==> exists|i: int|
            #![trigger vertical[i]]
            0 <= i < vertical.len() && vertical[i].length != 0 && vertical[i].start
                + vertical[i].length == plan.end_source_y,
{
    lemma_whole_range(horizontal, horizontal.len() as int);
    lemma_whole_range(vertical, vertical.len() as int);
    assert(horizontal.take(horizontal.len() as int) =~= horizontal);
    assert(vertical.take(vertical.len() as int) =~= vertical);
}

/// The source range of the first windows begins with the first of their starts and
/// ends with the last of their ends.
proof fn lemma_whole_range(bounds: Seq<AxisBound>, count: int)
    requires
        bounded(bounds),
        0 <= count <= bounds.len(),
    ensures
        is_source_range(bounds.take(count), source_range(bounds, count)),
    decreases count,
{
    if count > 0 {
        lemma_whole_range(bounds, count - 1);
        let shorter = bounds.take(count - 1);
        let longer = bounds.take(count);
        assert(longer =~= shorter.push(bounds[count - 1]));
        assert(longer[count - 1] == bounds[count - 1]);
        assert forall|i: int| #![trigger longer[i]] 0 <= i < shorter.len() implies longer[i]
            == shorter[i] by {}
        match source_range(bounds, count - 1) {
            None => {
                assert forall|i: int|
                    #![trigger longer[i]]
                    0 <= i < shorter.len() implies longer[i].length == 0 by {
                    assert(longer[i] == shorter[i]);
                }
            },
            Some((start, end)) => {
                let first = choose|i: int|
                    #![trigger shorter[i]]
                    0 <= i < shorter.len() && shorter[i].length != 0 && shorter[i].start == start;
                let last = choose|i: int|
                    #![trigger shorter[i]]
                    0 <= i < shorter.len() && shorter[i].length != 0 && shorter[i].end() == end;
                assert(longer[first] == shorter[first]);
                assert(longer[last] == shorter[last]);
                assert forall|i: int|
                    #![trigger longer[i]]
                    0 <= i < shorter.len() && longer[i].length != 0 implies start
                    <= longer[i].start && longer[i].end() <= end by {
                    assert(longer[i] == shorter[i]);
                }
            },
        }
    }
}

/// A table of coefficients that is too large is told with its size and the limit, in
/// this order.
pub proof fn large_tables_tell_size_and_limit(bytes: usize)
    ensures
        text::mentions(
            resample_failure_text(ResampleFailure::CoefficientTable { bytes }),
            "needs "@ + text::decimal(bytes as nat) + " bytes; limit is "@ + text::decimal(
                67108864,
            ),
        ),
{
    reveal_strlit("Lanczos2 coefficient table needs ");
    reveal_strlit("Lanczos2 coefficient table ");
    reveal_strlit("needs ");
    let none = Seq::<char>::empty();
    let start = "Lanczos2 coefficient table "@;
    let size = text::decimal(bytes as nat);
    let limit = text::decimal(67108864);
    let first = "needs "@ + size + " bytes; limit is "@;
    assert("Lanczos2 coefficient table needs "@ =~= start + "needs "@);
    text::lemma_grouped(start, "needs "@, size, " bytes; limit is "@);
    text::lemma_grouped(start, first, limit, none);
    text::lemma_appended(start, first + limit);
}

} // verus!
