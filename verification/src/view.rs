//! How the user's view of the image changes: its mode, and what each gesture
//! does to its scale and center. Numbers are double-precision bits.
use vstd::prelude::*;

use crate::float_bits;
use crate::float_bits::{F64_INFINITY, clamp64, is_finite64, is_less64};

verus! {

/// The bits of the smallest scale that is set directly, 1/64.
pub const MIN_SCALE: u64 = 0x3f90_0000_0000_0000;

/// The bits of the largest scale that is set directly, 64.
pub const MAX_SCALE: u64 = 0x4050_0000_0000_0000;

/// What determines the scale of a view.
#[derive(Clone, Copy, Debug, PartialEq, Eq, Structural)]
pub enum ViewMode {
    Fit,
    OneToOne,
    Manual,
}

/// What a gesture does to the scale and the center of a view.
#[derive(Clone, Copy, Debug, PartialEq, Eq, Structural)]
pub enum ViewChange {
    /// Nothing changes.
    Ignored,
    /// The whole image is fitted and centered.
    Refit,
    /// The center is moved as far as the image must stay visible.
    ClampCenter,
    /// The scale is set, and the center clamped.
    SetScale(u64),
    /// The scale is set, a point of the image stays where it is, and the center is
    /// clamped.
    Zoom(u64),
    /// The center is moved, and clamped.
    Pan,
}

/// The scale of a 1:1 view on a display.
pub open spec fn one_to_one_scale(scale_factor: u64) -> u64 {
    float_bits::clamped64(scale_factor, MIN_SCALE, MAX_SCALE)
}

/// The larger of two double-precision numbers; not-a-number is left out.
pub open spec fn larger_scale(a: u64, b: u64) -> u64 {
    if float_bits::nan64(a) || float_bits::less64(a, b) {
        b
    } else {
        a
    }
}

/// The largest scale that a zoom reaches. An image that fits its window at more
/// than the usual limit may be zoomed in further, and no scale is taken back.
pub open spec fn maximum_scale(fit_limit: u64, previous: u64) -> u64 {
    larger_scale(larger_scale(MAX_SCALE, fit_limit), previous)
}

/// The scale after a zoom. `product` is the previous scale times the factor, and
/// `fit_limit` what the scale of the fitted image allows.
pub open spec fn zoomed(product: u64, fit_limit: u64, previous: u64) -> u64 {
    float_bits::clamped64(product, MIN_SCALE, maximum_scale(fit_limit, previous))
}

/// The larger of two double-precision numbers.
fn max_scale(a: u64, b: u64) -> (larger: u64)
    ensures
        larger == larger_scale(a, b),
{
    if a % 0x8000_0000_0000_0000 > F64_INFINITY || is_less64(a, b) {
        b
    } else {
        a
    }
}

/// The scale after a zoom.
pub fn zoomed_scale(product: u64, fit_limit: u64, previous: u64) -> (scale: u64)
    ensures
        scale == zoomed(product, fit_limit, previous),
{
    clamp64(product, MIN_SCALE, max_scale(max_scale(MAX_SCALE, fit_limit), previous))
}

impl ViewMode {
    /// The window has another size: a fitted image is fitted again.
    pub fn set_viewport(self) -> (change: ViewChange)
        ensures
            change == (if self == ViewMode::Fit {
                ViewChange::Refit
            } else {
                ViewChange::ClampCenter
            }),
    {
        match self {
            ViewMode::Fit => ViewChange::Refit,
            _ => ViewChange::ClampCenter,
        }
    }

    /// The image is fitted.
    pub fn set_fit(&mut self) -> (change: ViewChange)
        ensures
            *final(self) == ViewMode::Fit,
            change == ViewChange::Refit,
    {
        *self = ViewMode::Fit;
        ViewChange::Refit
    }

    /// One image pixel takes one logical pixel.
    pub fn set_one_to_one(&mut self, scale_factor: u64) -> (change: ViewChange)
        ensures
            *final(self) == ViewMode::OneToOne,
            change == ViewChange::SetScale(one_to_one_scale(scale_factor)),
    {
        *self = ViewMode::OneToOne;
        ViewChange::SetScale(clamp64(scale_factor, MIN_SCALE, MAX_SCALE))
    }

    /// The display has another scale factor, which only a 1:1 view follows.
    pub fn set_scale_factor(self, scale_factor: u64) -> (change: ViewChange)
        ensures
            change == (if self == ViewMode::OneToOne {
                ViewChange::SetScale(one_to_one_scale(scale_factor))
            } else {
                ViewChange::Ignored
            }),
    {
        match self {
            ViewMode::OneToOne => ViewChange::SetScale(clamp64(scale_factor, MIN_SCALE, MAX_SCALE)),
            _ => ViewChange::Ignored,
        }
    }

    /// The view is zoomed, unless the factor is not finite or not positive.
    /// `product` is the previous scale times the factor.
    pub fn zoom_at(&mut self, factor: u64, product: u64, fit_limit: u64, previous: u64) -> (change:
        ViewChange)
        ensures
            if float_bits::finite64(factor) && float_bits::less64(0, factor) {
                &&& *final(self) == ViewMode::Manual
                &&& change == ViewChange::Zoom(zoomed(product, fit_limit, previous))
            } else {
                *final(self) == *old(self) && change == ViewChange::Ignored
            },
    {
        if !is_finite64(factor) || !is_less64(0, factor) {
            return ViewChange::Ignored;
        }
        *self = ViewMode::Manual;
        ViewChange::Zoom(zoomed_scale(product, fit_limit, previous))
    }

    /// The view is panned, unless a distance is not finite.
    pub fn pan_by(&mut self, delta_x: u64, delta_y: u64) -> (change: ViewChange)
        ensures
            if float_bits::finite64(delta_x) && float_bits::finite64(delta_y) {
                *final(self) == ViewMode::Manual && change == ViewChange::Pan
            } else {
                *final(self) == *old(self) && change == ViewChange::Ignored
            },
    {
        if !is_finite64(delta_x) || !is_finite64(delta_y) {
            return ViewChange::Ignored;
        }
        *self = ViewMode::Manual;
        ViewChange::Pan
    }
}

/// A 1:1 scale stays within its limits on every display whose scale factor is a
/// number.
pub proof fn one_to_one_scale_stays_within_its_limits(scale_factor: u64)
    requires
        !float_bits::nan64(scale_factor),
    ensures
        float_bits::order64(MIN_SCALE) <= float_bits::order64(one_to_one_scale(scale_factor))
            <= float_bits::order64(MAX_SCALE),
{
}

/// Zooming in never shrinks the image, however large the previous scale is: a
/// product that is not below the previous scale gives a scale that is not below
/// it either.
pub proof fn zooming_in_never_shrinks(product: u64, fit_limit: u64, previous: u64)
    requires
        !float_bits::nan64(product),
        !float_bits::nan64(previous),
        float_bits::order64(previous) <= float_bits::order64(product),
    ensures
        float_bits::order64(previous) <= float_bits::order64(zoomed(product, fit_limit, previous)),
{
}

/// A zoomed scale stays within its limits: the smallest scale, and the largest
/// of the usual limit, what the fitted image allows, and the previous scale.
pub proof fn zoomed_scales_stay_within_their_limits(product: u64, fit_limit: u64, previous: u64)
    requires
        !float_bits::nan64(product),
        !float_bits::nan64(fit_limit),
        !float_bits::nan64(previous),
    ensures
        float_bits::order64(MIN_SCALE) <= float_bits::order64(zoomed(product, fit_limit, previous)),
        ({
            let scale = float_bits::order64(zoomed(product, fit_limit, previous));
            ||| scale <= float_bits::order64(MAX_SCALE)
            ||| scale <= float_bits::order64(fit_limit)
            ||| scale <= float_bits::order64(previous)
        }),
{
}

/// A zoom gives exactly the scale that it asks for, as long as that is not below
/// the smallest scale and not above every one of the usual limit, what the fitted
/// image allows, and the previous scale.
pub proof fn zooms_within_the_limits_are_exact(product: u64, fit_limit: u64, previous: u64)
    requires
        !float_bits::nan64(product),
        float_bits::order64(MIN_SCALE) <= float_bits::order64(product),
        float_bits::order64(product) <= float_bits::order64(MAX_SCALE) || (!float_bits::nan64(
            fit_limit,
        ) && float_bits::order64(product) <= float_bits::order64(fit_limit)) || (
        !float_bits::nan64(previous) && float_bits::order64(product) <= float_bits::order64(
            previous,
        )),
    ensures
        zoomed(product, fit_limit, previous) == product,
{
}

/// A zoom that asks for less than the smallest scale gives that one, and a zoom
/// that asks for more than every limit gives the largest limit.
pub proof fn zooms_beyond_the_limits_stop_there(product: u64, fit_limit: u64, previous: u64)
    requires
        !float_bits::nan64(product),
        !float_bits::nan64(fit_limit),
        !float_bits::nan64(previous),
    ensures
        float_bits::order64(product) < float_bits::order64(MIN_SCALE) ==> zoomed(
            product,
            fit_limit,
            previous,
        ) == MIN_SCALE,
        float_bits::order64(MAX_SCALE) < float_bits::order64(product) && float_bits::order64(
            fit_limit,
        ) < float_bits::order64(product) && float_bits::order64(previous) < float_bits::order64(
            product,
        ) ==> {
            let scale = zoomed(product, fit_limit, previous);
            &&& scale == MAX_SCALE || scale == fit_limit || scale == previous
            &&& float_bits::order64(MAX_SCALE) <= float_bits::order64(scale)
            &&& float_bits::order64(fit_limit) <= float_bits::order64(scale)
            &&& float_bits::order64(previous) <= float_bits::order64(scale)
        },
{
}

/// A stronger zoom never gives a smaller scale, and zooming out never enlarges an
/// image that is shown at the smallest scale or above.
pub proof fn zooms_follow_their_factor(
    smaller: u64,
    larger: u64,
    fit_limit: u64,
    previous: u64,
)
    requires
        !float_bits::nan64(smaller),
        !float_bits::nan64(larger),
        !float_bits::nan64(previous),
        float_bits::order64(smaller) <= float_bits::order64(larger),
    ensures
        float_bits::order64(zoomed(smaller, fit_limit, previous)) <= float_bits::order64(
            zoomed(larger, fit_limit, previous),
        ),
        float_bits::order64(smaller) <= float_bits::order64(previous) && float_bits::order64(
            MIN_SCALE,
        ) <= float_bits::order64(previous) ==> float_bits::order64(
            zoomed(smaller, fit_limit, previous),
        ) <= float_bits::order64(previous),
{
}

/// A 1:1 view takes the scale factor of the display itself where that lies
/// between the smallest and the largest scale, and the nearer of the two where it
/// does not.
pub proof fn one_to_one_follows_the_display(scale_factor: u64)
    requires
        !float_bits::nan64(scale_factor),
    ensures
        ({
            let factor = float_bits::order64(scale_factor);
            let low = float_bits::order64(MIN_SCALE);
            let high = float_bits::order64(MAX_SCALE);
            &&& low <= factor <= high ==> one_to_one_scale(scale_factor) == scale_factor
            &&& factor < low ==> one_to_one_scale(scale_factor) == MIN_SCALE
            &&& high < factor ==> one_to_one_scale(scale_factor) == MAX_SCALE
        }),
{
}

/// The limits are a 64th and 64: powers of two as far below one as above.
pub proof fn scale_limits_mirror_each_other()
    ensures
        MIN_SCALE as int % 0x10_0000_0000_0000 == 0,
        MAX_SCALE as int % 0x10_0000_0000_0000 == 0,
        MAX_SCALE as int / 0x10_0000_0000_0000 == 1023 + 6,
        MIN_SCALE as int / 0x10_0000_0000_0000 == 1023 - 6,
        float_bits::F64_ONE as int / 0x10_0000_0000_0000 == 1023,
{
}

} // verus!
