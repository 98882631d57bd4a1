//! The verified front door of a blur call.
//!
//! A blur call is validated, and — when acceptable — its complete tap
//! geometry is laid out: one list of (kernel tap, source pixel) terms per
//! output pixel, for the horizontal pass and for the vertical pass. The
//! caller that owns the floating-point arithmetic executes the plan term
//! by term, per component, and owes no index arithmetic and no boundary
//! decisions of its own: both are settled, and proved, here.

use vstd::prelude::*;

use crate::convolve::{h_pixel_taps_ok, horizontal_plan, v_pixel_taps_ok, vertical_plan, Tap};
use crate::error::BlurError;
use crate::validate::{dimensions_ok, validate_blur_call};

verus! {

/// The tap geometry of one separable blur pass over a fixed image shape.
pub struct BlurPlan {
    /// Per output pixel in row-major order, the terms of its horizontal
    /// convolution sum.
    pub horizontal: Vec<Vec<Tap>>,
    /// Per output pixel in row-major order, the terms of its vertical
    /// convolution sum.
    pub vertical: Vec<Vec<Tap>>,
}

/// Validates a blur call and, when it is acceptable, lays out the exact tap
/// geometry both passes will follow. Rejected calls get the error of the
/// taxonomy: an empty parameter table is a configuration error; an
/// inconsistent buffer, kernel support, or mask is a dimension error; a
/// gamma exponent that is not finite and positive is a numeric degeneracy.
pub fn plan_blur(
    pixel_count: usize,
    width: usize,
    height: usize,
    sample_count: usize,
    mask_len: Option<usize>,
    component_count: usize,
    gamma_positive: bool,
) -> (r: Result<BlurPlan, BlurError>)
    ensures
        r is Ok <==> (1 <= component_count && dimensions_ok(
            pixel_count as int,
            width as int,
            height as int,
            sample_count as int,
            mask_len,
        ) && gamma_positive),
        r == Err::<BlurPlan, BlurError>(BlurError::Configuration) <==> component_count == 0,
        r == Err::<BlurPlan, BlurError>(BlurError::Dimension) <==> (1 <= component_count
            && !dimensions_ok(
            pixel_count as int,
            width as int,
            height as int,
            sample_count as int,
            mask_len,
        )),
        r == Err::<BlurPlan, BlurError>(BlurError::NumericDegeneracy) <==> (1 <= component_count
            && dimensions_ok(
            pixel_count as int,
            width as int,
            height as int,
            sample_count as int,
            mask_len,
        ) && !gamma_positive),
        r matches Ok(plan) ==> {
            &&& plan.horizontal@.len() == width * height
            &&& plan.vertical@.len() == width * height
            &&& forall|p: int|
                0 <= p < plan.horizontal@.len() ==> #[trigger] h_pixel_taps_ok(
                    plan.horizontal@[p]@,
                    p,
                    width as int,
                    sample_count as int,
                )
            &&& forall|p: int|
                0 <= p < plan.vertical@.len() ==> #[trigger] v_pixel_taps_ok(
                    plan.vertical@[p]@,
                    p,
                    width as int,
                    height as int,
                    sample_count as int,
                )
        },
{
    match validate_blur_call(
        pixel_count,
        width,
        height,
        sample_count,
        mask_len,
        component_count,
        gamma_positive,
    ) {
        Err(e) => Err(e),
        Ok(()) => {
            let horizontal = horizontal_plan(width, height, sample_count);
            let vertical = vertical_plan(width, height, sample_count);
            Ok(BlurPlan { horizontal, vertical })
        },
    }
}

} // verus!
