//! Validation of a blur call, and the error each rejected call gets.
//!
//! A blur call is a pure computation, so every failure is a precondition
//! violation, surfaced before any pixel is processed:
//!
//! - the parameter table must hold at least one component, and the family
//!   energy computed from it must be finite and positive, else the table is
//!   malformed — a configuration error;
//! - the pixel buffer must match the stated width and height, the kernel
//!   support must fit inside the image, and a supplied mask must match the
//!   pixel count — else a dimension error;
//! - the gamma exponent must be finite and positive, since encoding with
//!   any other exponent does not yield finite channel values — a numeric
//!   degeneracy.
//!
//! Whether a floating-point scalar is finite and positive is a fact the
//! caller establishes; the decisions taken on those facts are made — and
//! specified — here.

use vstd::prelude::*;

use crate::convolve::kernel_len;
use crate::error::BlurError;

verus! {

/// Whether the shape of a blur call is consistent: the buffer holds
/// `width * height` pixels, the discretization count is at least one, the
/// kernel's `2*s + 1` taps fit inside both image dimensions, and a supplied
/// mask covers exactly the pixels.
pub open spec fn dimensions_ok(
    pixel_count: int,
    width: int,
    height: int,
    sample_count: int,
    mask_len: Option<usize>,
) -> bool {
    &&& pixel_count == width * height
    &&& 1 <= sample_count
    &&& kernel_len(sample_count) <= width
    &&& kernel_len(sample_count) <= height
    &&& match mask_len {
        Some(l) => l == pixel_count,
        None => true,
    }
}

/// Accepts or rejects a blur call from its plain shape, giving the exact
/// error of the taxonomy: an empty parameter table is a configuration
/// error; an inconsistent buffer, kernel support, or mask is a dimension
/// error; a gamma exponent that is not finite and positive is a numeric
/// degeneracy — in that order of precedence.
pub fn validate_blur_call(
    pixel_count: usize,
    width: usize,
    height: usize,
    sample_count: usize,
    mask_len: Option<usize>,
    component_count: usize,
    gamma_positive: bool,
) -> (r: Result<(), BlurError>)
    ensures
        r is Ok <==> (1 <= component_count && dimensions_ok(
            pixel_count as int,
            width as int,
            height as int,
            sample_count as int,
            mask_len,
        ) && gamma_positive),
        r == Err::<(), BlurError>(BlurError::Configuration) <==> component_count == 0,
        r == Err::<(), BlurError>(BlurError::Dimension) <==> (1 <= component_count
            && !dimensions_ok(
            pixel_count as int,
            width as int,
            height as int,
            sample_count as int,
            mask_len,
        )),
        r == Err::<(), BlurError>(BlurError::NumericDegeneracy) <==> (1 <= component_count
            && dimensions_ok(
            pixel_count as int,
            width as int,
            height as int,
            sample_count as int,
            mask_len,
        ) && !gamma_positive),
{
    if component_count == 0 {
        return Err(BlurError::Configuration);
    }
    if sample_count < 1 {
        return Err(BlurError::Dimension);
    }
    if sample_count > (usize::MAX - 1) / 2 {
        // The kernel would have more taps than any image has columns.
        return Err(BlurError::Dimension);
    }
    let taps = 2 * sample_count + 1;
    if taps > width || taps > height {
        return Err(BlurError::Dimension);
    }
    match width.checked_mul(height) {
        None => Err(BlurError::Dimension),
        Some(n) => {
            if n != pixel_count {
                return Err(BlurError::Dimension);
            }
            match mask_len {
                Some(l) => {
                    if l != pixel_count {
                        return Err(BlurError::Dimension);
                    }
                },
                None => {},
            }
            if !gamma_positive {
                return Err(BlurError::NumericDegeneracy);
            }
            Ok(())
        },
    }
}

/// Accepts or rejects the normalized kernel family from the two facts the
/// caller establishes about its energy: brightness preservation rests on
/// dividing by the square root of the energy, which is meaningful only for
/// a finite, positive energy. Anything else marks a malformed parameter
/// table — a configuration error.
pub fn check_energy(energy_is_finite: bool, energy_is_positive: bool) -> (r: Result<
    (),
    BlurError,
>)
    ensures
        r is Ok <==> (energy_is_finite && energy_is_positive),
        r is Err ==> r == Err::<(), BlurError>(BlurError::Configuration),
{
    if energy_is_finite && energy_is_positive {
        Ok(())
    } else {
        Err(BlurError::Configuration)
    }
}

} // verus!
