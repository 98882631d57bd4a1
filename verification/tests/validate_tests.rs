use bokeh::pipeline::plan_blur;
use bokeh::validate::{check_energy, validate_blur_call};
use bokeh::{BlurError, Image};

#[test]
fn consistent_call_is_accepted() {
    assert_eq!(validate_blur_call(9, 3, 3, 1, None, 9, true), Ok(()));
    assert_eq!(validate_blur_call(9, 3, 3, 1, Some(9), 9, true), Ok(()));
}

#[test]
fn empty_table_is_a_configuration_error() {
    assert_eq!(
        validate_blur_call(9, 3, 3, 1, None, 0, true),
        Err(BlurError::Configuration)
    );
}

#[test]
fn wrong_buffer_length_is_a_dimension_error() {
    assert_eq!(
        validate_blur_call(8, 3, 3, 1, None, 9, true),
        Err(BlurError::Dimension)
    );
}

#[test]
fn kernel_wider_than_the_image_is_a_dimension_error() {
    // s = 2 needs 5 taps; a 3x3 image cannot hold them.
    assert_eq!(
        validate_blur_call(9, 3, 3, 2, None, 9, true),
        Err(BlurError::Dimension)
    );
    // s = 0 is the degenerate kernel and is rejected outright.
    assert_eq!(
        validate_blur_call(9, 3, 3, 0, None, 9, true),
        Err(BlurError::Dimension)
    );
}

#[test]
fn wrong_mask_length_is_a_dimension_error() {
    assert_eq!(
        validate_blur_call(9, 3, 3, 1, Some(8), 9, true),
        Err(BlurError::Dimension)
    );
}

#[test]
fn degenerate_gamma_is_reported_last() {
    assert_eq!(
        validate_blur_call(9, 3, 3, 1, None, 9, false),
        Err(BlurError::NumericDegeneracy)
    );
    // A dimension problem outranks the gamma problem.
    assert_eq!(
        validate_blur_call(8, 3, 3, 1, None, 9, false),
        Err(BlurError::Dimension)
    );
}

#[test]
fn energy_must_be_finite_and_positive() {
    assert_eq!(check_energy(true, true), Ok(()));
    assert_eq!(check_energy(false, true), Err(BlurError::Configuration));
    assert_eq!(check_energy(true, false), Err(BlurError::Configuration));
}

#[test]
fn plan_blur_rejects_like_validate() {
    assert_eq!(
        plan_blur(9, 3, 3, 1, None, 0, true).map(|_| ()).unwrap_err(),
        BlurError::Configuration
    );
    assert_eq!(
        plan_blur(9, 3, 3, 2, None, 9, true).map(|_| ()).unwrap_err(),
        BlurError::Dimension
    );
    assert_eq!(
        plan_blur(9, 3, 3, 1, None, 9, false).map(|_| ()).unwrap_err(),
        BlurError::NumericDegeneracy
    );
}

#[test]
fn plan_blur_lays_out_both_passes() {
    let plan = plan_blur(9, 3, 3, 1, Some(9), 9, true).unwrap();
    assert_eq!(plan.horizontal.len(), 9);
    assert_eq!(plan.vertical.len(), 9);
    // The center pixel is interior in both passes: three taps each.
    assert_eq!(plan.horizontal[4].len(), 3);
    assert_eq!(plan.vertical[4].len(), 3);
    // The corners are border pixels in both passes: two taps each.
    assert_eq!(plan.horizontal[0].len(), 2);
    assert_eq!(plan.vertical[0].len(), 2);
}

#[test]
fn image_checks_its_buffer_length() {
    let img = Image::new(vec![[0.0f64; 4]; 9], 3, 3).unwrap();
    assert_eq!(img.width(), 3);
    assert_eq!(img.height(), 3);
    assert_eq!(img.pixel_count(), 9);

    let r = Image::new(vec![[0.0f64; 4]; 8], 3, 3);
    assert_eq!(r.map(|_| ()).unwrap_err(), BlurError::Dimension);
}

#[test]
fn image_addresses_row_major() {
    let pixels: Vec<u8> = (0..12).collect();
    let mut img = Image::new(pixels, 4, 3).unwrap();
    assert_eq!(img.pixel(0, 0), 0);
    assert_eq!(img.pixel(3, 0), 3);
    assert_eq!(img.pixel(0, 1), 4);
    assert_eq!(img.pixel(2, 2), 10);
    img.set_pixel(2, 2, 99);
    assert_eq!(img.pixel(2, 2), 99);
    assert_eq!(img.pixel(1, 2), 9);
    assert_eq!(img.into_pixels(), vec![0, 1, 2, 3, 4, 5, 6, 7, 8, 9, 99, 11]);
}
