use bokeh::mask::{composite, write_back};
use bokeh::BlurError;

#[test]
fn composite_writes_only_selected_pixels() {
    let mut original: Vec<u32> = vec![10, 20, 30, 40];
    let convolved: Vec<u32> = vec![1, 2, 3, 4];
    let mask: Vec<bool> = vec![true, false, false, true];
    composite(&mut original, &convolved, &mask).unwrap();
    assert_eq!(original, vec![1, 20, 30, 4]);
}

#[test]
fn all_true_mask_is_the_unmasked_write() {
    let mut masked: Vec<u32> = vec![10, 20, 30, 40];
    let mut unmasked: Vec<u32> = vec![10, 20, 30, 40];
    let convolved: Vec<u32> = vec![1, 2, 3, 4];
    composite(&mut masked, &convolved, &vec![true; 4]).unwrap();
    write_back(&mut unmasked, &convolved).unwrap();
    assert_eq!(masked, unmasked);
    assert_eq!(masked, convolved);
}

#[test]
fn all_false_mask_changes_nothing() {
    let mut original: Vec<u32> = vec![10, 20, 30, 40];
    let convolved: Vec<u32> = vec![1, 2, 3, 4];
    composite(&mut original, &convolved, &vec![false; 4]).unwrap();
    assert_eq!(original, vec![10, 20, 30, 40]);
}

#[test]
fn short_mask_is_a_dimension_error() {
    let mut original: Vec<u32> = vec![10, 20, 30, 40];
    let convolved: Vec<u32> = vec![1, 2, 3, 4];
    let mask: Vec<bool> = vec![true, true, true];
    let r = composite(&mut original, &convolved, &mask);
    assert_eq!(r.unwrap_err(), BlurError::Dimension);
    assert_eq!(original, vec![10, 20, 30, 40]);
}

#[test]
fn short_convolved_buffer_is_a_dimension_error() {
    let mut original: Vec<u32> = vec![10, 20, 30, 40];
    let convolved: Vec<u32> = vec![1, 2, 3];
    let r = write_back(&mut original, &convolved);
    assert_eq!(r.unwrap_err(), BlurError::Dimension);
    assert_eq!(original, vec![10, 20, 30, 40]);
}

#[test]
fn composite_works_on_four_channel_float_pixels() {
    let mut original: Vec<[f64; 4]> = vec![[0.0; 4], [255.0; 4]];
    let convolved: Vec<[f64; 4]> = vec![[1.5, 2.5, 3.5, 4.5], [9.0; 4]];
    let mask: Vec<bool> = vec![true, false];
    composite(&mut original, &convolved, &mask).unwrap();
    assert_eq!(original, vec![[1.5, 2.5, 3.5, 4.5], [255.0; 4]]);
}
