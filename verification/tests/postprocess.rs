use styledcamera_core::postprocess::{
    detect_plane_layout, extract_mask_values, looks_like_logits, postprocess_mask_u8,
    sigmoid_in_place, to_u8_mask, update_temporal_smoothed, PlaneLayout,
};

// The arithmetic on single values, as the caller hands it in.

fn is_logit(v: f32) -> bool {
    v < -0.01 || v > 1.01
}

fn sigmoid(x: f32) -> f32 {
    1.0 / (1.0 + (-x).exp())
}

fn blend(temporal_smoothing: f32) -> impl Fn(f32, f32) -> f32 {
    let a = temporal_smoothing.clamp(0.0, 0.99);
    let b = 1.0 - a;
    move |p, c| (p * a) + (c * b)
}

fn quantize(v: f32) -> u8 {
    (v.clamp(0.0, 1.0) * 255.0).round() as u8
}

fn postprocess(
    expected: usize,
    out_shape: &[i64],
    out_data: &[f32],
    prev_mask: &mut Vec<f32>,
    temporal_smoothing: f32,
) -> Option<Vec<u8>> {
    postprocess_mask_u8(
        expected,
        out_shape,
        out_data,
        prev_mask,
        &is_logit,
        &sigmoid,
        &blend(temporal_smoothing),
        &quantize,
    )
}

#[test]
fn extracts_single_channel_output() {
    let expected = 4;
    let out_shape = [1, 2, 2, 1];
    let out_data = [0.0, 0.25, 0.5, 1.0];
    let mut prev = Vec::new();
    let mask = postprocess(expected, &out_shape, &out_data, &mut prev, 0.0).unwrap();
    assert_eq!(mask, vec![0, 64, 128, 255]);
}

#[test]
fn extracts_two_channel_nhwc_person() {
    let expected = 2;
    let out_shape = [1, 1, 2, 2];
    // [bg0, person0, bg1, person1]
    let out_data = [0.1, 0.9, 0.2, 0.8];
    let mut prev = Vec::new();
    let mask = postprocess(expected, &out_shape, &out_data, &mut prev, 0.0).unwrap();
    assert_eq!(mask, vec![230, 204]);
}

#[test]
fn extracts_two_channel_nchw_person_plane() {
    let expected = 3;
    let out_shape = [1, 2, 1, 3];
    // planar: bg[0..expected], person[expected..expected*2]
    let out_data = [0.1, 0.2, 0.3, 0.9, 0.8, 0.7];
    let mut prev = Vec::new();
    let mask = postprocess(expected, &out_shape, &out_data, &mut prev, 0.0).unwrap();
    assert_eq!(mask, vec![230, 204, 179]);
}

#[test]
fn applies_sigmoid_for_logits() {
    let expected = 3;
    let out_shape = [1, 1, 3, 1];
    let out_data = [-1.0, 0.0, 1.0];
    let mut prev = Vec::new();
    let mask = postprocess(expected, &out_shape, &out_data, &mut prev, 0.0).unwrap();
    assert_eq!(mask, vec![69, 128, 186]);
}

#[test]
fn applies_temporal_smoothing() {
    let expected = 2;
    let out_shape = [1, 1, 2, 1];
    let mut prev = Vec::new();

    let mask1 = postprocess(expected, &out_shape, &[0.0, 1.0], &mut prev, 0.5).unwrap();
    assert_eq!(mask1, vec![0, 255]);

    let mask2 = postprocess(expected, &out_shape, &[1.0, 0.0], &mut prev, 0.5).unwrap();
    assert_eq!(mask2, vec![128, 128]);
}

#[test]
fn temporal_smoothing_is_clamped() {
    let expected = 1;
    let out_shape = [1, 1, 1, 1];
    let mut prev = Vec::new();

    let _ = postprocess(expected, &out_shape, &[0.0], &mut prev, 0.0).unwrap();
    let mask = postprocess(expected, &out_shape, &[1.0], &mut prev, 1.0).unwrap();
    assert_eq!(mask, vec![3]);
}

#[test]
fn extraction_alone_gives_the_person_values() {
    assert_eq!(
        extract_mask_values(4, &[1, 2, 2, 1], &[0.0, 0.25, 0.5, 1.0]),
        Some(vec![0.0, 0.25, 0.5, 1.0])
    );
    assert_eq!(
        extract_mask_values(2, &[1, 1, 2, 2], &[0.1, 0.9, 0.2, 0.8]),
        Some(vec![0.9, 0.8])
    );
    assert_eq!(
        extract_mask_values(3, &[1, 2, 1, 3], &[0.1, 0.2, 0.3, 0.9, 0.8, 0.7]),
        Some(vec![0.9, 0.8, 0.7])
    );
}

#[test]
fn one_value_out_of_range_puts_all_through_sigmoid() {
    let mut prev = Vec::new();
    // Only the last value is out of range; 0.5 goes through sigmoid all the same.
    let mask = postprocess(3, &[3], &[0.5, 0.0, 1.5], &mut prev, 0.0).unwrap();
    assert_eq!(mask, vec![quantize(sigmoid(0.5)), 128, quantize(sigmoid(1.5))]);
    assert_eq!(mask, vec![159, 128, 208]);
    assert_eq!(prev, vec![sigmoid(0.5), sigmoid(0.0), sigmoid(1.5)]);
}

#[test]
fn values_within_range_stay_as_they_are() {
    let mut prev = Vec::new();
    let mask = postprocess(3, &[3], &[-0.01, 1.01, 0.5], &mut prev, 0.0).unwrap();
    assert_eq!(mask, vec![0, 255, 128]);
    assert_eq!(prev, vec![-0.01, 1.01, 0.5]);
}

#[test]
fn sigmoid_uses_only_the_person_values() {
    // The background scores are out of range, the person scores are not.
    let mut prev = Vec::new();
    let mask = postprocess(2, &[1, 1, 2, 2], &[5.0, 0.25, -5.0, 0.75], &mut prev, 0.0).unwrap();
    assert_eq!(mask, vec![64, 191]);
}

#[test]
fn previous_mask_of_another_size_is_replaced() {
    let mut prev = vec![1.0, 1.0, 1.0];
    let mask = postprocess(2, &[2], &[0.0, 0.2], &mut prev, 0.9).unwrap();
    assert_eq!(prev, vec![0.0, 0.2]);
    assert_eq!(mask, vec![0, 51]);
    // Same size again: blended, nine parts old and one part new.
    let mask = postprocess(2, &[2], &[1.0, 0.2], &mut prev, 0.9).unwrap();
    assert_eq!(mask, vec![26, 51]);
    assert_eq!(prev.len(), 2);
}

#[test]
fn failed_extraction_leaves_previous_mask_alone() {
    let mut prev = vec![0.25, 0.75];
    assert_eq!(postprocess(4, &[1, 3], &[0.1, 0.2, 0.3], &mut prev, 0.5), None);
    assert_eq!(prev, vec![0.25, 0.75]);
}

#[test]
fn negative_smoothing_counts_as_none() {
    let mut prev = vec![1.0];
    let mask = postprocess(1, &[1], &[0.0], &mut prev, -3.0).unwrap();
    assert_eq!(mask, vec![0]);
}

#[test]
fn mask_is_made_from_the_smoothed_values() {
    let mut prev = vec![0.0, 1.0];
    let mask = postprocess(2, &[2], &[1.0, 0.0], &mut prev, 0.25).unwrap();
    assert_eq!(prev, vec![0.75, 0.25]);
    assert_eq!(mask, vec![191, 64]);
}

#[test]
fn steps_work_on_any_kind_of_value() {
    // Whole numbers: a value counts as raw above 100, and raw values are halved.
    let over = |v: u32| v > 100;
    let halve = |v: u32| v / 2;
    let mean = |p: u32, c: u32| (p + c) / 2;
    let clip = |v: u32| v.min(255) as u8;
    let mut prev: Vec<u32> = Vec::new();
    let mask = postprocess_mask_u8(2, &[2], &[40, 200], &mut prev, &over, &halve, &mean, &clip);
    assert_eq!(mask, Some(vec![20, 100]));
    assert_eq!(prev, vec![20, 100]);
    let mask = postprocess_mask_u8(2, &[2], &[60, 80], &mut prev, &over, &halve, &mean, &clip);
    assert_eq!(mask, Some(vec![40, 90]));
    assert_eq!(prev, vec![40, 90]);
}

#[test]
fn looks_like_logits_is_any_value_out_of_range() {
    assert!(!looks_like_logits(&[0.0, 0.5, 1.0], &is_logit));
    assert!(!looks_like_logits(&[] as &[f32], &is_logit));
    assert!(looks_like_logits(&[0.0, -0.02, 1.0], &is_logit));
    assert!(looks_like_logits(&[0.0, 0.5, 1.02], &is_logit));
    assert!(!looks_like_logits(&[f32::NAN, 0.5], &is_logit));
    assert!(looks_like_logits(&[f32::NAN, 2.0], &is_logit));
}

#[test]
fn sigmoid_in_place_touches_every_value() {
    let mut values = vec![-1.0f32, 0.0, 1.0];
    sigmoid_in_place(&mut values, &sigmoid);
    assert_eq!(values, vec![sigmoid(-1.0), 0.5, sigmoid(1.0)]);
    let mut none: Vec<f32> = Vec::new();
    sigmoid_in_place(&mut none, &sigmoid);
    assert!(none.is_empty());
}

#[test]
fn update_temporal_smoothed_replaces_or_blends() {
    let mut prev: Vec<f32> = Vec::new();
    update_temporal_smoothed(&mut prev, &[0.0, 1.0], &blend(0.5));
    assert_eq!(prev, vec![0.0, 1.0]);
    update_temporal_smoothed(&mut prev, &[1.0, 0.0], &blend(0.5));
    assert_eq!(prev, vec![0.5, 0.5]);
    update_temporal_smoothed(&mut prev, &[1.0], &blend(0.5));
    assert_eq!(prev, vec![1.0]);
    update_temporal_smoothed(&mut prev, &[], &blend(0.5));
    assert!(prev.is_empty());
}

#[test]
fn update_temporal_smoothed_hands_previous_value_first() {
    let mut prev = vec![10i32, 20];
    update_temporal_smoothed(&mut prev, &[1, 2], &|p: i32, c: i32| p - c);
    assert_eq!(prev, vec![9, 18]);
}

#[test]
fn to_u8_mask_clamps_scales_and_rounds() {
    assert_eq!(
        to_u8_mask(&[-1.0f32, 0.0, 0.001, 0.002, 0.25, 0.5, 1.0, 7.0], &quantize),
        vec![0, 0, 0, 1, 64, 128, 255, 255]
    );
    assert_eq!(to_u8_mask(&[] as &[f32], &quantize), Vec::<u8>::new());
}

#[test]
fn second_axis_of_two_means_planes_whatever_the_number_of_axes() {
    let out_data = [0.1, 0.2, 0.3, 0.9, 0.8, 0.7];
    assert_eq!(
        extract_mask_values(3, &[1, 2, 3], &out_data),
        Some(vec![0.9, 0.8, 0.7])
    );
    assert_eq!(detect_plane_layout(3, &[1, 2, 3], 6), Some(PlaneLayout::Planar));
    assert_eq!(detect_plane_layout(3, &[3, 2, 1, 1, 1], 6), Some(PlaneLayout::Planar));
    let mut prev = Vec::new();
    let mask = postprocess(3, &[1, 2, 3], &out_data, &mut prev, 0.0).unwrap();
    assert_eq!(mask, vec![230, 204, 179]);
}

#[test]
fn last_axis_of_two_means_pairs_whatever_the_number_of_axes() {
    let out_data = [10u8, 11, 20, 21, 30, 31];
    assert_eq!(extract_mask_values(3, &[3, 2], &out_data), Some(vec![11, 21, 31]));
    assert_eq!(extract_mask_values(3, &[1, 3, 2], &out_data), Some(vec![11, 21, 31]));
    assert_eq!(extract_mask_values(3, &[1, 1, 1, 3, 2], &out_data), Some(vec![11, 21, 31]));
    // One axis of 2 is both the last axis and the only one.
    assert_eq!(extract_mask_values(1, &[2], &[7u8, 8]), Some(vec![8]));
    // Two axes [3, 2]: the second axis is the last one, so pairs win.
    assert_eq!(detect_plane_layout(3, &[3, 2], 6), Some(PlaneLayout::Interleaved));
    // Both the second and the last axis are 2: pairs win.
    assert_eq!(detect_plane_layout(2, &[1, 2, 2], 4), Some(PlaneLayout::Interleaved));
    assert_eq!(extract_mask_values(2, &[1, 2, 2], &[1u8, 2, 3, 4]), Some(vec![2, 4]));
}

#[test]
fn two_classes_without_a_telling_shape_are_read_side_by_side() {
    let out_data = [10u8, 11, 20, 21, 30, 31];
    assert_eq!(extract_mask_values(3, &[6], &out_data), Some(vec![11, 21, 31]));
    assert_eq!(extract_mask_values(3, &[1, 3, 1, 5], &out_data), Some(vec![11, 21, 31]));
    assert_eq!(extract_mask_values(3, &[], &out_data), Some(vec![11, 21, 31]));
}

#[test]
fn last_axis_of_two_wins_over_second_axis_of_two() {
    // Shape [1, 2, 1, 2] holds two pixels; both axes are 2.
    let out_data = [1u8, 2, 3, 4];
    assert_eq!(extract_mask_values(2, &[1, 2, 1, 2], &out_data), Some(vec![2, 4]));
    assert_eq!(detect_plane_layout(2, &[1, 2, 1, 2], 4), Some(PlaneLayout::Interleaved));
}

#[test]
fn longer_output_gives_its_first_values() {
    let out_data = [1u8, 2, 3, 4, 5];
    assert_eq!(extract_mask_values(3, &[1, 5], &out_data), Some(vec![1, 2, 3]));
    assert_eq!(detect_plane_layout(3, &[1, 5], 5), Some(PlaneLayout::Prefix));
    // Seven values for two pixels are neither one nor two values a pixel.
    assert_eq!(
        extract_mask_values(2, &[1, 2, 1, 2], &[9u8, 8, 7, 6, 5, 4, 3]),
        Some(vec![9, 8])
    );
}

#[test]
fn shorter_output_gives_nothing() {
    let out_data = [1u8, 2, 3];
    assert_eq!(extract_mask_values(4, &[1, 3], &out_data), None);
    assert_eq!(detect_plane_layout(4, &[1, 3], 3), None);
    assert_eq!(extract_mask_values::<u8>(1, &[0], &[]), None);
}

#[test]
fn empty_mask_is_extracted_from_anything() {
    assert_eq!(extract_mask_values::<u8>(0, &[], &[]), Some(vec![]));
    assert_eq!(extract_mask_values(0, &[3], &[1u8, 2, 3]), Some(vec![]));
    assert_eq!(detect_plane_layout(0, &[], 0), Some(PlaneLayout::Single));
}

#[test]
fn layouts_are_told_apart_by_length_first() {
    assert_eq!(detect_plane_layout(4, &[1, 2, 2, 1], 4), Some(PlaneLayout::Single));
    // Four values for four pixels are one value a pixel, whatever the shape says.
    assert_eq!(detect_plane_layout(4, &[1, 2, 1, 2], 4), Some(PlaneLayout::Single));
    assert_eq!(detect_plane_layout(3, &[1, 2, 1, 3], 6), Some(PlaneLayout::Planar));
    assert_eq!(detect_plane_layout(2, &[1, 1, 2, 2], 4), Some(PlaneLayout::Interleaved));
}

#[test]
fn extracted_plane_has_one_value_for_each_pixel() {
    let data: Vec<u16> = (0..40).collect();
    for expected in 0..=40usize {
        for len in 0..=40usize {
            let plane = extract_mask_values(expected, &[1, 2, 4, 5], &data[..len]);
            assert_eq!(plane.is_some(), len >= expected);
            if let Some(values) = plane {
                assert_eq!(values.len(), expected);
            }
        }
    }
}

#[test]
fn huge_expected_count_does_not_overflow() {
    assert_eq!(extract_mask_values(usize::MAX, &[1, 2, 2, 2], &[1u8, 2]), None);
    assert_eq!(detect_plane_layout(usize::MAX, &[1], usize::MAX), Some(PlaneLayout::Single));
}
