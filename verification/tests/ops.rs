use demucs_core::error::{Error, Fault};
use demucs_core::ops::{check_rms_norm, glu_features, rotate_half, transpose_owned, Linear};

#[test]
fn rms_norm_rejects_a_mismatched_gamma() {
    assert!(check_rms_norm(2, 3).is_err());
    assert!(check_rms_norm(3, 3).is_ok());
    assert_eq!(check_rms_norm(2, 3), Err(Error::Shape(Fault::RmsGamma { entries: 2, dim: 3 })));
    assert_eq!(
        check_rms_norm(2, 3).unwrap_err().message(),
        "rms_norm gamma has 2 entries but the feature dim is 3"
    );
}

#[test]
fn glu_rejects_odd_widths() {
    assert!(glu_features(3).is_err());
    assert_eq!(glu_features(8), Ok(4));
    assert_eq!(glu_features(3).unwrap_err().message(), "GLU needs an even feature width, found 3");
}

#[test]
fn a_linear_layer_keeps_its_weight_transposed() {
    let layer = Linear::new(&vec![1, 2, 3, 4, 5, 6], Some(vec![7, 8]), 2, 3);
    assert_eq!(layer.weight_t, vec![1, 4, 2, 5, 3, 6]);
    assert_eq!(layer.bias, Some(vec![7, 8]));
    assert_eq!((layer.in_features(), layer.out_features()), (3, 2));
}

#[test]
fn exchanging_axes_twice_is_nothing() {
    let words: Vec<u32> = (0..12).collect();
    let once = transpose_owned(&words, 3, 4);
    assert_eq!(once, vec![0, 4, 8, 1, 5, 9, 2, 6, 10, 3, 7, 11]);
    assert_eq!(transpose_owned(&once, 4, 3), words);
}

#[test]
fn adjacent_pairs_turn_by_a_quarter() {
    let bits = |values: &[f32]| values.iter().map(|v| v.to_bits()).collect::<Vec<u32>>();
    let row = bits(&[1.0, 2.0, -3.0, 4.0]);
    let turned = rotate_half(&row);
    assert_eq!(turned, bits(&[-2.0, 1.0, -4.0, -3.0]));
    let mut back = turned;
    for _ in 0..3 {
        back = rotate_half(&back);
    }
    assert_eq!(back, row);
}
