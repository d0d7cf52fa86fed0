use comfy_executor::preprocess::{binarize_above_mean, invert_preprocess, threshold_preprocess};

#[test]
fn threshold_both_ways() {
    let g = vec![0, 100, 128, 200];
    assert_eq!(threshold_preprocess(&g, 128, false), vec![0, 0, 0, 255]);
    assert_eq!(threshold_preprocess(&g, 128, true), vec![255, 255, 0, 0]);
}

#[test]
fn invert_bytes() {
    assert_eq!(invert_preprocess(&vec![0, 10, 255]), vec![255, 245, 0]);
}

#[test]
fn binarize() {
    // mean of 0, 10, 20, 31 is 15 (rounded down)
    assert_eq!(binarize_above_mean(&vec![0, 10, 20, 31]), vec![0, 0, 255, 255]);
    assert_eq!(binarize_above_mean(&vec![]), Vec::<u8>::new());
    assert_eq!(binarize_above_mean(&vec![7, 7]), vec![0, 0]);
}
