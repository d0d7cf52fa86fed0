use comfy_executor::mask::{
    channel_index, composite_masks, create_solid_mask, grayscale_image, image_to_channel_mask,
    image_to_grayscale_mask, invert_mask, mask_to_rgb_image, new_image, rgb_image, threshold_mask,
    SdImage,
};

fn img(width: u32, height: u32, channel: u32, data: Vec<u8>) -> SdImage {
    SdImage { width, height, channel, data }
}

#[test]
fn channel_names() {
    assert_eq!(channel_index("red"), 0);
    assert_eq!(channel_index("green"), 1);
    assert_eq!(channel_index("blue"), 2);
    assert_eq!(channel_index("alpha"), 3);
    assert_eq!(channel_index("Red"), 0);
    assert_eq!(channel_index("purple"), 0);
}

#[test]
fn blank_and_checked_images() {
    let b = new_image(2, 3, 4);
    assert_eq!(b.data, vec![0u8; 24]);
    let g = grayscale_image(2, 2, vec![1, 2, 3, 4]);
    assert_eq!((g.channel, g.data.clone()), (1, vec![1, 2, 3, 4]));
    let bad = grayscale_image(2, 2, vec![1, 2, 3]);
    assert_eq!(bad.data, vec![0, 0, 0, 0]);
    let r = rgb_image(1, 1, vec![9, 8, 7]);
    assert_eq!((r.channel, r.data), (3, vec![9, 8, 7]));
    let rbad = rgb_image(1, 2, vec![9, 8, 7]);
    assert_eq!(rbad.data, vec![0; 6]);
}

#[test]
fn channel_mask_of_rgb_and_rgba() {
    let rgb = img(2, 1, 3, vec![10, 20, 30, 40, 50, 60]);
    assert_eq!(image_to_channel_mask(&rgb, "green").data, vec![20, 50]);
    // an RGB image has no alpha channel: its luminance is taken
    assert_eq!(image_to_channel_mask(&rgb, "alpha").data, vec![18, 48]);
    let rgba = img(1, 1, 4, vec![1, 2, 3, 4]);
    assert_eq!(image_to_channel_mask(&rgba, "alpha").data, vec![4]);
    let gray = img(2, 1, 1, vec![5, 6]);
    assert_eq!(image_to_channel_mask(&gray, "blue").data, vec![5, 6]);
}

#[test]
fn luminance() {
    let rgb = img(2, 1, 3, vec![255, 255, 255, 255, 0, 0]);
    // (255*299)/1000 = 76
    assert_eq!(image_to_grayscale_mask(&rgb).data, vec![255, 76]);
    // a mask of the wrong size becomes blank
    let short = img(3, 1, 3, vec![255, 255, 255]);
    assert_eq!(image_to_grayscale_mask(&short).data, vec![0, 0, 0]);
}

#[test]
fn rgb_expansion_and_round_trip() {
    let m = img(3, 1, 1, vec![0, 7, 255]);
    let rgb = mask_to_rgb_image(&m);
    assert_eq!(rgb.channel, 3);
    assert_eq!(rgb.data, vec![0, 0, 0, 7, 7, 7, 255, 255, 255]);
    assert_eq!(image_to_grayscale_mask(&rgb).data, m.data);
}

#[test]
fn invert_twice() {
    let m = img(2, 2, 1, vec![0, 1, 128, 255]);
    let once = invert_mask(&m);
    assert_eq!(once.data, vec![255, 254, 127, 0]);
    assert_eq!(invert_mask(&once).data, m.data);
}

#[test]
fn threshold() {
    let m = img(4, 1, 1, vec![0, 127, 128, 255]);
    assert_eq!(threshold_mask(&m, 128).data, vec![0, 0, 255, 255]);
    assert_eq!(threshold_mask(&m, 0).data, vec![255, 255, 255, 255]);
}

#[test]
fn solid() {
    let s = create_solid_mask(2, 3, 77);
    assert_eq!((s.width, s.height, s.channel), (2, 3, 1));
    assert_eq!(s.data, vec![77; 6]);
}

fn add_table() -> Vec<u8> {
    let mut t = vec![0u8; 65536];
    for d in 0..256usize {
        for s in 0..256usize {
            t[d * 256 + s] = (d + s).min(255) as u8;
        }
    }
    t
}

#[test]
fn composite_places_source_at_offset() {
    let dest = img(3, 3, 1, vec![10; 9]);
    let src = img(2, 2, 1, vec![1, 2, 3, 4]);
    let out = composite_masks(&dest, &src, &add_table(), 1, 1);
    assert_eq!(out.data, vec![10, 10, 10, 10, 11, 12, 10, 13, 14]);
}

#[test]
fn composite_clips_at_the_edges() {
    let dest = img(2, 2, 1, vec![100, 100, 100, 100]);
    let src = img(2, 2, 1, vec![1, 2, 3, 4]);
    let out = composite_masks(&dest, &src, &add_table(), -1, 1);
    assert_eq!(out.data, vec![100, 100, 102, 100]);
    let far = composite_masks(&dest, &src, &add_table(), 5, 5);
    assert_eq!(far.data, dest.data);
}

#[test]
fn luminance_mask_of_a_mask_is_itself() {
    let rgb = img(2, 1, 3, vec![10, 200, 30, 255, 255, 255]);
    let once = image_to_grayscale_mask(&rgb);
    let twice = image_to_grayscale_mask(&once);
    assert_eq!(twice.data, once.data);
    assert_eq!((twice.width, twice.height, twice.channel), (2, 1, 1));
}
