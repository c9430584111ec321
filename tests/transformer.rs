use smolres::transformer::{down_sample, up_sample};
use smolres::PixelFormat;

#[test]
fn down_sample_averages_rgb_blocks() {
    let src = vec![
        0u8, 0, 0, 10, 20, 30, 100, 100, 100, 1, 2, 3, //
        2, 4, 6, 4, 8, 12, 200, 0, 50, 3, 6, 9,
    ];
    let out = down_sample(src, 4, 2, 1, 2, PixelFormat::RGB24);
    assert_eq!(out, vec![4, 8, 12, 76, 27, 40]);
}

#[test]
fn down_sample_keeps_three_channels_of_cmyk() {
    let src = vec![10u8, 20, 30, 40, 20, 30, 40, 50];
    let out = down_sample(src, 2, 1, 1, 1, PixelFormat::CMYK32);
    assert_eq!(out, vec![15, 25, 35]);
}

#[test]
fn up_sample_repeats_each_pixel_over_its_block() {
    let src = vec![1u8, 2, 3, 4, 5, 6];
    let out = up_sample(src, 1, 2, 2, 4, PixelFormat::RGB24);
    assert_eq!(
        out,
        vec![1, 2, 3, 1, 2, 3, 4, 5, 6, 4, 5, 6, 1, 2, 3, 1, 2, 3, 4, 5, 6, 4, 5, 6]
    );
}

#[test]
fn up_sample_leaves_uncovered_pixels_black() {
    let src = vec![1u8, 2, 3, 4, 5, 6];
    let out = up_sample(src, 1, 2, 1, 5, PixelFormat::RGB24);
    assert_eq!(out, vec![1, 2, 3, 1, 2, 3, 4, 5, 6, 4, 5, 6, 0, 0, 0]);
}

#[test]
fn up_sample_zeroes_channels_past_the_third() {
    let src = vec![9u8, 8, 7, 6];
    let out = up_sample(src, 1, 1, 1, 2, PixelFormat::CMYK32);
    assert_eq!(out, vec![9, 8, 7, 0, 9, 8, 7, 0]);
}
