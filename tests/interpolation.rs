use smolres::average::AverageAreaInterpolation;
use smolres::interpolation::InterpolationAlgorithm;
use smolres::nearest::NearestNeighborInterpolation;
use smolres::pipeline::run_interpolation;
use smolres::quantize::reduce_bit_depth;
use smolres::{ImageInfo, InterpolationError, PixelFormat};

#[test]
fn test_nearest_neighbor_interpolation() {
    let width = 4;
    let height = 4;
    let pixel_format = 3;
    let mock_pixels: Vec<u8> = vec![128u8; width * height * pixel_format];
    let original_pixels = mock_pixels.clone();
    let target_bit_depth = 8;
    let metadata = ImageInfo {
        width: width as u16,
        height: height as u16,
        pixel_format: PixelFormat::RGB24,
    };
    let target_resolution = 2;
    let result_pixels = run_interpolation(
        &NearestNeighborInterpolation,
        mock_pixels,
        target_resolution,
        target_bit_depth,
        metadata,
    )
    .unwrap();
    assert_eq!(result_pixels.len(), original_pixels.len());
}

#[test]
fn test_average_area_interpolation() {
    let width = 4;
    let height = 4;
    let pixel_format = 3;
    let mock_pixels: Vec<u8> = vec![128u8; width * height * pixel_format];
    let original_pixels = mock_pixels.clone();
    let metadata = ImageInfo {
        width: width as u16,
        height: height as u16,
        pixel_format: PixelFormat::RGB24,
    };
    let target_resolution = 2;
    let target_bit_depth = 8;
    let result_pixels = run_interpolation(
        &AverageAreaInterpolation,
        mock_pixels,
        target_resolution,
        target_bit_depth,
        metadata,
    )
    .unwrap();
    assert_eq!(result_pixels.len(), original_pixels.len());
}

#[test]
fn test_reduce_bit_depth() {
    let mut pixels = vec![255, 128, 64, 32, 16, 0];

    // 2-bit depth -> 4 levels -> step = 64
    // Expected values: 255 -> 192, 128 -> 128, 64 -> 64, etc.
    // (x / 64) * 64 = quantized value
    reduce_bit_depth(&mut pixels, 2);

    let expected = vec![192, 128, 64, 0, 0, 0];
    assert_eq!(pixels, expected);
}

fn message(e: InterpolationError) -> String {
    match e {
        InterpolationError::DownsampleTargetLargerThanSource(m) => m,
        InterpolationError::UpsampleSourceLargerThanTarget(m) => m,
        InterpolationError::ImageMetadataResolve => String::new(),
    }
}

#[test]
fn average_downsample_of_uniform_rgb_is_uniform() {
    let src = vec![128u8; 4 * 4 * 3];
    let out = AverageAreaInterpolation
        .downsample(src, 4, 4, 2, 2, PixelFormat::RGB24)
        .unwrap();
    assert_eq!(out, vec![128u8; 2 * 2 * 3]);
}

#[test]
fn average_downsample_takes_block_means() {
    let src = vec![10u8, 20, 30, 40, 50, 60, 70, 80];
    let out = AverageAreaInterpolation
        .downsample(src, 4, 2, 2, 1, PixelFormat::L8)
        .unwrap();
    assert_eq!(out, vec![35, 55]);
}

#[test]
fn average_downsample_truncates_the_mean() {
    let src = vec![1u8, 2, 2, 2];
    let out = AverageAreaInterpolation
        .downsample(src, 2, 2, 1, 1, PixelFormat::L8)
        .unwrap();
    assert_eq!(out, vec![1]);
}

#[test]
fn average_downsample_drops_remainder_rows_and_columns() {
    let src: Vec<u8> = (1..=9).collect();
    let out = AverageAreaInterpolation
        .downsample(src, 3, 3, 2, 2, PixelFormat::L8)
        .unwrap();
    assert_eq!(out, vec![1, 2, 4, 5]);
}

#[test]
fn average_downsample_keeps_channels_apart() {
    // two RGB pixels side by side, averaged into one
    let src = vec![0u8, 100, 200, 10, 101, 255];
    let out = AverageAreaInterpolation
        .downsample(src, 2, 1, 1, 1, PixelFormat::RGB24)
        .unwrap();
    assert_eq!(out, vec![5, 100, 227]);
}

#[test]
fn average_upsample_blends_overlapping_footprints() {
    let src = vec![0u8, 90];
    let out = AverageAreaInterpolation
        .upsample(src, 2, 1, 3, 1, PixelFormat::L8)
        .unwrap();
    assert_eq!(out, vec![0, 45, 90]);
}

#[test]
fn nearest_downsample_picks_top_left_of_each_cell() {
    let src = vec![1u8, 2, 3, 4];
    let out = NearestNeighborInterpolation
        .downsample(src, 4, 1, 2, 1, PixelFormat::L8)
        .unwrap();
    assert_eq!(out, vec![1, 3]);
}

#[test]
fn nearest_downsample_floors_fractional_positions() {
    let src: Vec<u8> = (1..=9).collect();
    let out = NearestNeighborInterpolation
        .downsample(src, 3, 3, 2, 2, PixelFormat::L8)
        .unwrap();
    assert_eq!(out, vec![1, 2, 4, 5]);
}

#[test]
fn nearest_upsample_repeats_pixels_in_blocks() {
    let src = vec![1u8, 2, 3, 4, 5, 6];
    let out = NearestNeighborInterpolation
        .upsample(src, 2, 1, 4, 2, PixelFormat::RGB24)
        .unwrap();
    assert_eq!(
        out,
        vec![1, 2, 3, 1, 2, 3, 4, 5, 6, 4, 5, 6, 1, 2, 3, 1, 2, 3, 4, 5, 6, 4, 5, 6]
    );
}

#[test]
fn downsample_output_length_is_target_size() {
    let src: Vec<u8> = (0..5 * 7 * 4).map(|i| (i * 7 % 256) as u8).collect();
    for tw in 1..=5usize {
        for th in 1..=7usize {
            let a = AverageAreaInterpolation
                .downsample(src.clone(), 5, 7, tw, th, PixelFormat::CMYK32)
                .unwrap();
            assert_eq!(a.len(), tw * th * 4);
            let n = NearestNeighborInterpolation
                .downsample(src.clone(), 5, 7, tw, th, PixelFormat::CMYK32)
                .unwrap();
            assert_eq!(n.len(), tw * th * 4);
        }
    }
}

#[test]
fn upsample_output_length_is_target_size() {
    let src: Vec<u8> = (0..3 * 2 * 2).map(|i| i as u8).collect();
    for tw in 3..=6usize {
        for th in 3..=5usize {
            let a = AverageAreaInterpolation
                .upsample(src.clone(), 3, 2, tw, th, PixelFormat::L16)
                .unwrap();
            assert_eq!(a.len(), tw * th * 2);
            let n = NearestNeighborInterpolation
                .upsample(src.clone(), 3, 2, tw, th, PixelFormat::L16)
                .unwrap();
            assert_eq!(n.len(), tw * th * 2);
        }
    }
}

#[test]
fn downsample_to_larger_target_fails() {
    let src = vec![0u8; 4 * 4 * 3];
    let e = AverageAreaInterpolation
        .downsample(src.clone(), 4, 4, 5, 2, PixelFormat::RGB24)
        .unwrap_err();
    assert_eq!(
        message(e),
        "Target resolution (5, 2) > Source resolution (4, 4)"
    );
    let e = NearestNeighborInterpolation
        .downsample(src, 4, 4, 2, 12, PixelFormat::RGB24)
        .unwrap_err();
    assert!(matches!(
        e,
        InterpolationError::DownsampleTargetLargerThanSource(_)
    ));
    assert_eq!(
        message(e),
        "Target resolution (2, 12) > Source resolution (4, 4)"
    );
}

#[test]
fn upsample_to_no_larger_buffer_fails() {
    let src = vec![0u8; 2 * 2 * 3];
    let e = NearestNeighborInterpolation
        .upsample(src.clone(), 2, 2, 2, 2, PixelFormat::RGB24)
        .unwrap_err();
    assert!(matches!(
        e,
        InterpolationError::UpsampleSourceLargerThanTarget(_)
    ));
    assert_eq!(message(e), "Source pixel vec is 12, target vec is 12");
    let e = AverageAreaInterpolation
        .upsample(src, 2, 2, 3, 1, PixelFormat::RGB24)
        .unwrap_err();
    assert_eq!(message(e), "Source pixel vec is 12, target vec is 9");
}

#[test]
fn quantize_leaves_at_most_two_to_the_depth_values() {
    let all: Vec<u8> = (0..=255u8).collect();
    for depth in 1..=8u8 {
        let mut pixels = all.clone();
        reduce_bit_depth(&mut pixels, depth);
        let mut distinct = pixels.clone();
        distinct.sort();
        distinct.dedup();
        assert!(distinct.len() <= 1usize << depth);
        assert_eq!(distinct.len(), 1usize << depth);
    }
}

#[test]
fn quantize_at_one_bit_keeps_two_levels() {
    let mut pixels = vec![0u8, 127, 128, 255];
    reduce_bit_depth(&mut pixels, 1);
    assert_eq!(pixels, vec![0, 0, 128, 128]);
}

#[test]
fn quantize_at_full_depth_changes_nothing() {
    let mut pixels: Vec<u8> = (0..=255u8).collect();
    reduce_bit_depth(&mut pixels, 8);
    assert_eq!(pixels, (0..=255u8).collect::<Vec<u8>>());
}

#[test]
fn quantize_empty_buffer() {
    let mut pixels: Vec<u8> = Vec::new();
    reduce_bit_depth(&mut pixels, 3);
    assert!(pixels.is_empty());
}

#[test]
fn pixel_bytes_per_format() {
    assert_eq!(PixelFormat::L8.pixel_bytes(), 1);
    assert_eq!(PixelFormat::L16.pixel_bytes(), 2);
    assert_eq!(PixelFormat::RGB24.pixel_bytes(), 3);
    assert_eq!(PixelFormat::CMYK32.pixel_bytes(), 4);
}
