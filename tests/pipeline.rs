use smolres::average::AverageAreaInterpolation;
use smolres::cli::{run, Algorithm, Args};
use smolres::nearest::NearestNeighborInterpolation;
use smolres::pipeline::run_interpolation;
use smolres::{ImageInfo, InterpolationError, PixelFormat, UserFacingError};

fn args(resolution: u16, bit_depth: u8, algorithm: Option<Algorithm>) -> Args {
    Args {
        input: String::from("in.jpeg"),
        output: None,
        resolution,
        bit_depth,
        algorithm,
    }
}

fn rgb(width: u16, height: u16) -> ImageInfo {
    ImageInfo {
        width,
        height,
        pixel_format: PixelFormat::RGB24,
    }
}

#[test]
fn uniform_image_survives_average_area_run() {
    let src = vec![200u8; 4 * 4 * 3];
    let out = run_interpolation(&AverageAreaInterpolation, src.clone(), 2, 8, rgb(4, 4)).unwrap();
    assert_eq!(out, src);
}

#[test]
fn uniform_image_survives_nearest_neighbor_run() {
    let src = vec![77u8; 6 * 5 * 3];
    let out = run_interpolation(&NearestNeighborInterpolation, src.clone(), 3, 8, rgb(6, 5)).unwrap();
    assert_eq!(out, src);
}

#[test]
fn run_keeps_length_for_every_resolution_and_strategy() {
    let (w, h) = (7u16, 5u16);
    let src: Vec<u8> = (0..(w as usize) * (h as usize) * 3)
        .map(|i| (i * 37 % 256) as u8)
        .collect();
    for res in 1..=5u16 {
        for depth in 1..=8u8 {
            let a = run_interpolation(&AverageAreaInterpolation, src.clone(), res, depth, rgb(w, h)).unwrap();
            assert_eq!(a.len(), src.len());
            let n = run_interpolation(&NearestNeighborInterpolation, src.clone(), res, depth, rgb(w, h)).unwrap();
            assert_eq!(n.len(), src.len());
        }
    }
}

#[test]
fn run_at_full_square_resolution_cannot_expand() {
    let src = vec![9u8; 4 * 4 * 3];
    let e = run_interpolation(&NearestNeighborInterpolation, src.clone(), 4, 8, rgb(4, 4)).unwrap_err();
    assert!(matches!(e, InterpolationError::UpsampleSourceLargerThanTarget(_)));
    let e = run_interpolation(&AverageAreaInterpolation, src, 4, 8, rgb(4, 4)).unwrap_err();
    assert!(matches!(e, InterpolationError::UpsampleSourceLargerThanTarget(_)));
}

#[test]
fn run_with_resolution_above_image_fails_before_expanding() {
    let src = vec![9u8; 4 * 3 * 3];
    let e = run_interpolation(&AverageAreaInterpolation, src, 4, 8, rgb(4, 3)).unwrap_err();
    assert_eq!(
        e,
        InterpolationError::DownsampleTargetLargerThanSource(String::from(
            "Target resolution (4, 4) > Source resolution (4, 3)"
        ))
    );
}

#[test]
fn nearest_run_pixelates_and_quantizes() {
    // 4×2 grey image, shrunk to 1×1 then expanded back: every pixel becomes the
    // top-left one, then 2-bit quantization floors it to a multiple of 64.
    let src = vec![130u8, 10, 20, 30, 40, 50, 60, 70];
    let info = ImageInfo {
        width: 4,
        height: 2,
        pixel_format: PixelFormat::L8,
    };
    let out = run_interpolation(&NearestNeighborInterpolation, src, 1, 2, info).unwrap();
    assert_eq!(out, vec![128u8; 8]);
}

#[test]
fn average_run_blends_then_quantizes() {
    // 2×2 grey image to a 1×1 grid: the mean of 0, 64, 128, 255 is 111; expanded
    // back and kept at 4 bits it becomes 96.
    let src = vec![0u8, 64, 128, 255];
    let info = ImageInfo {
        width: 2,
        height: 2,
        pixel_format: PixelFormat::L8,
    };
    let out = run_interpolation(&AverageAreaInterpolation, src, 1, 4, info).unwrap();
    assert_eq!(out, vec![96u8; 4]);
}

#[test]
fn run_defaults_to_average_area() {
    let src = vec![0u8, 64, 128, 255];
    let info = ImageInfo {
        width: 2,
        height: 2,
        pixel_format: PixelFormat::L8,
    };
    let out = run(&args(1, 8, None), src.clone(), info).unwrap();
    assert_eq!(out, vec![111u8; 4]);
    let out = run(&args(1, 8, Some(Algorithm::Nearestneighbor)), src, info).unwrap();
    assert_eq!(out, vec![0u8; 4]);
}

#[test]
fn run_reports_interpolation_errors() {
    let src = vec![1u8; 2 * 2 * 3];
    let e = run(&args(3, 2, Some(Algorithm::AverageArea)), src, rgb(2, 2)).unwrap_err();
    assert_eq!(
        e,
        UserFacingError::InterpolationError(InterpolationError::DownsampleTargetLargerThanSource(
            String::from("Target resolution (3, 3) > Source resolution (2, 2)")
        ))
    );
}

#[test]
fn user_facing_error_wraps_interpolation_error() {
    let e = UserFacingError::from(InterpolationError::ImageMetadataResolve);
    assert_eq!(
        e,
        UserFacingError::InterpolationError(InterpolationError::ImageMetadataResolve)
    );
}

#[test]
fn algorithm_names() {
    assert_eq!(Algorithm::Nearestneighbor.as_str(), "nearest");
    assert_eq!(Algorithm::AverageArea.as_str(), "average");
}

#[test]
fn error_messages() {
    let e = InterpolationError::DownsampleTargetLargerThanSource(String::from("x"));
    assert_eq!(e.message(), "Target dimensions are larger than source dimensions: x");
    let e = InterpolationError::UpsampleSourceLargerThanTarget(String::from("y"));
    assert_eq!(e.message(), "Source dimensions are larger than target dimensions: y");
    assert_eq!(
        InterpolationError::ImageMetadataResolve.message(),
        "Failed to resolve image metadata"
    );
    let e = UserFacingError::InterpolationError(InterpolationError::ImageMetadataResolve);
    assert_eq!(
        e.message(),
        "Failed to interpolate image: Failed to resolve image metadata"
    );
}
