use vstd::prelude::*;
use crate::error::{InterpolationError, source_larger_text, target_larger_text};
use crate::format::{ImageInfo, bytes_per_pixel};
use crate::interpolation::InterpolationAlgorithm;
use crate::quantize::{quantized_all, reduce_bit_depth};

verus! {

/// The buffer a successful run produces: `src`, a `w × h` image, shrunk by
/// `algo` to a `res × res` grid, expanded back to `w × h` and quantized to
/// `bit_depth` bits.
pub open spec fn reduced<A: InterpolationAlgorithm>(
    algo: A,
    src: Seq<u8>,
    w: nat,
    h: nat,
    res: nat,
    bpp: nat,
    bit_depth: nat,
) -> Seq<u8> {
    quantized_all(algo.upsampled(algo.downsampled(src, w, h, res, res, bpp), res, res, w, h, bpp), bit_depth)
}

/// Whether a `w × h` image of `bpp`-byte pixels can go through a run at
/// virtual resolution `res`: the `res × res` grid fits inside the image and
/// holds fewer bytes than it.
pub open spec fn run_fits(w: nat, h: nat, res: nat, bpp: nat) -> bool {
    res <= w && res <= h && res * res * bpp < w * h * bpp
}

/// `e` is the error of a run at virtual resolution `res` on a `w × h` image of
/// `bpp`-byte pixels that does not fit: the downsample error when the grid is
/// wider or taller than the image, the upsample error otherwise.
pub open spec fn run_error(e: InterpolationError, w: nat, h: nat, res: nat, bpp: nat) -> bool {
    if res > w || res > h {
        (e matches InterpolationError::DownsampleTargetLargerThanSource(m) && m@ == target_larger_text(
            res,
            res,
            w,
            h,
        ))
    } else {
        (e matches InterpolationError::UpsampleSourceLargerThanTarget(m) && m@ == source_larger_text(
            res * res * bpp,
            w * h * bpp,
        ))
    }
}

/// Runs `src`, an image described by `metadata`, through `algo` at virtual
/// resolution `target_resolution` and colour depth `target_bit_depth`.
///
/// Fails when the virtual grid does not fit inside the image, and when it holds
/// as many pixels as the image, so that expanding it back would not enlarge it.
pub fn run_interpolation<A: InterpolationAlgorithm>(
    algo: &A,
    src: Vec<u8>,
    target_resolution: u16,
    target_bit_depth: u8,
    metadata: ImageInfo,
) -> (r: Result<Vec<u8>, InterpolationError>)
    requires
        target_resolution > 0,
        1 <= target_bit_depth <= 8,
        src@.len() == metadata.width * metadata.height * bytes_per_pixel(metadata.pixel_format),
    ensures
        r is Ok <==> run_fits(
            metadata.width as nat,
            metadata.height as nat,
            target_resolution as nat,
            bytes_per_pixel(metadata.pixel_format),
        ),
        r matches Ok(v) ==> v@ == reduced(
            *algo,
            src@,
            metadata.width as nat,
            metadata.height as nat,
            target_resolution as nat,
            bytes_per_pixel(metadata.pixel_format),
            target_bit_depth as nat,
        ),
        r matches Err(e) ==> run_error(
            e,
            metadata.width as nat,
            metadata.height as nat,
            target_resolution as nat,
            bytes_per_pixel(metadata.pixel_format),
        ),
{
    let src_width = metadata.width as usize;
    let src_height = metadata.height as usize;
    let res = target_resolution as usize;
    // the source's length bounds the buffer that the upsample rebuilds
    let src_len: usize = src.len();
    let downsampled = match algo.downsample(src, src_width, src_height, res, res, metadata.pixel_format) {
        Ok(v) => v,
        Err(e) => return Err(e),
    };
    let mut target_pixels = match algo.upsample(
        downsampled,
        res,
        res,
        src_width,
        src_height,
        metadata.pixel_format,
    ) {
        Ok(v) => v,
        Err(e) => return Err(e),
    };
    reduce_bit_depth(target_pixels.as_mut_slice(), target_bit_depth);
    Ok(target_pixels)
}

} // verus!
