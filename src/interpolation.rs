use vstd::prelude::*;
use crate::error::{InterpolationError, source_larger_text, target_larger_text};
use crate::format::{PixelFormat, bytes_per_pixel};

verus! {

/// A resampling strategy: shrinks a pixel buffer to a coarser grid and expands
/// one back to a finer grid.
///
/// Buffers are row-major and interleaved: a `w × h` buffer of format `f` holds
/// `w * h * bytes_per_pixel(f)` bytes.
pub trait InterpolationAlgorithm {
    /// The buffer that `downsample` produces from a `sw × sh` source for a
    /// `tw × th` target that fits inside it.
    spec fn downsampled(&self, src: Seq<u8>, sw: nat, sh: nat, tw: nat, th: nat, bpp: nat) -> Seq<u8>;

    /// The buffer that `upsample` produces from a `sw × sh` source for a
    /// `tw × th` target that holds more bytes than the source.
    spec fn upsampled(&self, src: Seq<u8>, sw: nat, sh: nat, tw: nat, th: nat, bpp: nat) -> Seq<u8>;

    /// Shrinks a `src_width × src_height` buffer to `target_width × target_height`.
    ///
    /// Fails with `DownsampleTargetLargerThanSource` exactly when the target is
    /// wider or taller than the source.
    fn downsample(
        &self,
        src_pixels: Vec<u8>,
        src_width: usize,
        src_height: usize,
        target_width: usize,
        target_height: usize,
        pixel_format: PixelFormat,
    ) -> (r: Result<Vec<u8>, InterpolationError>)
        requires
            target_width > 0,
            target_height > 0,
            src_pixels@.len() == src_width * src_height * bytes_per_pixel(pixel_format),
        ensures
            if target_width > src_width || target_height > src_height {
                (r matches Err(InterpolationError::DownsampleTargetLargerThanSource(m)) && m@
                    == target_larger_text(
                    target_width as nat,
                    target_height as nat,
                    src_width as nat,
                    src_height as nat,
                ))
            } else {
                (r matches Ok(v) && v@ == self.downsampled(
                    src_pixels@,
                    src_width as nat,
                    src_height as nat,
                    target_width as nat,
                    target_height as nat,
                    bytes_per_pixel(pixel_format),
                ) && v@.len() == target_width * target_height * bytes_per_pixel(pixel_format))
            },
    ;

    /// Expands a `src_width × src_height` buffer to `target_width × target_height`.
    ///
    /// Fails with `UpsampleSourceLargerThanTarget` exactly when the target
    /// buffer would hold no more bytes than the source buffer.
    fn upsample(
        &self,
        src_pixels: Vec<u8>,
        src_width: usize,
        src_height: usize,
        target_width: usize,
        target_height: usize,
        pixel_format: PixelFormat,
    ) -> (r: Result<Vec<u8>, InterpolationError>)
        requires
            src_width > 0,
            src_height > 0,
            src_pixels@.len() == src_width * src_height * bytes_per_pixel(pixel_format),
            target_width * target_height * bytes_per_pixel(pixel_format) <= usize::MAX,
        ensures
            if target_width * target_height * bytes_per_pixel(pixel_format) <= src_pixels@.len() {
                (r matches Err(InterpolationError::UpsampleSourceLargerThanTarget(m)) && m@
                    == source_larger_text(
                    src_pixels@.len(),
                    (target_width * target_height * bytes_per_pixel(pixel_format)) as nat,
                ))
            } else {
                (r matches Ok(v) && v@ == self.upsampled(
                    src_pixels@,
                    src_width as nat,
                    src_height as nat,
                    target_width as nat,
                    target_height as nat,
                    bytes_per_pixel(pixel_format),
                ) && v@.len() == target_width * target_height * bytes_per_pixel(pixel_format))
            },
    ;
}

} // verus!
