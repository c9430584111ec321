use vstd::prelude::*;
use crate::error::{InterpolationError, source_larger_error, target_larger_error};
use crate::format::PixelFormat;
use crate::grid::{
    byte_offset, floor_scaled, grid_seq, is_uniform, lemma_grid_seq_at, lemma_offset_in_bounds,
    lemma_scaled_floor_bound, lemma_uniform_grid, scaled_floor,
};
use crate::interpolation::InterpolationAlgorithm;

verus! {

/// Channel `c` of target pixel `(x, y)` when a `sw × sh` source is mapped onto a
/// `tw × th` target by nearest neighbour: the same channel of source pixel
/// `(⌊x · sw / tw⌋, ⌊y · sh / th⌋)`.
pub open spec fn nearest_byte(
    src: Seq<u8>,
    sw: nat,
    sh: nat,
    tw: nat,
    th: nat,
    bpp: nat,
    x: nat,
    y: nat,
    c: nat,
) -> u8 {
    src[byte_offset(sw, bpp, scaled_floor(x, sw, tw), scaled_floor(y, sh, th), c)]
}

/// [`nearest_byte`] as a function of the target position.
pub open spec fn nearest_fn(src: Seq<u8>, sw: nat, sh: nat, tw: nat, th: nat, bpp: nat) -> spec_fn(
    nat,
    nat,
    nat,
) -> u8 {
    |x: nat, y: nat, c: nat| nearest_byte(src, sw, sh, tw, th, bpp, x, y, c)
}

/// The `tw × th` buffer that nearest-neighbour mapping makes of a `sw × sh` source.
pub open spec fn nearest_resampled(src: Seq<u8>, sw: nat, sh: nat, tw: nat, th: nat, bpp: nat) -> Seq<u8> {
    grid_seq(tw, th, bpp, nearest_fn(src, sw, sh, tw, th, bpp))
}

/// Nearest-neighbour mapping of a buffer whose bytes all equal `v` gives a
/// buffer whose bytes all equal `v`.
pub proof fn lemma_nearest_uniform(src: Seq<u8>, sw: nat, sh: nat, tw: nat, th: nat, bpp: nat, v: u8)
    requires
        is_uniform(src, v),
        src.len() == sw * sh * bpp,
        sw > 0,
        sh > 0,
    ensures
        is_uniform(nearest_resampled(src, sw, sh, tw, th, bpp), v),
{
    let f = nearest_fn(src, sw, sh, tw, th, bpp);
    assert forall|x: nat, y: nat, c: nat| x < tw && y < th && c < bpp implies #[trigger] f(x, y, c) == v by {
        lemma_scaled_floor_bound(x, sw, tw);
        lemma_scaled_floor_bound(y, sh, th);
        lemma_offset_in_bounds(sw, sh, bpp, scaled_floor(x, sw, tw), scaled_floor(y, sh, th), c);
    }
    lemma_uniform_grid(tw, th, bpp, f, v);
}

/// Maps a `sw × sh` buffer onto a `tw × th` grid, copying for each target
/// pixel the source pixel it falls on.
fn nearest_resample(src: &Vec<u8>, sw: usize, sh: usize, tw: usize, th: usize, bpp: usize) -> (out: Vec<u8>)
    requires
        sw > 0,
        sh > 0,
        src@.len() == sw * sh * bpp,
    ensures
        out@ == nearest_resampled(src@, sw as nat, sh as nat, tw as nat, th as nat, bpp as nat),
{
    let ghost f = nearest_fn(src@, sw as nat, sh as nat, tw as nat, th as nat, bpp as nat);
    let ghost model = nearest_resampled(src@, sw as nat, sh as nat, tw as nat, th as nat, bpp as nat);
    let len: usize = src.len();
    assert(sw * sh <= sw * sh * bpp || bpp == 0) by (nonlinear_arith)
        requires
            0 <= sw * sh,
            0 <= bpp,
    ;
    let mut out: Vec<u8> = Vec::new();
    let mut y: usize = 0;
    assert(0 * tw * bpp == 0) by (nonlinear_arith);
    while y < th
        invariant
            y <= th,
            sw > 0,
            sh > 0,
            len == src@.len(),
            src@.len() == sw * sh * bpp,
            bpp > 0 ==> sw * sh <= len,
            f == nearest_fn(src@, sw as nat, sh as nat, tw as nat, th as nat, bpp as nat),
            model == grid_seq(tw as nat, th as nat, bpp as nat, f),
            out@.len() == y * tw * bpp,
            forall|j: int| 0 <= j < out@.len() ==> out@[j] == model[j],
        decreases th - y,
    {
        let sy = floor_scaled(y, sh, th);
        let mut x: usize = 0;
        while x < tw
            invariant
                x <= tw,
                y < th,
                sw > 0,
                sh > 0,
                sy == scaled_floor(y as nat, sh as nat, th as nat),
                sy < sh,
                len == src@.len(),
                src@.len() == sw * sh * bpp,
                bpp > 0 ==> sw * sh <= len,
                f == nearest_fn(src@, sw as nat, sh as nat, tw as nat, th as nat, bpp as nat),
                model == grid_seq(tw as nat, th as nat, bpp as nat, f),
                out@.len() == (y * tw + x) * bpp,
                forall|j: int| 0 <= j < out@.len() ==> out@[j] == model[j],
            decreases tw - x,
        {
            let sx = floor_scaled(x, sw, tw);
            let mut c: usize = 0;
            while c < bpp
                invariant
                    c <= bpp,
                    x < tw,
                    y < th,
                    sx == scaled_floor(x as nat, sw as nat, tw as nat),
                    sx < sw,
                    sy == scaled_floor(y as nat, sh as nat, th as nat),
                    sy < sh,
                    len == src@.len(),
                    src@.len() == sw * sh * bpp,
                    bpp > 0 ==> sw * sh <= len,
                    f == nearest_fn(src@, sw as nat, sh as nat, tw as nat, th as nat, bpp as nat),
                    model == grid_seq(tw as nat, th as nat, bpp as nat, f),
                    out@.len() == (y * tw + x) * bpp + c,
                    forall|j: int| 0 <= j < out@.len() ==> out@[j] == model[j],
                decreases bpp - c,
            {
                proof {
                    lemma_offset_in_bounds(sw as nat, sh as nat, bpp as nat, sx as nat, sy as nat, c as nat);
                    lemma_grid_seq_at(tw as nat, th as nat, bpp as nat, f, x as nat, y as nat, c as nat);
                }
                let b = src[(sy * sw + sx) * bpp + c];
                out.push(b);
                c = c + 1;
            }
            assert((y * tw + x) * bpp + bpp == (y * tw + (x + 1)) * bpp) by (nonlinear_arith);
            x = x + 1;
        }
        assert((y * tw + tw) * bpp == (y + 1) * tw * bpp) by (nonlinear_arith);
        y = y + 1;
    }
    assert(th * tw * bpp == tw * th * bpp) by (nonlinear_arith);
    assert(out@ =~= model);
    out
}

/// Resampling by picking, for each target pixel, the source pixel at its scaled
/// position; both legs copy bytes verbatim and never blend.
pub struct NearestNeighborInterpolation;

impl InterpolationAlgorithm for NearestNeighborInterpolation {
    open spec fn downsampled(&self, src: Seq<u8>, sw: nat, sh: nat, tw: nat, th: nat, bpp: nat) -> Seq<u8> {
        nearest_resampled(src, sw, sh, tw, th, bpp)
    }

    open spec fn upsampled(&self, src: Seq<u8>, sw: nat, sh: nat, tw: nat, th: nat, bpp: nat) -> Seq<u8> {
        nearest_resampled(src, sw, sh, tw, th, bpp)
    }

    fn downsample(
        &self,
        src_pixels: Vec<u8>,
        src_width: usize,
        src_height: usize,
        target_width: usize,
        target_height: usize,
        pixel_format: PixelFormat,
    ) -> (r: Result<Vec<u8>, InterpolationError>) {
        if target_height > src_height || target_width > src_width {
            return Err(target_larger_error(target_width, target_height, src_width, src_height));
        }
        let pixel_bytes = pixel_format.pixel_bytes();
        Ok(nearest_resample(&src_pixels, src_width, src_height, target_width, target_height, pixel_bytes))
    }

    fn upsample(
        &self,
        src_pixels: Vec<u8>,
        src_width: usize,
        src_height: usize,
        target_width: usize,
        target_height: usize,
        pixel_format: PixelFormat,
    ) -> (r: Result<Vec<u8>, InterpolationError>) {
        let pixel_bytes = pixel_format.pixel_bytes();
        assert(target_width * target_height <= target_width * target_height * pixel_bytes) by (nonlinear_arith)
            requires
                0 <= target_width * target_height,
                pixel_bytes >= 1,
        ;
        let target_len = target_width * target_height * pixel_bytes;
        if target_len <= src_pixels.len() {
            return Err(source_larger_error(src_pixels.len(), target_len));
        }
        Ok(nearest_resample(&src_pixels, src_width, src_height, target_width, target_height, pixel_bytes))
    }
}

} // verus!
