use vstd::prelude::*;
use crate::error::{InterpolationError, source_larger_error, target_larger_error};
use crate::format::PixelFormat;
use crate::grid::{
    block_mean, ceil_scaled, floor_scaled, grid_seq, is_uniform, lemma_footprint_bounds,
    lemma_grid_seq_at, lemma_uniform_grid, lemma_uniform_rect_mean, rect_mean, scaled_ceil,
    scaled_floor,
};
use crate::interpolation::InterpolationAlgorithm;

verus! {

/// Channel `c` of target pixel `(x, y)` when a `sw × sh` source is shrunk to
/// `tw × th` by block averaging.
///
/// The source is cut into blocks of `⌊sw / tw⌋ × ⌊sh / th⌋` pixels, block
/// `(x, y)` starting at `(x · ⌊sw / tw⌋, y · ⌊sh / th⌋)`; columns and rows past
/// the last whole block belong to no block.
pub open spec fn block_byte(src: Seq<u8>, sw: nat, sh: nat, tw: nat, th: nat, bpp: nat, x: nat, y: nat, c: nat) -> u8 {
    let bw = sw / tw;
    let bh = sh / th;
    rect_mean(src, sw, bpp, c, x * bw, y * bh, bw, bh) as u8
}

/// [`block_byte`] as a function of the target position.
pub open spec fn block_fn(src: Seq<u8>, sw: nat, sh: nat, tw: nat, th: nat, bpp: nat) -> spec_fn(
    nat,
    nat,
    nat,
) -> u8 {
    |x: nat, y: nat, c: nat| block_byte(src, sw, sh, tw, th, bpp, x, y, c)
}

/// The `tw × th` buffer of block means of a `sw × sh` source.
pub open spec fn block_averaged(src: Seq<u8>, sw: nat, sh: nat, tw: nat, th: nat, bpp: nat) -> Seq<u8> {
    grid_seq(tw, th, bpp, block_fn(src, sw, sh, tw, th, bpp))
}

/// Channel `c` of target pixel `(x, y)` when a `sw × sh` source is expanded to
/// `tw × th` by box filtering.
///
/// The footprint of target column `x` is the source columns from
/// `⌊x · sw / tw⌋` up to, not including, `⌈(x + 1) · sw / tw⌉`, and likewise for
/// rows; the byte is the truncated mean over the footprint, each source pixel
/// counted once.
pub open spec fn footprint_byte(src: Seq<u8>, sw: nat, sh: nat, tw: nat, th: nat, bpp: nat, x: nat, y: nat, c: nat) -> u8 {
    let x0 = scaled_floor(x, sw, tw);
    let x1 = scaled_ceil(x + 1, sw, tw);
    let y0 = scaled_floor(y, sh, th);
    let y1 = scaled_ceil(y + 1, sh, th);
    rect_mean(src, sw, bpp, c, x0, y0, (x1 - x0) as nat, (y1 - y0) as nat) as u8
}

/// [`footprint_byte`] as a function of the target position.
pub open spec fn footprint_fn(src: Seq<u8>, sw: nat, sh: nat, tw: nat, th: nat, bpp: nat) -> spec_fn(
    nat,
    nat,
    nat,
) -> u8 {
    |x: nat, y: nat, c: nat| footprint_byte(src, sw, sh, tw, th, bpp, x, y, c)
}

/// The `tw × th` buffer of footprint means of a `sw × sh` source.
pub open spec fn footprint_averaged(src: Seq<u8>, sw: nat, sh: nat, tw: nat, th: nat, bpp: nat) -> Seq<u8> {
    grid_seq(tw, th, bpp, footprint_fn(src, sw, sh, tw, th, bpp))
}

/// Block averaging of a buffer whose bytes all equal `v` gives a buffer whose
/// bytes all equal `v`: a uniform block has no rounding to lose.
pub proof fn lemma_block_uniform(src: Seq<u8>, sw: nat, sh: nat, tw: nat, th: nat, bpp: nat, v: u8)
    requires
        is_uniform(src, v),
        src.len() == sw * sh * bpp,
        0 < tw <= sw,
        0 < th <= sh,
    ensures
        is_uniform(block_averaged(src, sw, sh, tw, th, bpp), v),
{
    let f = block_fn(src, sw, sh, tw, th, bpp);
    let bw = sw / tw;
    let bh = sh / th;
    assert(bw >= 1 && tw * bw <= sw) by (nonlinear_arith)
        requires
            0 < tw <= sw,
            bw == sw / tw,
    ;
    assert(bh >= 1 && th * bh <= sh) by (nonlinear_arith)
        requires
            0 < th <= sh,
            bh == sh / th,
    ;
    assert forall|x: nat, y: nat, c: nat| x < tw && y < th && c < bpp implies #[trigger] f(x, y, c) == v by {
        assert(x * bw + bw <= sw) by (nonlinear_arith)
            requires
                x < tw,
                tw * bw <= sw,
        ;
        assert(y * bh + bh <= sh) by (nonlinear_arith)
            requires
                y < th,
                th * bh <= sh,
        ;
        lemma_uniform_rect_mean(src, sw, sh, bpp, c, x * bw, y * bh, bw, bh, v);
    }
    lemma_uniform_grid(tw, th, bpp, f, v);
}

/// Footprint averaging of a buffer whose bytes all equal `v` gives a buffer
/// whose bytes all equal `v`.
pub proof fn lemma_footprint_uniform(src: Seq<u8>, sw: nat, sh: nat, tw: nat, th: nat, bpp: nat, v: u8)
    requires
        is_uniform(src, v),
        src.len() == sw * sh * bpp,
        sw > 0,
        sh > 0,
    ensures
        is_uniform(footprint_averaged(src, sw, sh, tw, th, bpp), v),
{
    let f = footprint_fn(src, sw, sh, tw, th, bpp);
    assert forall|x: nat, y: nat, c: nat| x < tw && y < th && c < bpp implies #[trigger] f(x, y, c) == v by {
        lemma_footprint_bounds(x, sw, tw);
        lemma_footprint_bounds(y, sh, th);
        let x0 = scaled_floor(x, sw, tw);
        let x1 = scaled_ceil(x + 1, sw, tw);
        let y0 = scaled_floor(y, sh, th);
        let y1 = scaled_ceil(y + 1, sh, th);
        lemma_uniform_rect_mean(src, sw, sh, bpp, c, x0, y0, (x1 - x0) as nat, (y1 - y0) as nat, v);
    }
    lemma_uniform_grid(tw, th, bpp, f, v);
}

/// The source span `[lo, hi)` that target coordinate `t` covers when `num`
/// source pixels are spread over `den` target pixels; it is never empty and
/// never leaves the source.
fn footprint(t: usize, num: usize, den: usize) -> (r: (usize, usize))
    requires
        t < den,
        num > 0,
    ensures
        r.0 == scaled_floor(t as nat, num as nat, den as nat),
        r.1 == scaled_ceil((t + 1) as nat, num as nat, den as nat),
        r.0 < r.1 <= num,
{
    proof {
        lemma_footprint_bounds(t as nat, num as nat, den as nat);
    }
    let lo = floor_scaled(t, num, den);
    let hi = ceil_scaled(t + 1, num, den);
    (lo, hi)
}

/// Shrinks a `sw × sh` buffer of `bpp`-byte pixels to a `tw × th` buffer of
/// `channels`-byte pixels by averaging each block of `⌊sw / tw⌋ × ⌊sh / th⌋`
/// source pixels; the first `channels` channels are kept.
pub(crate) fn block_average(
    src: &Vec<u8>,
    sw: usize,
    sh: usize,
    tw: usize,
    th: usize,
    bpp: usize,
    channels: usize,
) -> (out: Vec<u8>)
    requires
        0 < tw <= sw,
        0 < th <= sh,
        channels <= bpp,
        src@.len() == sw * sh * bpp,
    ensures
        out@ == grid_seq(
            tw as nat,
            th as nat,
            channels as nat,
            block_fn(src@, sw as nat, sh as nat, tw as nat, th as nat, bpp as nat),
        ),
{
    let ghost f = block_fn(src@, sw as nat, sh as nat, tw as nat, th as nat, bpp as nat);
    let ghost model = grid_seq(tw as nat, th as nat, channels as nat, f);
    let bw = sw / tw;
    let bh = sh / th;
    assert(bw >= 1 && tw * bw <= sw) by (nonlinear_arith)
        requires
            0 < tw <= sw,
            bw == sw as int / tw as int,
    ;
    assert(bh >= 1 && th * bh <= sh) by (nonlinear_arith)
        requires
            0 < th <= sh,
            bh == sh as int / th as int,
    ;
    let mut out: Vec<u8> = Vec::new();
    let mut y: usize = 0;
    assert(0 * tw * channels == 0) by (nonlinear_arith);
    while y < th
        invariant
            y <= th,
            0 < tw <= sw,
            0 < th <= sh,
            bw == sw / tw,
            bh == sh / th,
            bw >= 1,
            bh >= 1,
            tw * bw <= sw,
            th * bh <= sh,
            src@.len() == sw * sh * bpp,
            channels <= bpp,
            f == block_fn(src@, sw as nat, sh as nat, tw as nat, th as nat, bpp as nat),
            model == grid_seq(tw as nat, th as nat, channels as nat, f),
            out@.len() == y * tw * channels,
            forall|j: int| 0 <= j < out@.len() ==> out@[j] == model[j],
        decreases th - y,
    {
        assert(y * bh + bh <= sh) by (nonlinear_arith)
            requires
                y < th,
                th * bh <= sh,
                bh >= 1,
        ;
        let y0 = y * bh;
        let mut x: usize = 0;
        while x < tw
            invariant
                x <= tw,
                y < th,
                0 < tw <= sw,
                0 < th <= sh,
                bw == sw / tw,
                bh == sh / th,
                bw >= 1,
                bh >= 1,
                tw * bw <= sw,
                y0 == y * bh,
                y0 + bh <= sh,
                src@.len() == sw * sh * bpp,
                channels <= bpp,
                f == block_fn(src@, sw as nat, sh as nat, tw as nat, th as nat, bpp as nat),
                model == grid_seq(tw as nat, th as nat, channels as nat, f),
                out@.len() == (y * tw + x) * channels,
                forall|j: int| 0 <= j < out@.len() ==> out@[j] == model[j],
            decreases tw - x,
        {
            assert(x * bw + bw <= sw) by (nonlinear_arith)
                requires
                    x < tw,
                    tw * bw <= sw,
                    bw >= 1,
            ;
            let x0 = x * bw;
            let mut c: usize = 0;
            while c < channels
                invariant
                    c <= channels,
                    channels <= bpp,
                    x < tw,
                    y < th,
                    bw == sw / tw,
                    bh == sh / th,
                    bw >= 1,
                    bh >= 1,
                    x0 == x * bw,
                    y0 == y * bh,
                    x0 + bw <= sw,
                    y0 + bh <= sh,
                    src@.len() == sw * sh * bpp,
                    f == block_fn(src@, sw as nat, sh as nat, tw as nat, th as nat, bpp as nat),
                    model == grid_seq(tw as nat, th as nat, channels as nat, f),
                    out@.len() == (y * tw + x) * channels + c,
                    forall|j: int| 0 <= j < out@.len() ==> out@[j] == model[j],
                decreases channels - c,
            {
                proof {
                    lemma_grid_seq_at(tw as nat, th as nat, channels as nat, f, x as nat, y as nat, c as nat);
                }
                let b = block_mean(src, sw, sh, bpp, c, x0, y0, bw, bh);
                out.push(b);
                c = c + 1;
            }
            assert((y * tw + x) * channels + channels == (y * tw + (x + 1)) * channels) by (nonlinear_arith);
            x = x + 1;
        }
        assert((y * tw + tw) * channels == (y + 1) * tw * channels) by (nonlinear_arith);
        y = y + 1;
    }
    assert(th * tw * channels == tw * th * channels) by (nonlinear_arith);
    assert(out@ =~= model);
    out
}

/// Expands a `sw × sh` buffer to `tw × th`, each target pixel the mean of the
/// source pixels under its footprint.
fn footprint_average(src: &Vec<u8>, sw: usize, sh: usize, tw: usize, th: usize, bpp: usize) -> (out: Vec<u8>)
    requires
        sw > 0,
        sh > 0,
        src@.len() == sw * sh * bpp,
    ensures
        out@ == footprint_averaged(src@, sw as nat, sh as nat, tw as nat, th as nat, bpp as nat),
{
    let ghost f = footprint_fn(src@, sw as nat, sh as nat, tw as nat, th as nat, bpp as nat);
    let ghost model = footprint_averaged(src@, sw as nat, sh as nat, tw as nat, th as nat, bpp as nat);
    let mut out: Vec<u8> = Vec::new();
    let mut y: usize = 0;
    assert(0 * tw * bpp == 0) by (nonlinear_arith);
    while y < th
        invariant
            y <= th,
            sw > 0,
            sh > 0,
            src@.len() == sw * sh * bpp,
            f == footprint_fn(src@, sw as nat, sh as nat, tw as nat, th as nat, bpp as nat),
            model == grid_seq(tw as nat, th as nat, bpp as nat, f),
            out@.len() == y * tw * bpp,
            forall|j: int| 0 <= j < out@.len() ==> out@[j] == model[j],
        decreases th - y,
    {
        let (y0, y1) = footprint(y, sh, th);
        let mut x: usize = 0;
        while x < tw
            invariant
                x <= tw,
                y < th,
                sw > 0,
                sh > 0,
                y0 == scaled_floor(y as nat, sh as nat, th as nat),
                y1 == scaled_ceil((y + 1) as nat, sh as nat, th as nat),
                y0 < y1 <= sh,
                src@.len() == sw * sh * bpp,
                f == footprint_fn(src@, sw as nat, sh as nat, tw as nat, th as nat, bpp as nat),
                model == grid_seq(tw as nat, th as nat, bpp as nat, f),
                out@.len() == (y * tw + x) * bpp,
                forall|j: int| 0 <= j < out@.len() ==> out@[j] == model[j],
            decreases tw - x,
        {
            let (x0, x1) = footprint(x, sw, tw);
            let mut c: usize = 0;
            while c < bpp
                invariant
                    c <= bpp,
                    x < tw,
                    y < th,
                    x0 == scaled_floor(x as nat, sw as nat, tw as nat),
                    x1 == scaled_ceil((x + 1) as nat, sw as nat, tw as nat),
                    x0 < x1 <= sw,
                    y0 == scaled_floor(y as nat, sh as nat, th as nat),
                    y1 == scaled_ceil((y + 1) as nat, sh as nat, th as nat),
                    y0 < y1 <= sh,
                    src@.len() == sw * sh * bpp,
                    f == footprint_fn(src@, sw as nat, sh as nat, tw as nat, th as nat, bpp as nat),
                    model == grid_seq(tw as nat, th as nat, bpp as nat, f),
                    out@.len() == (y * tw + x) * bpp + c,
                    forall|j: int| 0 <= j < out@.len() ==> out@[j] == model[j],
                decreases bpp - c,
            {
                proof {
                    lemma_grid_seq_at(tw as nat, th as nat, bpp as nat, f, x as nat, y as nat, c as nat);
                }
                let b = block_mean(src, sw, sh, bpp, c, x0, y0, x1 - x0, y1 - y0);
                out.push(b);
                c = c + 1;
            }
            assert((y * tw + x) * bpp + bpp == (y * tw + (x + 1)) * bpp) by (nonlinear_arith);
            x = x + 1;
        }
        assert((y * tw + tw) * bpp == (y + 1) * tw * bpp) by (nonlinear_arith);
        y = y + 1;
    }
    assert(th * tw * bpp == tw * th * bpp) by (nonlinear_arith);
    assert(out@ =~= model);
    out
}

/// Resampling by averaging: the downsample leg takes the mean of each source
/// block, the upsample leg the mean of each target pixel's source footprint.
pub struct AverageAreaInterpolation;

impl InterpolationAlgorithm for AverageAreaInterpolation {
    open spec fn downsampled(&self, src: Seq<u8>, sw: nat, sh: nat, tw: nat, th: nat, bpp: nat) -> Seq<u8> {
        block_averaged(src, sw, sh, tw, th, bpp)
    }

    open spec fn upsampled(&self, src: Seq<u8>, sw: nat, sh: nat, tw: nat, th: nat, bpp: nat) -> Seq<u8> {
        footprint_averaged(src, sw, sh, tw, th, bpp)
    }

    fn downsample(
        &self,
        src_pixels: Vec<u8>,
        src_width: usize,
        src_height: usize,
        target_width: usize,
        target_height: usize,
        pixel_format: PixelFormat,
    ) -> (r: Result<Vec<u8>, InterpolationError>) {
        if target_height > src_height || target_width > src_width {
            return Err(target_larger_error(target_width, target_height, src_width, src_height));
        }
        let pixel_bytes = pixel_format.pixel_bytes();
        Ok(block_average(&src_pixels, src_width, src_height, target_width, target_height, pixel_bytes, pixel_bytes))
    }

    fn upsample(
        &self,
        src_pixels: Vec<u8>,
        src_width: usize,
        src_height: usize,
        target_width: usize,
        target_height: usize,
        pixel_format: PixelFormat,
    ) -> (r: Result<Vec<u8>, InterpolationError>) {
        let pixel_bytes = pixel_format.pixel_bytes();
        assert(target_width * target_height <= target_width * target_height * pixel_bytes) by (nonlinear_arith)
            requires
                0 <= target_width * target_height,
                pixel_bytes >= 1,
        ;
        let target_len = target_width * target_height * pixel_bytes;
        if target_len <= src_pixels.len() {
            return Err(source_larger_error(src_pixels.len(), target_len));
        }
        Ok(footprint_average(&src_pixels, src_width, src_height, target_width, target_height, pixel_bytes))
    }
}

} // verus!
