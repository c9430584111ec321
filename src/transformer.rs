use vstd::prelude::*;
use crate::average::{block_average, block_fn};
use crate::format::{PixelFormat, bytes_per_pixel};
use crate::grid::{byte_offset, grid_seq, lemma_grid_seq_at, lemma_offset_in_bounds};

verus! {

/// Shrinks a `width × height` image to `new_width × new_height` by averaging
/// blocks of `⌊width / new_width⌋ × ⌊height / new_height⌋` pixels, keeping the
/// first three channels of each pixel.
pub fn down_sample(
    vec: Vec<u8>,
    width: usize,
    height: usize,
    new_height: usize,
    new_width: usize,
    pixel_format: PixelFormat,
) -> (r: Vec<u8>)
    requires
        0 < new_width <= width,
        0 < new_height <= height,
        bytes_per_pixel(pixel_format) >= 3,
        vec@.len() == width * height * bytes_per_pixel(pixel_format),
    ensures
        r@ == grid_seq(
            new_width as nat,
            new_height as nat,
            3,
            block_fn(
                vec@,
                width as nat,
                height as nat,
                new_width as nat,
                new_height as nat,
                bytes_per_pixel(pixel_format),
            ),
        ),
{
    let pixel_bytes = pixel_format.pixel_bytes();
    block_average(&vec, width, height, new_width, new_height, pixel_bytes, 3)
}

/// Channel `c` of pixel `(x, y)` when an `ow × oh` image is enlarged to
/// `nw × nh` by repeating each pixel over a `⌊nw / ow⌋ × ⌊nh / oh⌋` block.
///
/// The first three channels come from the source pixel whose block holds
/// `(x, y)`; further channels, and pixels past the last whole block, are zero.
pub open spec fn replicated_byte(src: Seq<u8>, ow: nat, oh: nat, nw: nat, nh: nat, bpp: nat, x: nat, y: nat, c: nat) -> u8 {
    let bx = nw / ow;
    let by = nh / oh;
    if c < 3 && x < ow * bx && y < oh * by {
        src[byte_offset(ow, bpp, x / bx, y / by, c)]
    } else {
        0
    }
}

/// [`replicated_byte`] as a function of the target position.
pub open spec fn replicated_fn(src: Seq<u8>, ow: nat, oh: nat, nw: nat, nh: nat, bpp: nat) -> spec_fn(
    nat,
    nat,
    nat,
) -> u8 {
    |x: nat, y: nat, c: nat| replicated_byte(src, ow, oh, nw, nh, bpp, x, y, c)
}

/// A coordinate inside the `n · b` covered span lies in block `t / b < n`.
proof fn lemma_block_of(t: nat, n: nat, b: nat)
    requires
        t < n * b,
    ensures
        b > 0,
        t / b < n,
{
    assert(b > 0) by (nonlinear_arith)
        requires
            t < n * b,
            t >= 0,
    ;
    assert(t / b < n) by (nonlinear_arith)
        requires
            t < n * b,
            b > 0,
    ;
}

/// Enlarges an `original_width × original_height` image to
/// `new_width × new_height` by repeating each pixel over a block of
/// `⌊new_width / original_width⌋ × ⌊new_height / original_height⌋` pixels.
pub fn up_sample(
    vec: Vec<u8>,
    original_height: usize,
    original_width: usize,
    new_height: usize,
    new_width: usize,
    pixel_format: PixelFormat,
) -> (r: Vec<u8>)
    requires
        original_width > 0,
        original_height > 0,
        bytes_per_pixel(pixel_format) >= 3,
        vec@.len() == original_width * original_height * bytes_per_pixel(pixel_format),
        new_width * new_height * bytes_per_pixel(pixel_format) <= usize::MAX,
    ensures
        r@ == grid_seq(
            new_width as nat,
            new_height as nat,
            bytes_per_pixel(pixel_format),
            replicated_fn(
                vec@,
                original_width as nat,
                original_height as nat,
                new_width as nat,
                new_height as nat,
                bytes_per_pixel(pixel_format),
            ),
        ),
{
    let bpp = pixel_format.pixel_bytes();
    let ow = original_width;
    let oh = original_height;
    let nw = new_width;
    let nh = new_height;
    let ghost f = replicated_fn(vec@, ow as nat, oh as nat, nw as nat, nh as nat, bpp as nat);
    let ghost model = grid_seq(nw as nat, nh as nat, bpp as nat, f);
    let bx = nw / ow;
    let by = nh / oh;
    assert(ow * bx <= nw && oh * by <= nh) by (nonlinear_arith)
        requires
            bx == nw as int / ow as int,
            by == nh as int / oh as int,
            ow > 0,
            oh > 0,
    ;
    let len: usize = vec.len();
    assert(ow * oh <= ow * oh * bpp) by (nonlinear_arith)
        requires
            0 <= ow * oh,
            bpp >= 1,
    ;
    let cover_x = ow * bx;
    let cover_y = oh * by;
    let mut out: Vec<u8> = Vec::new();
    let mut y: usize = 0;
    assert(0 * nw * bpp == 0) by (nonlinear_arith);
    while y < nh
        invariant
            y <= nh,
            ow > 0,
            oh > 0,
            bpp >= 3,
            bx == nw / ow,
            by == nh / oh,
            cover_x == ow * bx,
            cover_y == oh * by,
            vec@.len() == ow * oh * bpp,
            len == vec@.len(),
            ow * oh <= len,
            f == replicated_fn(vec@, ow as nat, oh as nat, nw as nat, nh as nat, bpp as nat),
            model == grid_seq(nw as nat, nh as nat, bpp as nat, f),
            out@.len() == y * nw * bpp,
            forall|j: int| 0 <= j < out@.len() ==> out@[j] == model[j],
        decreases nh - y,
    {
        let mut x: usize = 0;
        while x < nw
            invariant
                x <= nw,
                y < nh,
                ow > 0,
                oh > 0,
                bpp >= 3,
                bx == nw / ow,
                by == nh / oh,
                cover_x == ow * bx,
                cover_y == oh * by,
                vec@.len() == ow * oh * bpp,
                len == vec@.len(),
                ow * oh <= len,
                f == replicated_fn(vec@, ow as nat, oh as nat, nw as nat, nh as nat, bpp as nat),
                model == grid_seq(nw as nat, nh as nat, bpp as nat, f),
                out@.len() == (y * nw + x) * bpp,
                forall|j: int| 0 <= j < out@.len() ==> out@[j] == model[j],
            decreases nw - x,
        {
            let mut c: usize = 0;
            while c < bpp
                invariant
                    c <= bpp,
                    x < nw,
                    y < nh,
                    ow > 0,
                    oh > 0,
                    bpp >= 3,
                    bx == nw / ow,
                    by == nh / oh,
                    cover_x == ow * bx,
                    cover_y == oh * by,
                    vec@.len() == ow * oh * bpp,
                    len == vec@.len(),
                    ow * oh <= len,
                    f == replicated_fn(vec@, ow as nat, oh as nat, nw as nat, nh as nat, bpp as nat),
                    model == grid_seq(nw as nat, nh as nat, bpp as nat, f),
                    out@.len() == (y * nw + x) * bpp + c,
                    forall|j: int| 0 <= j < out@.len() ==> out@[j] == model[j],
                decreases bpp - c,
            {
                proof {
                    lemma_grid_seq_at(nw as nat, nh as nat, bpp as nat, f, x as nat, y as nat, c as nat);
                }
                let b = if c < 3 && x < cover_x && y < cover_y {
                    proof {
                        lemma_block_of(x as nat, ow as nat, bx as nat);
                        lemma_block_of(y as nat, oh as nat, by as nat);
                        lemma_offset_in_bounds(
                            ow as nat,
                            oh as nat,
                            bpp as nat,
                            (x / bx) as nat,
                            (y / by) as nat,
                            c as nat,
                        );
                    }
                    vec[((y / by) * ow + x / bx) * bpp + c]
                } else {
                    0
                };
                out.push(b);
                c = c + 1;
            }
            assert((y * nw + x) * bpp + bpp == (y * nw + (x + 1)) * bpp) by (nonlinear_arith);
            x = x + 1;
        }
        assert((y * nw + nw) * bpp == (y + 1) * nw * bpp) by (nonlinear_arith);
        y = y + 1;
    }
    assert(nh * nw * bpp == nw * nh * bpp) by (nonlinear_arith);
    assert(out@ =~= model);
    out
}

} // verus!
