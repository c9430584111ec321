use vstd::prelude::*;
use crate::average::{
    AverageAreaInterpolation, block_averaged, footprint_averaged, lemma_block_uniform,
    lemma_footprint_uniform,
};
use crate::error::UserFacingError;
use crate::format::{ImageInfo, bytes_per_pixel};
use crate::grid::is_uniform;
use crate::nearest::{NearestNeighborInterpolation, lemma_nearest_uniform, nearest_resampled};
use crate::quantize::{lemma_full_depth_keeps, quantized_all};
use crate::pipeline::{reduced, run_error, run_fits, run_interpolation};

verus! {

/// Which resampling strategy a run uses for both of its legs.
#[derive(Clone, Copy, Debug, PartialEq, Eq, Structural)]
pub enum Algorithm {
    /// [`NearestNeighborInterpolation`].
    Nearestneighbor,
    /// [`AverageAreaInterpolation`].
    AverageArea,
}

impl Algorithm {
    /// Short name of the strategy, as used in file names.
    pub fn as_str(&self) -> (r: &'static str)
        ensures
            r@ == match *self {
                Algorithm::Nearestneighbor => "nearest"@,
                Algorithm::AverageArea => "average"@,
            },
    {
        match self {
            Algorithm::Nearestneighbor => "nearest",
            Algorithm::AverageArea => "average",
        }
    }
}

/// What the user asked for: the image to read, where to write the result, the
/// side of the virtual grid, the bits kept per channel and the strategy.
#[derive(Debug, PartialEq, Eq)]
pub struct Args {
    /// Path of the image to read.
    pub input: String,
    /// Path to write the result to, if the user gave one.
    pub output: Option<String>,
    /// Side length of the square virtual grid.
    pub resolution: u16,
    /// Bits of intensity kept per channel.
    pub bit_depth: u8,
    /// Strategy; Average-Area when none was given.
    pub algorithm: Option<Algorithm>,
}

/// The strategy that a run with option `a` uses.
pub open spec fn chosen_algorithm(a: Option<Algorithm>) -> Algorithm {
    match a {
        Some(alg) => alg,
        None => Algorithm::AverageArea,
    }
}

/// The buffer a successful run with strategy `alg` produces (see [`reduced`]).
pub open spec fn reduced_by(alg: Algorithm, src: Seq<u8>, w: nat, h: nat, res: nat, bpp: nat, bit_depth: nat) -> Seq<u8> {
    match alg {
        Algorithm::Nearestneighbor => reduced(NearestNeighborInterpolation, src, w, h, res, bpp, bit_depth),
        Algorithm::AverageArea => reduced(AverageAreaInterpolation, src, w, h, res, bpp, bit_depth),
    }
}

/// Reduces `pixels`, the decoded image that `info` describes, as `args` asks.
pub fn run(args: &Args, pixels: Vec<u8>, info: ImageInfo) -> (r: Result<Vec<u8>, UserFacingError>)
    requires
        args.resolution > 0,
        1 <= args.bit_depth <= 8,
        pixels@.len() == info.width * info.height * bytes_per_pixel(info.pixel_format),
    ensures
        r is Ok <==> run_fits(
            info.width as nat,
            info.height as nat,
            args.resolution as nat,
            bytes_per_pixel(info.pixel_format),
        ),
        r matches Ok(v) ==> v@ == reduced_by(
            chosen_algorithm(args.algorithm),
            pixels@,
            info.width as nat,
            info.height as nat,
            args.resolution as nat,
            bytes_per_pixel(info.pixel_format),
            args.bit_depth as nat,
        ),
        r matches Err(UserFacingError::InterpolationError(e)) ==> run_error(
            e,
            info.width as nat,
            info.height as nat,
            args.resolution as nat,
            bytes_per_pixel(info.pixel_format),
        ),
{
    let algo = match args.algorithm {
        Some(a) => a,
        None => Algorithm::AverageArea,
    };
    let result = match algo {
        Algorithm::AverageArea => run_interpolation(
            &AverageAreaInterpolation,
            pixels,
            args.resolution,
            args.bit_depth,
            info,
        ),
        Algorithm::Nearestneighbor => run_interpolation(
            &NearestNeighborInterpolation,
            pixels,
            args.resolution,
            args.bit_depth,
            info,
        ),
    };
    match result {
        Ok(v) => Ok(v),
        Err(e) => Err(UserFacingError::from(e)),
    }
}

/// A run at any virtual resolution from one up to the image's shorter side
/// succeeds and gives back as many bytes as it was given, whichever strategy it
/// uses, unless that resolution equals both sides of the image: the virtual
/// grid is then the image itself, and expanding it back cannot enlarge it.
pub proof fn lemma_run_keeps_length(alg: Algorithm, src: Seq<u8>, info: ImageInfo, res: u16, bit_depth: u8)
    requires
        1 <= res <= info.width,
        res <= info.height,
        !(res == info.width && res == info.height),
        src.len() == info.width * info.height * bytes_per_pixel(info.pixel_format),
    ensures
        run_fits(info.width as nat, info.height as nat, res as nat, bytes_per_pixel(info.pixel_format)),
        reduced_by(
            alg,
            src,
            info.width as nat,
            info.height as nat,
            res as nat,
            bytes_per_pixel(info.pixel_format),
            bit_depth as nat,
        ).len() == src.len(),
{
    let w = info.width as nat;
    let h = info.height as nat;
    let r = res as nat;
    let bpp = bytes_per_pixel(info.pixel_format);
    if r < w {
        vstd::arithmetic::mul::lemma_mul_inequality(r as int, h as int, r as int);
        vstd::arithmetic::mul::lemma_mul_strict_inequality(r as int, w as int, h as int);
        assert(r * r <= h * r);
        assert(r * h < w * h);
    } else {
        vstd::arithmetic::mul::lemma_mul_strict_inequality(r as int, h as int, r as int);
        assert(r * r < h * r);
    }
    assert(r * r < w * h);
    assert(r * r * bpp < w * h * bpp) by (nonlinear_arith)
        requires
            r * r < w * h,
            bpp >= 1,
    ;
}

/// At eight bits per channel an image whose bytes all equal `v` comes out of a
/// successful run unchanged, whichever strategy the run uses.
pub proof fn lemma_uniform_fixed_point(alg: Algorithm, src: Seq<u8>, info: ImageInfo, res: u16, v: u8)
    requires
        is_uniform(src, v),
        src.len() == info.width * info.height * bytes_per_pixel(info.pixel_format),
        res > 0,
        run_fits(info.width as nat, info.height as nat, res as nat, bytes_per_pixel(info.pixel_format)),
    ensures
        reduced_by(
            alg,
            src,
            info.width as nat,
            info.height as nat,
            res as nat,
            bytes_per_pixel(info.pixel_format),
            8,
        ) == src,
{
    let w = info.width as nat;
    let h = info.height as nat;
    let r = res as nat;
    let bpp = bytes_per_pixel(info.pixel_format);
    let up = match alg {
        Algorithm::Nearestneighbor => {
            let down = nearest_resampled(src, w, h, r, r, bpp);
            lemma_nearest_uniform(src, w, h, r, r, bpp, v);
            lemma_nearest_uniform(down, r, r, w, h, bpp, v);
            nearest_resampled(down, r, r, w, h, bpp)
        },
        Algorithm::AverageArea => {
            let down = block_averaged(src, w, h, r, r, bpp);
            lemma_block_uniform(src, w, h, r, r, bpp, v);
            lemma_footprint_uniform(down, r, r, w, h, bpp, v);
            footprint_averaged(down, r, r, w, h, bpp)
        },
    };
    assert(up =~= src);
    lemma_full_depth_keeps(up);
}

} // verus!
