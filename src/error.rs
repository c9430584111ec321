use vstd::prelude::*;
use vstd::string::*;
use crate::text::{decimal, push_decimal};

verus! {

/// Why a resampling step refused its input.
#[derive(Debug, PartialEq, Eq)]
pub enum InterpolationError {
    /// The target grid is wider or taller than the source grid.
    DownsampleTargetLargerThanSource(String),
    /// The upsampled buffer would not be larger than its source.
    UpsampleSourceLargerThanTarget(String),
    /// The width of a pixel could not be determined from its format. Every
    /// [`crate::format::PixelFormat`] has a known width, so the strategies of this
    /// library never return it.
    ImageMetadataResolve,
}

/// The text shown to the user for error `e`.
pub open spec fn interpolation_text(e: InterpolationError) -> Seq<char> {
    match e {
        InterpolationError::DownsampleTargetLargerThanSource(m) => "Target dimensions are larger than source dimensions: "@
            + m@,
        InterpolationError::UpsampleSourceLargerThanTarget(m) => "Source dimensions are larger than target dimensions: "@
            + m@,
        InterpolationError::ImageMetadataResolve => "Failed to resolve image metadata"@,
    }
}

impl InterpolationError {
    /// The text shown to the user for this error.
    pub fn message(&self) -> (r: String)
        ensures
            r@ == interpolation_text(*self),
    {
        match self {
            InterpolationError::DownsampleTargetLargerThanSource(m) => {
                let mut r = String::from_str("Target dimensions are larger than source dimensions: ");
                r.append(m.as_str());
                r
            },
            InterpolationError::UpsampleSourceLargerThanTarget(m) => {
                let mut r = String::from_str("Source dimensions are larger than target dimensions: ");
                r.append(m.as_str());
                r
            },
            InterpolationError::ImageMetadataResolve => String::from_str("Failed to resolve image metadata"),
        }
    }
}

/// Description carried by [`InterpolationError::DownsampleTargetLargerThanSource`].
pub open spec fn target_larger_text(tw: nat, th: nat, sw: nat, sh: nat) -> Seq<char> {
    "Target resolution ("@ + decimal(tw) + ", "@ + decimal(th) + ") > Source resolution ("@
        + decimal(sw) + ", "@ + decimal(sh) + ")"@
}

/// Description carried by [`InterpolationError::UpsampleSourceLargerThanTarget`].
pub open spec fn source_larger_text(src_len: nat, tgt_len: nat) -> Seq<char> {
    "Source pixel vec is "@ + decimal(src_len) + ", target vec is "@ + decimal(tgt_len)
}

/// The error of a downsample to a `tw × th` grid from a `sw × sh` source.
pub fn target_larger_error(tw: usize, th: usize, sw: usize, sh: usize) -> (e: InterpolationError)
    ensures
        e matches InterpolationError::DownsampleTargetLargerThanSource(m) && m@ == target_larger_text(
            tw as nat,
            th as nat,
            sw as nat,
            sh as nat,
        ),
{
    let mut m = String::from_str("Target resolution (");
    push_decimal(&mut m, tw);
    m.append(", ");
    push_decimal(&mut m, th);
    m.append(") > Source resolution (");
    push_decimal(&mut m, sw);
    m.append(", ");
    push_decimal(&mut m, sh);
    m.append(")");
    InterpolationError::DownsampleTargetLargerThanSource(m)
}

/// The error of an upsample from `src_len` bytes to `tgt_len` bytes.
pub fn source_larger_error(src_len: usize, tgt_len: usize) -> (e: InterpolationError)
    ensures
        e matches InterpolationError::UpsampleSourceLargerThanTarget(m) && m@ == source_larger_text(
            src_len as nat,
            tgt_len as nat,
        ),
{
    let mut m = String::from_str("Source pixel vec is ");
    push_decimal(&mut m, src_len);
    m.append(", target vec is ");
    push_decimal(&mut m, tgt_len);
    InterpolationError::UpsampleSourceLargerThanTarget(m)
}

/// Failure of a whole run, as reported to the user.
#[derive(Debug, PartialEq, Eq)]
pub enum UserFacingError {
    /// One of the resampling steps failed.
    InterpolationError(InterpolationError),
}

impl UserFacingError {
    /// The text shown to the user for this error.
    pub fn message(&self) -> (r: String)
        ensures
            r@ == match *self {
                UserFacingError::InterpolationError(e) => "Failed to interpolate image: "@ + interpolation_text(e),
            },
    {
        match self {
            UserFacingError::InterpolationError(e) => {
                let mut r = String::from_str("Failed to interpolate image: ");
                let inner = e.message();
                r.append(inner.as_str());
                r
            },
        }
    }
}

impl From<InterpolationError> for UserFacingError {
    fn from(e: InterpolationError) -> (r: UserFacingError)
        ensures
            r == UserFacingError::InterpolationError(e),
    {
        UserFacingError::InterpolationError(e)
    }
}

impl vstd::std_specs::convert::FromSpecImpl<InterpolationError> for UserFacingError {
    open spec fn obeys_from_spec() -> bool {
        true
    }

    open spec fn from_spec(e: InterpolationError) -> UserFacingError {
        UserFacingError::InterpolationError(e)
    }
}

} // verus!
