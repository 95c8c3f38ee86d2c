//! Run configuration: output format, bounding box, quality, worker count.
//!
//! A configuration is built once at startup, validated, and then shared
//! read-only by every job of the run.

use vstd::prelude::*;

verus! {

/// Output encodings the pipeline can produce.
#[derive(Clone, Copy, PartialEq, Eq, Structural, Debug)]
pub enum OutputFormat {
    Jpeg,
    Png,
    Webp,
}

/// The file extension implied by an output format, as ASCII bytes
/// (`jpg`, `png` or `webp`).
pub open spec fn spec_extension_for(f: OutputFormat) -> Seq<u8> {
    match f {
        OutputFormat::Jpeg => seq![106u8, 112u8, 103u8],
        OutputFormat::Png => seq![112u8, 110u8, 103u8],
        OutputFormat::Webp => seq![119u8, 101u8, 98u8, 112u8],
    }
}

/// Extension written for thumbnails of the given format: `jpg`, `png` or `webp`.
pub fn extension_for(f: OutputFormat) -> (r: Vec<u8>)
    ensures
        r@ == spec_extension_for(f),
{
    let mut v: Vec<u8> = Vec::new();
    match f {
        OutputFormat::Jpeg => {
            v.push(106);
            v.push(112);
            v.push(103);
        },
        OutputFormat::Png => {
            v.push(112);
            v.push(110);
            v.push(103);
        },
        OutputFormat::Webp => {
            v.push(119);
            v.push(101);
            v.push(98);
            v.push(112);
        },
    }
    proof {
        assert(v@ =~= spec_extension_for(f));
    }
    v
}

/// The quality value that actually reaches the encoder: the requested value
/// for JPEG, and a fixed constant for the formats that take no quality.
pub open spec fn spec_effective_quality(f: OutputFormat, quality: u8) -> u8 {
    if f is Jpeg {
        quality
    } else {
        0
    }
}

/// Normalizes the quality setting before encoding: only JPEG consumes it.
pub fn effective_quality(f: OutputFormat, quality: u8) -> (r: u8)
    ensures
        r == spec_effective_quality(f, quality),
{
    match f {
        OutputFormat::Jpeg => quality,
        OutputFormat::Png => 0,
        OutputFormat::Webp => 0,
    }
}

/// For every format other than JPEG, the requested quality has no influence
/// on what reaches the encoder.
pub proof fn lemma_quality_ignored_unless_jpeg(f: OutputFormat, q1: u8, q2: u8)
    requires
        !(f is Jpeg),
    ensures
        spec_effective_quality(f, q1) == spec_effective_quality(f, q2),
{
}

/// Reasons a run configuration is rejected before any work starts.
#[derive(Clone, Copy, PartialEq, Eq, Structural, Debug)]
pub enum ArgumentError {
    ZeroWidth,
    ZeroHeight,
    QualityOutOfRange,
}

/// The shared, read-only configuration of one run.
#[derive(Clone, Copy, Debug)]
pub struct Config {
    /// Bounding-box width in pixels, at least one.
    pub width: u32,
    /// Bounding-box height in pixels, at least one.
    pub height: u32,
    /// JPEG encode quality, between zero and one hundred.
    pub quality: u8,
    /// Output encoding for every thumbnail of the run.
    pub format: OutputFormat,
    /// Worker-pool size hint; absent or zero means platform parallelism.
    pub workers: Option<usize>,
    /// Whether the summary line carries the elapsed time.
    pub benchmark: bool,
}

impl Config {
    /// A configuration is well formed when the bounding box is positive in
    /// both dimensions and the quality lies in the accepted range.
    pub open spec fn wf(self) -> bool {
        1 <= self.width && 1 <= self.height && self.quality <= 100
    }

    /// Validates the raw settings; a malformed invocation is rejected here,
    /// before any directory is walked.
    pub fn new(
        width: u32,
        height: u32,
        quality: u8,
        format: OutputFormat,
        workers: Option<usize>,
        benchmark: bool,
    ) -> (r: Result<Config, ArgumentError>)
        ensures
            r is Ok <==> (1 <= width && 1 <= height && quality <= 100),
            r matches Ok(c) ==> c == (Config { width, height, quality, format, workers, benchmark })
                && c.wf(),
            width == 0 ==> r == Result::<Config, ArgumentError>::Err(ArgumentError::ZeroWidth),
            width >= 1 && height == 0 ==> r == Result::<Config, ArgumentError>::Err(
                ArgumentError::ZeroHeight,
            ),
            width >= 1 && height >= 1 && quality > 100 ==> r == Result::<
                Config,
                ArgumentError,
            >::Err(ArgumentError::QualityOutOfRange),
    {
        if width == 0 {
            Err(ArgumentError::ZeroWidth)
        } else if height == 0 {
            Err(ArgumentError::ZeroHeight)
        } else if quality > 100 {
            Err(ArgumentError::QualityOutOfRange)
        } else {
            Ok(Config { width, height, quality, format, workers, benchmark })
        }
    }
}

/// The worker count a run actually uses: a positive hint wins, anything else
/// falls back to the platform's available parallelism.
pub open spec fn spec_effective_workers(hint: Option<usize>, available: usize) -> usize {
    match hint {
        Some(n) => if n > 0 {
            n
        } else {
            available
        },
        None => available,
    }
}

/// Picks the size of the worker pool from the user's hint and the platform's
/// available parallelism.
pub fn effective_workers(hint: Option<usize>, available: usize) -> (r: usize)
    requires
        1 <= available,
    ensures
        r == spec_effective_workers(hint, available),
        1 <= r,
{
    match hint {
        Some(n) => if n > 0 {
            n
        } else {
            available
        },
        None => available,
    }
}

} // verus!
