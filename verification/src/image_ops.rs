//! The per-file transform: decode, fit-within resize, re-encode.
//!
//! Decoding, resampling and encoding are the image crate's work and stay
//! behind trusted wrappers. Each of those steps is deterministic — an
//! in-memory computation on its arguments alone — so its result carries a
//! name, and the transform's contract ties the thumbnail bytes, the source
//! dimensions and every success or failure to those names. Everything
//! around the calls — the dimension arithmetic, the quality routing, the
//! error shape — is verified.

use vstd::prelude::*;
use crate::config::Config;
use crate::config::OutputFormat;
use crate::config::effective_quality;
use crate::config::spec_effective_quality;
use crate::resize::fit_dimensions;
use crate::resize::lemma_fit_dims_bounds;
use crate::resize::spec_fit_dims;

verus! {

#[verifier::external_type_specification]
#[verifier::external_body]
pub struct ExDynamicImage(image::DynamicImage);

#[verifier::external_type_specification]
#[verifier::external_body]
pub struct ExImageError(image::ImageError);

/// The image the byte string decodes to, or `None` when it is undecodable;
/// decoding an in-memory buffer is a function of the bytes alone.
pub uninterp spec fn spec_decoded(data: Seq<u8>) -> Option<image::DynamicImage>;

/// The width an image reports.
pub uninterp spec fn spec_width_of(img: image::DynamicImage) -> u32;

/// The height an image reports.
pub uninterp spec fn spec_height_of(img: image::DynamicImage) -> u32;

/// The image a Lanczos3 `resize_exact` to `w x h` produces: a function of
/// the source image and the dimensions (the kernel evaluates through the
/// platform's math library, so this names the result within one build).
pub uninterp spec fn spec_resized(img: image::DynamicImage, w: u32, h: u32) -> image::DynamicImage;

/// The bytes encoding an image in a format at a quality yields, or `None`
/// when the encoder rejects it; encoding into an in-memory cursor is a
/// function of these arguments alone.
pub uninterp spec fn spec_encode_result(
    img: image::DynamicImage,
    f: OutputFormat,
    quality: u8,
) -> Option<Seq<u8>>;

/// Whether the byte string decodes to an image with both dimensions
/// positive; some decoders accept a header that claims a zero dimension, so
/// the transform rejects such an image itself.
pub open spec fn spec_decodes_positive(data: Seq<u8>) -> bool {
    &&& spec_decoded(data) is Some
    &&& 1 <= spec_width_of(spec_decoded(data)->Some_0)
    &&& 1 <= spec_height_of(spec_decoded(data)->Some_0)
}

/// Relies on image::load_from_memory: decodes an in-memory buffer, guessing
/// the format from its content; the outcome depends on the bytes alone.
#[verifier::external_body]
fn decode_image(data: &Vec<u8>) -> (r: Result<image::DynamicImage, image::ImageError>)
    ensures
        r is Ok <==> spec_decoded(data@) is Some,
        r matches Ok(img) ==> img == spec_decoded(data@)->Some_0,
{
    image::load_from_memory(data.as_slice())
}

/// Relies on DynamicImage::width.
#[verifier::external_body]
fn image_width(img: &image::DynamicImage) -> (r: u32)
    ensures
        r == spec_width_of(*img),
{
    img.width()
}

/// Relies on DynamicImage::height.
#[verifier::external_body]
fn image_height(img: &image::DynamicImage) -> (r: u32)
    ensures
        r == spec_height_of(*img),
{
    img.height()
}

/// Relies on DynamicImage::resize_exact with the Lanczos3 filter: returns a
/// resampled image of exactly the given dimensions, a function of the
/// source image and the dimensions.
#[verifier::external_body]
fn resize_image(img: &image::DynamicImage, w: u32, h: u32) -> (r: image::DynamicImage)
    requires
        1 <= w,
        1 <= h,
    ensures
        r == spec_resized(*img, w, h),
        spec_width_of(r) == w,
        spec_height_of(r) == h,
{
    img.resize_exact(w, h, image::imageops::FilterType::Lanczos3)
}

/// Relies on DynamicImage::write_to with an in-memory cursor: encodes the
/// image as JPEG at the given quality, or as PNG or WEBP, which take none;
/// the outcome and the bytes depend on the arguments alone.
#[verifier::external_body]
fn encode_image(img: &image::DynamicImage, format: OutputFormat, quality: u8) -> (r: Result<
    Vec<u8>,
    image::ImageError,
>)
    ensures
        r is Ok <==> spec_encode_result(*img, format, quality) is Some,
        r matches Ok(b) ==> b@ == spec_encode_result(*img, format, quality)->Some_0,
{
    let target = match format {
        OutputFormat::Jpeg => image::ImageOutputFormat::Jpeg(quality),
        OutputFormat::Png => image::ImageOutputFormat::Png,
        OutputFormat::Webp => image::ImageOutputFormat::WebP,
    };
    let mut cursor = std::io::Cursor::new(Vec::new());
    img.write_to(&mut cursor, target).map(|_| cursor.into_inner())
}

/// Relies on ImageError's ToString to render the failure cause as text.
#[verifier::external_body]
fn image_error_bytes(e: &image::ImageError) -> (r: Vec<u8>) {
    e.to_string().into_bytes()
}

/// Why one file failed to become a thumbnail.
#[derive(Debug)]
pub enum JobError {
    /// The source bytes could not be decoded as an image.
    Decode { cause: Vec<u8> },
    /// The thumbnail could not be serialized in the output format.
    Encode { cause: Vec<u8> },
    /// The source path does not lie under the input root.
    Path,
    /// A directory or file under the output root could not be written.
    Io { cause: Vec<u8> },
}

/// A finished thumbnail: the encoded bytes, the source dimensions, and the
/// fitted dimensions the thumbnail was resampled to.
#[derive(Debug)]
pub struct Thumb {
    /// The thumbnail, encoded in the run's output format.
    pub bytes: Vec<u8>,
    /// Width of the decoded source image.
    pub src_width: u32,
    /// Height of the decoded source image.
    pub src_height: u32,
    /// Width of the thumbnail.
    pub width: u32,
    /// Height of the thumbnail.
    pub height: u32,
}

/// The image the transform hands to the encoder: the decoded image itself
/// when it already fits the bounding box, otherwise its fit-within resize.
pub open spec fn spec_fitted(img: image::DynamicImage, bw: u32, bh: u32) -> image::DynamicImage {
    if spec_width_of(img) <= bw && spec_height_of(img) <= bh {
        img
    } else {
        let dims = spec_fit_dims(spec_width_of(img), spec_height_of(img), bw, bh);
        spec_resized(img, dims.0 as u32, dims.1 as u32)
    }
}

/// The thumbnail bytes a source file and a configuration determine, or
/// `None` when the source is undecodable or zero-dimensioned, or the fitted
/// image does not encode.
pub open spec fn spec_thumb_result(data: Seq<u8>, cfg: Config) -> Option<Seq<u8>> {
    if spec_decodes_positive(data) {
        spec_encode_result(
            spec_fitted(spec_decoded(data)->Some_0, cfg.width, cfg.height),
            cfg.format,
            spec_effective_quality(cfg.format, cfg.quality),
        )
    } else {
        None
    }
}

/// What the transform promises of its result: success exactly when the
/// source decodes with positive dimensions and its fitted image encodes,
/// the thumbnail bytes equal to the encoding the inputs determine, decode
/// failure exactly on undecodable or zero-dimensioned bytes, encode failure
/// exactly when the encoder rejects the fitted image, no other error shape,
/// and fitted dimensions that obey the bounding box without upscaling.
pub open spec fn spec_transform_contract(r: Result<Thumb, JobError>, data: Seq<u8>, cfg: Config) -> bool {
    &&& (r is Ok <==> spec_thumb_result(data, cfg) is Some)
    &&& ((r matches Err(e) && e is Decode) <==> !spec_decodes_positive(data))
    &&& ((r matches Err(e) && e is Encode) <==> (spec_decodes_positive(data)
        && spec_thumb_result(data, cfg) is None))
    &&& (r matches Err(e) ==> (e is Decode || e is Encode))
    &&& (r matches Ok(t) ==> {
        let img = spec_decoded(data)->Some_0;
        &&& t.bytes@ == spec_thumb_result(data, cfg)->Some_0
        &&& t.src_width == spec_width_of(img)
        &&& t.src_height == spec_height_of(img)
        &&& 1 <= t.src_width && 1 <= t.src_height
        &&& (t.width as int, t.height as int) == spec_fit_dims(
            t.src_width,
            t.src_height,
            cfg.width,
            cfg.height,
        )
        &&& t.width <= cfg.width && t.height <= cfg.height
        &&& t.width <= t.src_width && t.height <= t.src_height
    })
}

/// The cause text of a decode rejection the transform makes itself:
/// `zero-size image`.
fn zero_size_cause() -> (r: Vec<u8>) {
    let mut v: Vec<u8> = Vec::new();
    v.push(122);
    v.push(101);
    v.push(114);
    v.push(111);
    v.push(45);
    v.push(115);
    v.push(105);
    v.push(122);
    v.push(101);
    v.push(32);
    v.push(105);
    v.push(109);
    v.push(97);
    v.push(103);
    v.push(101);
    v
}

/// Decodes a source file's bytes — rejecting an image that claims a zero
/// dimension — scales the image down to fit the configured bounding box,
/// never upscaling, and encodes the result in the configured format, JPEG
/// at the configured quality.
pub fn transform_bytes(data: &Vec<u8>, cfg: &Config) -> (r: Result<Thumb, JobError>)
    requires
        cfg.wf(),
    ensures
        spec_transform_contract(r, data@, *cfg),
{
    let img = match decode_image(data) {
        Ok(img) => img,
        Err(e) => {
            return Err(JobError::Decode { cause: image_error_bytes(&e) });
        },
    };
    let w0 = image_width(&img);
    let h0 = image_height(&img);
    if w0 == 0 || h0 == 0 {
        return Err(JobError::Decode { cause: zero_size_cause() });
    }
    let ghost decoded = img;
    let (tw, th, thumb_img) = if w0 <= cfg.width && h0 <= cfg.height {
        (w0, h0, img)
    } else {
        proof {
            lemma_fit_dims_bounds(w0, h0, cfg.width, cfg.height);
        }
        let dims = fit_dimensions(w0, h0, cfg.width, cfg.height);
        let resized = resize_image(&img, dims.0, dims.1);
        (dims.0, dims.1, resized)
    };
    proof {
        assert(thumb_img == spec_fitted(decoded, cfg.width, cfg.height));
    }
    let quality = effective_quality(cfg.format, cfg.quality);
    match encode_image(&thumb_img, cfg.format, quality) {
        Ok(bytes) => Ok(
            Thumb { bytes: bytes, src_width: w0, src_height: h0, width: tw, height: th },
        ),
        Err(e) => Err(JobError::Encode { cause: image_error_bytes(&e) }),
    }
}

/// Idempotence of the transform's computation: two results of the same
/// source bytes and configuration succeed together, and on success carry
/// byte-for-byte the same thumbnail at the same dimensions.
pub proof fn lemma_transform_deterministic(
    r1: Result<Thumb, JobError>,
    r2: Result<Thumb, JobError>,
    data: Seq<u8>,
    cfg: Config,
)
    requires
        spec_transform_contract(r1, data, cfg),
        spec_transform_contract(r2, data, cfg),
    ensures
        r1 is Ok <==> r2 is Ok,
        r1 is Ok && r2 is Ok ==> r1->Ok_0.bytes@ == r2->Ok_0.bytes@ && r1->Ok_0.width == r2->Ok_0.width
            && r1->Ok_0.height == r2->Ok_0.height,
{
}

/// Quality routing at the level of the output bytes: for any format other
/// than JPEG, two transforms of the same source that differ only in the
/// requested quality succeed together and yield identical bytes.
pub proof fn lemma_quality_ignored_bytes(
    r1: Result<Thumb, JobError>,
    r2: Result<Thumb, JobError>,
    data: Seq<u8>,
    cfg1: Config,
    cfg2: Config,
)
    requires
        spec_transform_contract(r1, data, cfg1),
        spec_transform_contract(r2, data, cfg2),
        cfg1.width == cfg2.width,
        cfg1.height == cfg2.height,
        cfg1.format == cfg2.format,
        !(cfg1.format is Jpeg),
    ensures
        r1 is Ok <==> r2 is Ok,
        r1 is Ok && r2 is Ok ==> r1->Ok_0.bytes@ == r2->Ok_0.bytes@,
{
    assert(spec_effective_quality(cfg1.format, cfg1.quality) == spec_effective_quality(
        cfg2.format,
        cfg2.quality,
    ));
    assert(spec_thumb_result(data, cfg1) == spec_thumb_result(data, cfg2));
}

} // verus!
