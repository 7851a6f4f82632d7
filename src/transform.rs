//! Resizing and re-encoding an image.
use vstd::prelude::*;
use crate::options::{OutputFormat, TransformOptions};

verus! {

#[verifier::external_type_specification]
#[verifier::external_body]
pub struct ExImageError(image::ImageError);

/// The largest width or height an output may have.
pub const MAX_DIMENSION: u32 = 65535;

/// Why a transform failed.
#[derive(Clone, Copy, Debug, PartialEq, Eq, Structural)]
pub enum TransformError {
    /// The source bytes are not an image that can be decoded.
    DecodeFailed,
    /// The target size is zero, or larger than `MAX_DIMENSION`, in a dimension.
    InvalidDimensions,
    /// The encoder rejected the image.
    EncodeFailed,
}

/// Whether `data` decodes as an image.
pub uninterp spec fn decodes(data: Seq<u8>) -> bool;

/// The width and height of the image that `data` decodes to.
pub uninterp spec fn decoded_size(data: Seq<u8>) -> (u32, u32);

/// Relies on image::load_from_memory, DynamicImage::width and
/// DynamicImage::height: guesses the format from the bytes, decodes them and
/// reports the size; both the outcome and the size depend on the bytes alone.
#[verifier::external_body]
fn decode_size(data: &[u8]) -> (r: Option<(u32, u32)>)
    ensures
        r is Some == decodes(data@),
        r matches Some(s) ==> s == decoded_size(data@),
{
    image::load_from_memory(data).ok().map(|img| (img.width(), img.height()))
}

/// Whether the image of `data`, resized to `width` × `height`, encodes in
/// `format` at `quality`.
pub uninterp spec fn renders(data: Seq<u8>, width: u32, height: u32, format: OutputFormat, quality: u8) -> bool;

/// The bytes of the image of `data`, resized to `width` × `height` and
/// encoded in `format` at `quality`.
pub uninterp spec fn rendered(data: Seq<u8>, width: u32, height: u32, format: OutputFormat, quality: u8) -> Seq<u8>;

/// Relies on image::load_from_memory, DynamicImage::resize_exact with the
/// Lanczos3 filter (a plain copy when the size is unchanged) and
/// DynamicImage::write_to: a JPEG at the given quality; PNG and WebP are
/// lossless and take no quality. The outcome and the bytes depend on the
/// arguments alone. A new size is bounded so that the resampling buffers
/// cannot overflow.
#[verifier::external_body]
fn render(data: &[u8], width: u32, height: u32, format: OutputFormat, quality: u8) -> (r: Result<Vec<u8>, image::ImageError>)
    requires
        decodes(data@),
        (width, height) == decoded_size(data@) || (0 < width <= MAX_DIMENSION && 0 < height <= MAX_DIMENSION),
    ensures
        r is Ok == renders(data@, width, height, format, quality),
        r matches Ok(b) ==> b@ == rendered(data@, width, height, format, quality),
{
    let img = image::load_from_memory(data)?;
    let target = match format {
        OutputFormat::Jpeg => image::ImageOutputFormat::Jpeg(quality),
        OutputFormat::Png => image::ImageOutputFormat::Png,
        OutputFormat::WebP => image::ImageOutputFormat::WebP,
    };
    let resized = img.resize_exact(width, height, image::imageops::FilterType::Lanczos3);
    let mut buffer = Vec::new();
    resized.write_to(&mut std::io::Cursor::new(&mut buffer), target)?;
    Ok(buffer)
}

/// The other side of a box when one side is given: `other * given /
/// source_given`, truncated; zero when the source side is zero.
pub open spec fn scaled(other: u32, given: u32, source_given: u32) -> int {
    if source_given == 0 {
        0
    } else {
        (other as int * given as int) / source_given as int
    }
}

/// The size to resize to, if any: both sides when both are given, one side
/// and the other by the source's aspect ratio, or none.
pub open spec fn target_size(src_w: u32, src_h: u32, o: TransformOptions) -> Option<(int, int)> {
    match (o.width, o.height) {
        (Some(w), Some(h)) => Some((w as int, h as int)),
        (Some(w), None) => Some((w as int, scaled(src_h, w, src_w))),
        (None, Some(h)) => Some((scaled(src_w, h, src_h), h as int)),
        (None, None) => None,
    }
}

/// A size that can be produced.
pub open spec fn valid_size(s: (int, int)) -> bool {
    0 < s.0 <= MAX_DIMENSION && 0 < s.1 <= MAX_DIMENSION
}

fn scale(other: u32, given: u32, source_given: u32) -> (r: u64)
    ensures
        r == scaled(other, given, source_given),
{
    if source_given == 0 {
        0
    } else {
        assert(other as int * given as int <= u64::MAX) by (nonlinear_arith)
            requires
                other <= u32::MAX,
                given <= u32::MAX,
        ;
        (other as u64 * given as u64) / source_given as u64
    }
}

/// The size a `src_w` × `src_h` image is resized to under `options`: `None`
/// when no resize is asked for, else the size, or `Err` when it is zero or
/// over `MAX_DIMENSION` on a side.
pub fn target_dimensions(src_w: u32, src_h: u32, options: &TransformOptions) -> (r: Result<
    Option<(u32, u32)>,
    TransformError,
>)
    ensures
        match target_size(src_w, src_h, *options) {
            None => r == Ok::<Option<(u32, u32)>, TransformError>(None),
            Some(s) => if valid_size(s) {
                r == Ok::<Option<(u32, u32)>, TransformError>(Some((s.0 as u32, s.1 as u32)))
            } else {
                r == Err::<Option<(u32, u32)>, TransformError>(TransformError::InvalidDimensions)
            },
        },
{
    let (w, h): (u64, u64) = match (options.width, options.height) {
        (Some(w), Some(h)) => (w as u64, h as u64),
        (Some(w), None) => (w as u64, scale(src_h, w, src_w)),
        (None, Some(h)) => (scale(src_w, h, src_h), h as u64),
        (None, None) => {
            return Ok(None);
        },
    };
    if 0 < w && w <= MAX_DIMENSION as u64 && 0 < h && h <= MAX_DIMENSION as u64 {
        Ok(Some((w as u32, h as u32)))
    } else {
        Err(TransformError::InvalidDimensions)
    }
}

/// The size the image of `data` is encoded at under `o`: the source size
/// when no resize is asked for, the target size when it is valid, and `None`
/// when it is not.
pub open spec fn output_size(data: Seq<u8>, o: TransformOptions) -> Option<(u32, u32)> {
    let src = decoded_size(data);
    match target_size(src.0, src.1, o) {
        None => Some(src),
        Some(s) => if valid_size(s) {
            Some((s.0 as u32, s.1 as u32))
        } else {
            None
        },
    }
}

/// The bytes a transform of `data` under `o` yields, if it succeeds.
pub open spec fn transform_outcome(data: Seq<u8>, o: TransformOptions) -> Option<Seq<u8>> {
    if !decodes(data) {
        None
    } else {
        match output_size(data, o) {
            Some(s) => if renders(data, s.0, s.1, o.format, o.quality) {
                Some(rendered(data, s.0, s.1, o.format, o.quality))
            } else {
                None
            },
            None => None,
        }
    }
}

/// Decodes `img_data`, resizes it as `options` ask with a Lanczos filter and
/// encodes it in the requested format and quality. `DecodeFailed` when the
/// bytes do not decode, `InvalidDimensions` when the target size is not
/// valid, `EncodeFailed` when the encoder rejects the image; otherwise the
/// encoded bytes.
pub fn optimize_image(img_data: &[u8], options: &TransformOptions) -> (r: Result<
    Vec<u8>,
    TransformError,
>)
    requires
        options.wf(),
    ensures
        (r == Err::<Vec<u8>, TransformError>(TransformError::DecodeFailed)) <==> !decodes(
            img_data@,
        ),
        (r == Err::<Vec<u8>, TransformError>(TransformError::InvalidDimensions)) <==> (decodes(
            img_data@,
        ) && output_size(img_data@, *options) is None),
        (r == Err::<Vec<u8>, TransformError>(TransformError::EncodeFailed)) <==> (decodes(img_data@)
            && output_size(img_data@, *options) is Some && transform_outcome(img_data@, *options) is None),
        match r {
            Ok(b) => transform_outcome(img_data@, *options) == Some(b@),
            Err(_) => transform_outcome(img_data@, *options) is None,
        },
{
    let src = match decode_size(img_data) {
        Some(s) => s,
        None => {
            return Err(TransformError::DecodeFailed);
        },
    };
    let (w, h) = match target_dimensions(src.0, src.1, options) {
        Err(e) => {
            return Err(e);
        },
        Ok(None) => src,
        Ok(Some(size)) => size,
    };
    match render(img_data, w, h, options.format, options.quality) {
        Ok(bytes) => Ok(bytes),
        Err(_) => Err(TransformError::EncodeFailed),
    }
}

/// Scaling by width keeps the aspect ratio: when only a width is given and
/// the target is valid, the image of `data` is rendered at exactly that
/// width, and at the height `src_h * w / src_w` truncated, which lies less
/// than one pixel below the exact value.
pub proof fn lemma_width_keeps_aspect(data: Seq<u8>, o: TransformOptions)
    requires
        decoded_size(data).0 > 0,
        o.width is Some,
        o.height is None,
        output_size(data, o) is Some,
    ensures
        output_size(data, o) matches Some(s) && s.0 == o.width.unwrap() && s.1 * decoded_size(
            data,
        ).0 <= decoded_size(data).1 * o.width.unwrap() < (s.1 + 1) * decoded_size(data).0,
{
    let (src_w, src_h) = decoded_size(data);
    let w = o.width.unwrap();
    let x = src_h as int * w as int;
    let d = src_w as int;
    let h = x / d;
    vstd::arithmetic::div_mod::lemma_fundamental_div_mod(x, d);
    vstd::arithmetic::div_mod::lemma_mod_pos_bound(x, d);
    assert(h * d <= x < (h + 1) * d) by (nonlinear_arith)
        requires
            x == d * h + x % d,
            0 <= x % d < d,
    ;
}

} // verus!
