//! The decisions of one fetch: which path a request takes, what is sent back,
//! and what is written to the cache.
use vstd::prelude::*;
use vstd::string::StringSliceAdditionalSpecFns;
use crate::content::{
    compress_decision, content_type_of, extension, get_content_type, image_type,
    is_image_content_type, should_compress,
};
use crate::key::key_text;
use crate::options::{apply_query, OutputFormat, TransformOptions};
use crate::response::{
    build_encoded_response, build_response, build_response_with_type, encoded_response,
    plain_response, typed_response,
};
use crate::transform::{optimize_image, transform_outcome};

verus! {

/// The gzip encoding of `data`.
pub uninterp spec fn gzip_of(data: Seq<u8>) -> Seq<u8>;

/// Relies on flate2::write::GzEncoder at the default level, writing into a
/// `Vec`: the header is fixed (mtime 0, OS byte 255), so the encoded bytes
/// depend on the input alone, and writing into a `Vec` does not fail.
#[verifier::external_body]
fn gzip(data: &[u8]) -> (r: Vec<u8>)
    ensures
        r@ == gzip_of(data@),
{
    let mut encoder = flate2::write::GzEncoder::new(Vec::new(), flate2::Compression::default());
    std::io::Write::write_all(&mut encoder, data).and_then(|_| encoder.finish()).unwrap_or_default()
}

/// The message sent when a transform fails.
pub const PROCESSING_FAILED: &'static str = "Image processing failed";

/// Builds a response whose body is `content` gzip-encoded, with the encoded
/// length, the encoding and a `Vary` header.
pub fn build_compressed_response(status_code: u32, content: &[u8], content_type: &str) -> (r:
    Vec<u8>)
    ensures
        r@ == encoded_response(status_code, gzip_of(content@), content_type.spec_bytes()),
{
    let c = gzip(content);
    build_encoded_response(status_code, c.as_slice(), content_type)
}

/// The content type of an output format.
pub open spec fn format_content_type(f: OutputFormat) -> &'static str {
    match f {
        OutputFormat::Jpeg => "image/jpeg",
        OutputFormat::Png => "image/png",
        OutputFormat::WebP => "image/webp",
    }
}

/// The content type of an output format.
pub fn output_content_type(f: OutputFormat) -> (r: &'static str)
    ensures
        r == format_content_type(f),
{
    match f {
        OutputFormat::Jpeg => "image/jpeg",
        OutputFormat::Png => "image/png",
        OutputFormat::WebP => "image/webp",
    }
}

/// The path a fetch takes.
pub enum FetchPlan {
    /// An image with options: transformed through the cache under `key`, and
    /// sent with the output format's content type.
    Transform { options: TransformOptions, key: String, content_type: &'static str },
    /// Anything else: sent as stored, with the content type of its extension.
    Direct { content_type: &'static str },
}

/// Decides the path of a fetch of `path` with an optional raw query: an
/// image with a query goes through the transform cache, anything else is
/// sent as stored.
pub fn plan_fetch(path: &str, query: Option<&str>) -> (r: FetchPlan)
    ensures
        ({
            let ct = content_type_of(extension(path.spec_bytes()));
            match query {
                Some(q) if image_type(ct.spec_bytes()) => {
                    let o = apply_query(TransformOptions::spec_defaults(), q.spec_bytes());
                    r matches FetchPlan::Transform { options, key, content_type } && options == o
                        && key@ == key_text(path.spec_bytes(), o) && content_type
                        == format_content_type(o.format)
                },
                _ => r matches FetchPlan::Direct { content_type } && content_type == ct,
            }
        }),
{
    let ct = get_content_type(path);
    match query {
        Some(q) => {
            if is_image_content_type(ct) {
                let options = TransformOptions::from_query(q);
                let key = options.cache_key(path);
                FetchPlan::Transform {
                    options,
                    key,
                    content_type: output_content_type(options.format),
                }
            } else {
                FetchPlan::Direct { content_type: ct }
            }
        },
        None => FetchPlan::Direct { content_type: ct },
    }
}

/// The response to a direct fetch of `content`: gzip-encoded when the caller
/// accepts it, the type is compressible and the body is over the threshold;
/// as it is otherwise.
pub fn respond_direct(content: &[u8], content_type: &str, accepts_gzip: bool) -> (r: Vec<u8>)
    ensures
        r@ == if compress_decision(accepts_gzip, content_type.spec_bytes(), content@.len()) {
            encoded_response(200, gzip_of(content@), content_type.spec_bytes())
        } else {
            typed_response(200, content@, content_type.spec_bytes())
        },
{
    if should_compress(accepts_gzip, content_type, content.len()) {
        build_compressed_response(200, content, content_type)
    } else {
        build_response_with_type(200, Some(content), content_type)
    }
}

/// What an image fetch sends back, and what it writes to the cache.
pub struct ImageOutcome {
    pub response: Vec<u8>,
    pub to_store: Option<Vec<u8>>,
}

/// Serves an image fetch given what the cache held under its key. A hit is
/// sent as it is and nothing is transformed or stored. A miss is transformed:
/// on success the result is sent and handed back to be stored; on failure a
/// server error is sent and nothing is stored.
pub fn serve_image(
    source: &[u8],
    options: &TransformOptions,
    content_type: &str,
    cached: Option<Vec<u8>>,
) -> (r: ImageOutcome)
    requires
        options.wf(),
    ensures
        match cached {
            Some(c) => r.to_store is None && r.response@ == typed_response(
                200,
                c@,
                content_type.spec_bytes(),
            ),
            None => match transform_outcome(source@, *options) {
                Some(b) => r.to_store matches Some(s) && s@ == b && r.response@ == typed_response(
                    200,
                    b,
                    content_type.spec_bytes(),
                ),
                None => r.to_store is None && r.response@ == plain_response(
                    500,
                    PROCESSING_FAILED.spec_bytes(),
                ),
            },
        },
{
    match cached {
        Some(c) => {
            let response = build_response_with_type(200, Some(c.as_slice()), content_type);
            ImageOutcome { response, to_store: None }
        },
        None => match optimize_image(source, options) {
            Ok(bytes) => {
                let response = build_response_with_type(200, Some(bytes.as_slice()), content_type);
                ImageOutcome { response, to_store: Some(bytes) }
            },
            Err(_) => {
                let response = build_response(500, Some(PROCESSING_FAILED));
                ImageOutcome { response, to_store: None }
            },
        },
    }
}

} // verus!
