//! Content types by file extension, and the decision to compress a body.
use vstd::prelude::*;
use vstd::string::StringSliceAdditionalSpecFns;
use vstd::slice::slice_subrange;
use crate::text::{bytes_eq, find_last, last_index, lemma_ascii_bytes};

verus! {

/// Bodies of at most this many bytes are sent as they are.
pub const COMPRESSION_THRESHOLD: usize = 1024;

/// The path without its trailing slashes.
pub open spec fn trim_slashes(path: Seq<u8>) -> Seq<u8>
    decreases path.len(),
{
    if path.len() > 0 && path.last() == 47u8 {
        trim_slashes(path.drop_last())
    } else {
        path
    }
}

/// The extension of a path: the text after the last `.` of its final
/// segment (what follows the last `/`, trailing slashes ignored), unless
/// that dot opens the segment.
pub open spec fn extension(full: Seq<u8>) -> Option<Seq<u8>> {
    let path = trim_slashes(full);
    let name = path.subrange(last_index(path, 47u8) + 1, path.len() as int);
    let dot = last_index(name, 46u8);
    if dot <= 0 {
        None
    } else {
        Some(name.subrange(dot + 1, name.len() as int))
    }
}

/// The content type that belongs to an extension.
pub open spec fn content_type_of(ext: Option<Seq<u8>>) -> &'static str {
    match ext {
        Some(e) => if e == "html".spec_bytes() {
            "text/html"
        } else if e == "css".spec_bytes() {
            "text/css"
        } else if e == "js".spec_bytes() {
            "application/javascript"
        } else if e == "png".spec_bytes() {
            "image/png"
        } else if e == "jpg".spec_bytes() || e == "jpeg".spec_bytes() {
            "image/jpeg"
        } else if e == "gif".spec_bytes() {
            "image/gif"
        } else {
            "application/octet-stream"
        },
        None => "application/octet-stream",
    }
}

/// The text-like content types that are worth compressing.
pub open spec fn compressible(ct: Seq<u8>) -> bool {
    ct == "text/html".spec_bytes() || ct == "text/css".spec_bytes() || ct
        == "application/javascript".spec_bytes() || ct == "text/javascript".spec_bytes() || ct
        == "text/plain".spec_bytes() || ct == "application/json".spec_bytes() || ct
        == "application/xml".spec_bytes()
}

/// The image content types.
pub open spec fn image_type(ct: Seq<u8>) -> bool {
    ct == "image/jpeg".spec_bytes() || ct == "image/png".spec_bytes() || ct
        == "image/webp".spec_bytes() || ct == "image/gif".spec_bytes()
}

/// Whether a body goes out gzip-encoded: the caller accepts it, the type is
/// text-like and the body is above the threshold.
pub open spec fn compress_decision(accepts_gzip: bool, ct: Seq<u8>, len: nat) -> bool {
    accepts_gzip && compressible(ct) && len > COMPRESSION_THRESHOLD
}

/// The content type of the file at `path`, by its extension.
pub fn get_content_type(path: &str) -> (r: &'static str)
    ensures
        r == content_type_of(extension(path.spec_bytes())),
{
    let full = path.as_bytes();
    let mut n = full.len();
    assert(full@.subrange(0, n as int) =~= full@);
    while n > 0 && full[n - 1] == 47u8
        invariant
            n <= full@.len(),
            trim_slashes(full@.subrange(0, n as int)) == trim_slashes(full@),
        decreases n,
    {
        assert(full@.subrange(0, n as int).drop_last() =~= full@.subrange(0, n - 1));
        n = n - 1;
    }
    let p = slice_subrange(full, 0, n);
    assert(trim_slashes(p@) == p@);
    let start: usize = match find_last(p, 47u8) {
        Some(k) => k + 1,
        None => 0,
    };
    let name = slice_subrange(p, start, n);
    match find_last(name, 46u8) {
        Some(dot) => {
            if dot == 0 {
                return "application/octet-stream";
            }
            let e = slice_subrange(name, dot + 1, name.len());
            if bytes_eq(e, "html") {
                "text/html"
            } else if bytes_eq(e, "css") {
                "text/css"
            } else if bytes_eq(e, "js") {
                "application/javascript"
            } else if bytes_eq(e, "png") {
                "image/png"
            } else if bytes_eq(e, "jpg") || bytes_eq(e, "jpeg") {
                "image/jpeg"
            } else if bytes_eq(e, "gif") {
                "image/gif"
            } else {
                "application/octet-stream"
            }
        },
        None => "application/octet-stream",
    }
}

/// Whether `content_type` is one of the compressible text-like types.
pub fn is_compressible(content_type: &str) -> (r: bool)
    ensures
        r == compressible(content_type.spec_bytes()),
{
    let c = content_type.as_bytes();
    bytes_eq(c, "text/html") || bytes_eq(c, "text/css") || bytes_eq(c, "application/javascript")
        || bytes_eq(c, "text/javascript") || bytes_eq(c, "text/plain") || bytes_eq(
        c,
        "application/json",
    ) || bytes_eq(c, "application/xml")
}

/// Whether `content_type` names an image.
pub fn is_image_content_type(content_type: &str) -> (r: bool)
    ensures
        r == image_type(content_type.spec_bytes()),
{
    let c = content_type.as_bytes();
    bytes_eq(c, "image/jpeg") || bytes_eq(c, "image/png") || bytes_eq(c, "image/webp") || bytes_eq(
        c,
        "image/gif",
    )
}

/// Whether a body of `len` bytes and type `content_type` goes out compressed.
pub fn should_compress(accepts_gzip: bool, content_type: &str, len: usize) -> (r: bool)
    ensures
        r == compress_decision(accepts_gzip, content_type.spec_bytes(), len as nat),
{
    accepts_gzip && is_compressible(content_type) && len > COMPRESSION_THRESHOLD
}

/// No image type is ever compressible, so an image body never takes the
/// generic compression path, whatever the caller accepts.
pub proof fn lemma_images_never_compressed(accepts_gzip: bool, ct: Seq<u8>, len: nat)
    requires
        image_type(ct),
    ensures
        !compress_decision(accepts_gzip, ct, len),
{
    reveal_strlit("image/jpeg");
    reveal_strlit("image/png");
    reveal_strlit("image/webp");
    reveal_strlit("image/gif");
    reveal_strlit("text/html");
    reveal_strlit("text/css");
    reveal_strlit("application/javascript");
    reveal_strlit("text/javascript");
    reveal_strlit("text/plain");
    reveal_strlit("application/json");
    reveal_strlit("application/xml");
    lemma_ascii_bytes("image/jpeg");
    lemma_ascii_bytes("image/png");
    lemma_ascii_bytes("image/webp");
    lemma_ascii_bytes("image/gif");
    lemma_ascii_bytes("text/html");
    lemma_ascii_bytes("text/css");
    lemma_ascii_bytes("application/javascript");
    lemma_ascii_bytes("text/javascript");
    lemma_ascii_bytes("text/plain");
    lemma_ascii_bytes("application/json");
    lemma_ascii_bytes("application/xml");
    assert("image/jpeg".spec_bytes()[0] == 105u8);
    assert("image/png".spec_bytes()[0] == 105u8);
    assert("image/webp".spec_bytes()[0] == 105u8);
    assert("image/gif".spec_bytes()[0] == 105u8);
    assert("text/html".spec_bytes()[0] == 116u8);
    assert("text/css".spec_bytes()[0] == 116u8);
    assert("application/javascript".spec_bytes()[0] == 97u8);
    assert("text/javascript".spec_bytes()[0] == 116u8);
    assert("text/plain".spec_bytes()[0] == 116u8);
    assert("application/json".spec_bytes()[0] == 97u8);
    assert("application/xml".spec_bytes()[0] == 97u8);
}

} // verus!
