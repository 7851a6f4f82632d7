//! Building the status line, headers and body of a response.
use vstd::prelude::*;
use vstd::string::StringSliceAdditionalSpecFns;
use crate::text::{dec, push_bytes, push_dec, push_str};

verus! {

/// The reason phrase that goes with a status code.
pub open spec fn status_phrase(code: u32) -> &'static str {
    if code == 200 {
        "OK"
    } else if code == 201 {
        "Created"
    } else if code == 400 {
        "Bad Request"
    } else if code == 403 {
        "Forbidden"
    } else if code == 404 {
        "Not Found"
    } else {
        "Internal Server Error"
    }
}

/// Returns the reason phrase for `code`; unknown codes read as a server error.
pub fn status_text(code: u32) -> (r: &'static str)
    ensures
        r == status_phrase(code),
{
    if code == 200 {
        "OK"
    } else if code == 201 {
        "Created"
    } else if code == 400 {
        "Bad Request"
    } else if code == 403 {
        "Forbidden"
    } else if code == 404 {
        "Not Found"
    } else {
        "Internal Server Error"
    }
}

/// `HTTP/1.1 <code> <phrase>\r\n`
pub open spec fn status_line(code: u32) -> Seq<u8> {
    "HTTP/1.1 ".spec_bytes() + dec(code as nat) + " ".spec_bytes() + status_phrase(code).spec_bytes()
        + "\r\n".spec_bytes()
}

/// A response with a length header and no content type.
pub open spec fn plain_response(code: u32, body: Seq<u8>) -> Seq<u8> {
    status_line(code) + "Content-Length: ".spec_bytes() + dec(body.len()) + "\r\n\r\n".spec_bytes()
        + body
}

/// A response with a content type and a length header.
pub open spec fn typed_response(code: u32, body: Seq<u8>, content_type: Seq<u8>) -> Seq<u8> {
    status_line(code) + "Content-Type: ".spec_bytes() + content_type + "\r\n".spec_bytes()
        + "Content-Length: ".spec_bytes() + dec(body.len()) + "\r\n\r\n".spec_bytes() + body
}

/// A response whose body is gzip-encoded: it names the encoding and says that
/// the response varies with the encoding the caller accepts.
pub open spec fn encoded_response(code: u32, body: Seq<u8>, content_type: Seq<u8>) -> Seq<u8> {
    status_line(code) + "Content-Type: ".spec_bytes() + content_type + "\r\n".spec_bytes()
        + "Content-Length: ".spec_bytes() + dec(body.len()) + "\r\n".spec_bytes()
        + "Content-Encoding: gzip\r\n".spec_bytes() + "Vary: Accept-Encoding\r\n".spec_bytes()
        + "\r\n".spec_bytes() + body
}

fn push_status_line(out: &mut Vec<u8>, code: u32)
    ensures
        final(out)@ == old(out)@ + status_line(code),
{
    push_str(out, "HTTP/1.1 ");
    push_dec(out, code as u64);
    push_str(out, " ");
    push_str(out, status_text(code));
    push_str(out, "\r\n");
    assert(out@ == old(out)@ + status_line(code));
}

/// Builds a response carrying `body` (empty when absent) and its length.
pub fn build_response(status_code: u32, body: Option<&str>) -> (r: Vec<u8>)
    ensures
        r@ == plain_response(
            status_code,
            match body {
                Some(b) => b.spec_bytes(),
                None => Seq::empty(),
            },
        ),
{
    let content: &[u8] = match body {
        Some(b) => b.as_bytes(),
        None => &[],
    };
    let mut out: Vec<u8> = Vec::new();
    push_status_line(&mut out, status_code);
    push_str(&mut out, "Content-Length: ");
    push_dec(&mut out, content.len() as u64);
    push_str(&mut out, "\r\n\r\n");
    push_bytes(&mut out, content);
    assert(out@ =~= plain_response(status_code, content@));
    out
}

/// Builds a response carrying `body` (empty when absent), its content type
/// and its length.
pub fn build_response_with_type(status_code: u32, body: Option<&[u8]>, content_type: &str) -> (r:
    Vec<u8>)
    ensures
        r@ == typed_response(
            status_code,
            match body {
                Some(b) => b@,
                None => Seq::empty(),
            },
            content_type.spec_bytes(),
        ),
{
    let content: &[u8] = match body {
        Some(b) => b,
        None => &[],
    };
    let mut out: Vec<u8> = Vec::new();
    push_status_line(&mut out, status_code);
    push_str(&mut out, "Content-Type: ");
    push_str(&mut out, content_type);
    push_str(&mut out, "\r\n");
    push_str(&mut out, "Content-Length: ");
    push_dec(&mut out, content.len() as u64);
    push_str(&mut out, "\r\n\r\n");
    push_bytes(&mut out, content);
    assert(out@ =~= typed_response(status_code, content@, content_type.spec_bytes()));
    out
}

/// Builds a response whose body is already gzip-encoded.
pub fn build_encoded_response(status_code: u32, encoded: &[u8], content_type: &str) -> (r: Vec<u8>)
    ensures
        r@ == encoded_response(status_code, encoded@, content_type.spec_bytes()),
{
    let mut out: Vec<u8> = Vec::new();
    push_status_line(&mut out, status_code);
    push_str(&mut out, "Content-Type: ");
    push_str(&mut out, content_type);
    push_str(&mut out, "\r\n");
    push_str(&mut out, "Content-Length: ");
    push_dec(&mut out, encoded.len() as u64);
    push_str(&mut out, "\r\n");
    push_str(&mut out, "Content-Encoding: gzip\r\n");
    push_str(&mut out, "Vary: Accept-Encoding\r\n");
    push_str(&mut out, "\r\n");
    push_bytes(&mut out, encoded);
    assert(out@ =~= encoded_response(status_code, encoded@, content_type.spec_bytes()));
    out
}

} // verus!
