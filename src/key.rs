//! Cache keys: a SHA-256 digest of the resource path and every option,
//! rendered as lower-case hex.
use vstd::prelude::*;
use vstd::string::StringSliceAdditionalSpecFns;
use sha2::Digest;
use crate::options::{all_digits, digits_value, OutputFormat, TransformOptions};
use crate::text::{dec, lemma_ascii_bytes, lemma_dec_digits, push_bytes, push_dec, push_str};

verus! {

/// The SHA-256 digest of `data`.
pub uninterp spec fn sha256_of(data: Seq<u8>) -> Seq<u8>;

/// Relies on sha2::Sha256::digest: the 32-byte SHA-256 digest of the input,
/// which depends on the input alone.
#[verifier::external_body]
fn sha256(data: &[u8]) -> (r: Vec<u8>)
    ensures
        r@ == sha256_of(data@),
        r@.len() == 32,
{
    sha2::Sha256::digest(data).to_vec()
}

/// The characters of an ASCII byte string.
pub open spec fn ascii_chars(b: Seq<u8>) -> Seq<char> {
    b.map_values(|c: u8| c as char)
}

/// Relies on String::from_utf8_lossy: ASCII bytes are valid UTF-8 and come
/// out as the same characters.
#[verifier::external_body]
fn ascii_to_string(b: &[u8]) -> (r: String)
    requires
        forall|i: int| 0 <= i < b@.len() ==> b@[i] < 128,
    ensures
        r@ == ascii_chars(b@),
{
    String::from_utf8_lossy(b).into_owned()
}

/// `None`, or `Some(<n>)`.
pub open spec fn optional_text(v: Option<u32>) -> Seq<u8> {
    match v {
        Some(n) => "Some(".spec_bytes() + (dec(n as nat) + ")".spec_bytes()),
        None => "None".spec_bytes(),
    }
}

/// The format, with a JPEG's quality in parentheses.
pub open spec fn format_text(f: OutputFormat, quality: u8) -> Seq<u8> {
    match f {
        OutputFormat::Jpeg => "Jpeg(".spec_bytes() + (dec(quality as nat) + ")".spec_bytes()),
        OutputFormat::Png => "Png".spec_bytes(),
        OutputFormat::WebP => "WebP".spec_bytes(),
    }
}

/// `q<quality>fmt<format>`
pub open spec fn quality_text(o: TransformOptions) -> Seq<u8> {
    "q".spec_bytes() + (dec(o.quality as nat) + ("fmt".spec_bytes() + format_text(o.format, o.quality)))
}

/// `h<height>q<quality>fmt<format>`
pub open spec fn height_text(o: TransformOptions) -> Seq<u8> {
    "h".spec_bytes() + (optional_text(o.height) + quality_text(o))
}

/// Every option in a fixed order: `w<width>h<height>q<quality>fmt<format>`,
/// where an absent size reads `None`, a present one `Some(<n>)`, and a JPEG
/// `Jpeg(<quality>)`.
pub open spec fn options_text(o: TransformOptions) -> Seq<u8> {
    "w".spec_bytes() + (optional_text(o.width) + height_text(o))
}

/// What the digest is taken of: the path followed by the options.
pub open spec fn digest_input(path: Seq<u8>, o: TransformOptions) -> Seq<u8> {
    path + options_text(o)
}

/// A lower-case hex digit.
pub open spec fn hex_digit(n: u8) -> u8 {
    if n < 10 {
        (48 + n) as u8
    } else {
        (87 + n) as u8
    }
}

/// Two lower-case hex digits per byte, high half first.
pub open spec fn hex_lower(b: Seq<u8>) -> Seq<u8>
    decreases b.len(),
{
    if b.len() == 0 {
        Seq::empty()
    } else {
        hex_lower(b.drop_last()).push(hex_digit(b.last() / 16)).push(hex_digit(b.last() % 16))
    }
}

/// The cache key of `path` under `o`.
pub open spec fn key_text(path: Seq<u8>, o: TransformOptions) -> Seq<char> {
    ascii_chars(hex_lower(sha256_of(digest_input(path, o))))
}

fn push_optional(out: &mut Vec<u8>, v: Option<u32>)
    ensures
        final(out)@ == old(out)@ + optional_text(v),
{
    match v {
        Some(n) => {
            push_str(out, "Some(");
            push_dec(out, n as u64);
            push_str(out, ")");
        },
        None => push_str(out, "None"),
    }
}

fn push_format(out: &mut Vec<u8>, f: OutputFormat, quality: u8)
    ensures
        final(out)@ == old(out)@ + format_text(f, quality),
{
    match f {
        OutputFormat::Jpeg => {
            push_str(out, "Jpeg(");
            push_dec(out, quality as u64);
            push_str(out, ")");
        },
        OutputFormat::Png => push_str(out, "Png"),
        OutputFormat::WebP => push_str(out, "WebP"),
    }
}

fn push_quality_text(out: &mut Vec<u8>, o: &TransformOptions)
    ensures
        final(out)@ == old(out)@ + quality_text(*o),
{
    let ghost start = out@;
    push_str(out, "q");
    push_dec(out, o.quality as u64);
    push_str(out, "fmt");
    push_format(out, o.format, o.quality);
    assert(out@ =~= start + quality_text(*o));
}

fn push_height_text(out: &mut Vec<u8>, o: &TransformOptions)
    ensures
        final(out)@ == old(out)@ + height_text(*o),
{
    let ghost start = out@;
    push_str(out, "h");
    push_optional(out, o.height);
    push_quality_text(out, o);
    assert(out@ =~= start + height_text(*o));
}

fn push_options_text(out: &mut Vec<u8>, o: &TransformOptions)
    ensures
        final(out)@ == old(out)@ + options_text(*o),
{
    let ghost start = out@;
    push_str(out, "w");
    push_optional(out, o.width);
    push_height_text(out, o);
    assert(out@ =~= start + options_text(*o));
}

proof fn lemma_hex_ascii(b: Seq<u8>)
    ensures
        forall|i: int| 0 <= i < hex_lower(b).len() ==> hex_lower(b)[i] < 128,
        hex_lower(b).len() == 2 * b.len(),
    decreases b.len(),
{
    if b.len() > 0 {
        lemma_hex_ascii(b.drop_last());
    }
}

/// Renders `b` as lower-case hex.
pub fn to_hex(b: &[u8]) -> (r: Vec<u8>)
    ensures
        r@ == hex_lower(b@),
{
    let mut out: Vec<u8> = Vec::new();
    let mut i: usize = 0;
    while i < b.len()
        invariant
            i <= b@.len(),
            out@ == hex_lower(b@.subrange(0, i as int)),
        decreases b@.len() - i,
    {
        let x = b[i];
        let hi = x / 16;
        let lo = x % 16;
        out.push(if hi < 10 { 48 + hi } else { 87 + hi });
        out.push(if lo < 10 { 48 + lo } else { 87 + lo });
        i = i + 1;
        assert(b@.subrange(0, i as int).drop_last() =~= b@.subrange(0, i - 1));
    }
    assert(b@.subrange(0, b@.len() as int) =~= b@);
    out
}

impl TransformOptions {
    /// The cache key of `resource_path` under these options: the hex SHA-256
    /// of the path's bytes followed by `w<width>h<height>q<quality>fmt<format>`.
    pub fn cache_key(&self, resource_path: &str) -> (r: String)
        ensures
            r@ == key_text(resource_path.spec_bytes(), *self),
            r@.len() == 64,
    {
        let mut input: Vec<u8> = Vec::new();
        push_bytes(&mut input, resource_path.as_bytes());
        push_options_text(&mut input, self);
        let digest = sha256(input.as_slice());
        let hex = to_hex(digest.as_slice());
        proof { lemma_hex_ascii(digest@); }
        ascii_to_string(hex.as_slice())
    }
}

/// Equal paths under equal options always give the same key.
pub proof fn lemma_key_deterministic(
    path1: Seq<u8>,
    path2: Seq<u8>,
    o1: TransformOptions,
    o2: TransformOptions,
)
    requires
        path1 == path2,
        o1 == o2,
    ensures
        key_text(path1, o1) == key_text(path2, o2),
{
}

proof fn lemma_dec_value(n: nat)
    ensures
        digits_value(dec(n)) == n,
    decreases n,
{
    if n >= 10 {
        lemma_dec_value(n / 10);
        assert(dec(n).drop_last() =~= dec(n / 10));
        assert(dec(n).last() == (48 + n % 10) as u8);
        assert(((48 + n % 10) as u8) as int == 48 + n % 10);
        assert(n == (n / 10) * 10 + n % 10);
        assert(digits_value(dec(n)) == digits_value(dec(n / 10)) * 10 + (dec(n).last() - 48) as nat);
    } else {
        assert(dec(n).last() == (48 + n) as u8);
        assert(((48 + n) as u8) as int == 48 + n);
        assert(digits_value(dec(n)) == digits_value(dec(n).drop_last()) * 10 + (dec(n).last() - 48) as nat);
        assert(dec(n).drop_last() =~= Seq::<u8>::empty());
    }
}

proof fn lemma_strip_prefix(p: Seq<u8>, x: Seq<u8>, y: Seq<u8>)
    requires
        p + x == p + y,
    ensures
        x == y,
{
    assert(x =~= (p + x).subrange(p.len() as int, (p + x).len() as int));
    assert(y =~= (p + y).subrange(p.len() as int, (p + y).len() as int));
}

/// Two runs of digits, each followed by text that opens with a non-digit,
/// split the same way when the wholes are equal.
proof fn lemma_digits_split(d1: Seq<u8>, t1: Seq<u8>, d2: Seq<u8>, t2: Seq<u8>)
    requires
        all_digits(d1),
        all_digits(d2),
        t1.len() > 0 && !(48 <= t1[0] <= 57),
        t2.len() > 0 && !(48 <= t2[0] <= 57),
        d1 + t1 == d2 + t2,
    ensures
        d1 == d2,
        t1 == t2,
{
    if d1.len() < d2.len() {
        assert((d1 + t1)[d1.len() as int] == t1[0]);
        assert((d2 + t2)[d1.len() as int] == d2[d1.len() as int]);
    } else if d2.len() < d1.len() {
        assert((d2 + t2)[d2.len() as int] == t2[0]);
        assert((d1 + t1)[d2.len() as int] == d1[d2.len() as int]);
    }
    assert(d1 =~= (d1 + t1).subrange(0, d1.len() as int));
    assert(d2 =~= (d2 + t2).subrange(0, d2.len() as int));
    lemma_strip_prefix(d1, t1, t2);
}

proof fn lemma_dec_then_text(a: nat, t1: Seq<u8>, b: nat, t2: Seq<u8>)
    requires
        t1.len() > 0 && !(48 <= t1[0] <= 57),
        t2.len() > 0 && !(48 <= t2[0] <= 57),
        dec(a) + t1 == dec(b) + t2,
    ensures
        a == b,
        t1 == t2,
{
    lemma_dec_digits(a);
    lemma_dec_digits(b);
    lemma_digits_split(dec(a), t1, dec(b), t2);
    lemma_dec_value(a);
    lemma_dec_value(b);
}

proof fn lemma_optional_split(a: Option<u32>, r1: Seq<u8>, b: Option<u32>, r2: Seq<u8>)
    requires
        optional_text(a) + r1 == optional_text(b) + r2,
    ensures
        a == b,
        r1 == r2,
{
    reveal_strlit("None");
    reveal_strlit("Some(");
    reveal_strlit(")");
    lemma_ascii_bytes("None");
    lemma_ascii_bytes("Some(");
    lemma_ascii_bytes(")");
    let c = ")".spec_bytes();
    let none = "None".spec_bytes();
    let some = "Some(".spec_bytes();
    assert(none[0] == 78u8);
    assert(some[0] == 83u8);
    match (a, b) {
        (None, None) => {
            lemma_strip_prefix("None".spec_bytes(), r1, r2);
        },
        (None, Some(y)) => {
            assert((optional_text(a) + r1)[0] == none[0]);
            assert(optional_text(b) == some + (dec(y as nat) + c));
            assert((optional_text(b) + r2)[0] == some[0]);
        },
        (Some(x), None) => {
            assert((optional_text(b) + r2)[0] == none[0]);
            assert(optional_text(a) == some + (dec(x as nat) + c));
            assert((optional_text(a) + r1)[0] == some[0]);
        },
        (Some(x), Some(y)) => {
            let s = "Some(".spec_bytes();
            assert(optional_text(a) + r1 =~= s + (dec(x as nat) + (c + r1)));
            assert(optional_text(b) + r2 =~= s + (dec(y as nat) + (c + r2)));
            lemma_strip_prefix(s, dec(x as nat) + (c + r1), dec(y as nat) + (c + r2));
            lemma_dec_then_text(x as nat, c + r1, y as nat, c + r2);
            lemma_strip_prefix(c, r1, r2);
        },
    }
}

/// Options that differ in any field give different digest inputs for the
/// same path, so their keys differ unless SHA-256 collides.
pub proof fn lemma_distinct_options_distinct_inputs(
    path: Seq<u8>,
    o1: TransformOptions,
    o2: TransformOptions,
)
    requires
        o1 != o2,
    ensures
        digest_input(path, o1) != digest_input(path, o2),
{
    if digest_input(path, o1) == digest_input(path, o2) {
        reveal_strlit("w");
        reveal_strlit("h");
        reveal_strlit("q");
        reveal_strlit("fmt");
        reveal_strlit("Jpeg(");
        reveal_strlit("Png");
        reveal_strlit("WebP");
        lemma_ascii_bytes("w");
        lemma_ascii_bytes("h");
        lemma_ascii_bytes("q");
        lemma_ascii_bytes("fmt");
        lemma_ascii_bytes("Jpeg(");
        lemma_ascii_bytes("Png");
        lemma_ascii_bytes("WebP");
        lemma_strip_prefix(path, options_text(o1), options_text(o2));
        lemma_strip_prefix(
            "w".spec_bytes(),
            optional_text(o1.width) + height_text(o1),
            optional_text(o2.width) + height_text(o2),
        );
        lemma_optional_split(o1.width, height_text(o1), o2.width, height_text(o2));
        lemma_strip_prefix(
            "h".spec_bytes(),
            optional_text(o1.height) + quality_text(o1),
            optional_text(o2.height) + quality_text(o2),
        );
        lemma_optional_split(o1.height, quality_text(o1), o2.height, quality_text(o2));
        let f1 = "fmt".spec_bytes() + format_text(o1.format, o1.quality);
        let f2 = "fmt".spec_bytes() + format_text(o2.format, o2.quality);
        lemma_strip_prefix("q".spec_bytes(), dec(o1.quality as nat) + f1, dec(o2.quality as nat) + f2);
        assert(f1[0] == 102u8);
        assert(f2[0] == 102u8);
        lemma_dec_then_text(o1.quality as nat, f1, o2.quality as nat, f2);
        let g1 = format_text(o1.format, o1.quality);
        let g2 = format_text(o2.format, o2.quality);
        lemma_strip_prefix("fmt".spec_bytes(), g1, g2);
        assert(g1[0] == g2[0]);
        assert(o1.format == o2.format);
        assert(o1 == o2);
    }
}

} // verus!
