//! Turning a raw query string into canonical transform options.
use vstd::prelude::*;
use vstd::string::StringSliceAdditionalSpecFns;
use vstd::slice::slice_subrange;
use crate::text::{bytes_eq, find_first, first_index};

verus! {

/// The encoding of a transformed image. A JPEG takes its quality from the
/// options' `quality`, so the two can never disagree.
#[derive(Clone, Copy, Debug, PartialEq, Eq, Structural)]
pub enum OutputFormat {
    Jpeg,
    Png,
    WebP,
}

/// What a caller asked for: a target box, a quality and an output format.
#[derive(Clone, Copy, Debug, PartialEq, Eq, Structural)]
pub struct TransformOptions {
    pub width: Option<u32>,
    pub height: Option<u32>,
    pub quality: u8,
    pub format: OutputFormat,
}

/// The quality used when the query gives none.
pub const DEFAULT_QUALITY: u8 = 80;

impl TransformOptions {
    /// The quality lies in `[0, 100]`.
    pub open spec fn wf(self) -> bool {
        self.quality <= 100
    }

    /// No resize, quality 80, JPEG.
    pub open spec fn spec_defaults() -> TransformOptions {
        TransformOptions { width: None, height: None, quality: DEFAULT_QUALITY, format: OutputFormat::Jpeg }
    }

    /// The options of an empty query.
    pub fn defaults() -> (r: TransformOptions)
        ensures
            r == TransformOptions::spec_defaults(),
            r.wf(),
    {
        TransformOptions { width: None, height: None, quality: DEFAULT_QUALITY, format: OutputFormat::Jpeg }
    }

    /// Parses an `&`-separated list of `key=value` pairs, left to right.
    /// Unknown keys and pairs without `=` are skipped; values that do not
    /// parse leave the options as the key's rule says. Never fails.
    pub fn from_query(query: &str) -> (r: TransformOptions)
        ensures
            r == apply_query(TransformOptions::spec_defaults(), query.spec_bytes()),
            r.wf(),
        decreases query.spec_bytes().len(),
    {
        let q = query.as_bytes();
        let n = q.len();
        let mut opts = TransformOptions::defaults();
        let mut start: usize = 0;
        assert(q@.subrange(0, n as int) =~= q@);
        loop
            invariant
                q@ == query.spec_bytes(),
                n == q@.len(),
                start <= n,
                opts.wf(),
                apply_query(opts, q@.subrange(start as int, n as int)) == apply_query(
                    TransformOptions::spec_defaults(),
                    q@,
                ),
            decreases n - start,
        {
            let ghost tail = q@.subrange(start as int, n as int);
            let rest = slice_subrange(q, start, n);
            let k = find_first(rest, 38u8);
            proof { crate::text::lemma_first_index_bounds(rest@, 38u8); }
            let seg = slice_subrange(rest, 0, k);
            opts = apply_param(opts, seg);
            if k >= rest.len() {
                assert(q@.subrange(0, n as int) == q@);
                return opts;
            }
            assert(tail.subrange(k + 1, tail.len() as int) == q@.subrange(start + k + 1, n as int));
            start = start + k + 1;
        }
    }
}

/// Every byte is an ASCII digit.
pub open spec fn all_digits(d: Seq<u8>) -> bool {
    forall|i: int| 0 <= i < d.len() ==> 48 <= #[trigger] d[i] <= 57
}

/// The value of a string of decimal digits.
pub open spec fn digits_value(d: Seq<u8>) -> nat
    decreases d.len(),
{
    if d.len() == 0 {
        0
    } else {
        digits_value(d.drop_last()) * 10 + (d.last() - 48) as nat
    }
}

/// An unsigned decimal number: an optional `+` and at least one digit.
pub open spec fn parse_nat(s: Seq<u8>) -> Option<nat> {
    let d = if s.len() > 1 && s[0] == 43u8 {
        s.drop_first()
    } else {
        s
    };
    if d.len() > 0 && all_digits(d) {
        Some(digits_value(d))
    } else {
        None
    }
}

/// A dimension: a decimal number in `1..=u32::MAX`, else unset.
pub open spec fn parse_dimension(v: Seq<u8>) -> Option<u32> {
    match parse_nat(v) {
        Some(n) => if 0 < n <= u32::MAX {
            Some(n as u32)
        } else {
            None
        },
        None => None,
    }
}

/// Applies one recognised key with its value.
pub open spec fn apply_pair(o: TransformOptions, key: Seq<u8>, v: Seq<u8>) -> TransformOptions {
    if key == "w".spec_bytes() || key == "width".spec_bytes() {
        TransformOptions { width: parse_dimension(v), ..o }
    } else if key == "h".spec_bytes() || key == "height".spec_bytes() {
        TransformOptions { height: parse_dimension(v), ..o }
    } else if key == "q".spec_bytes() || key == "quality".spec_bytes() {
        match parse_nat(v) {
            Some(n) => TransformOptions { quality: if n > 100 { 100u8 } else { n as u8 }, ..o },
            None => o,
        }
    } else if key == "fmt".spec_bytes() {
        if v == "jpg".spec_bytes() || v == "jpeg".spec_bytes() {
            TransformOptions { format: OutputFormat::Jpeg, ..o }
        } else if v == "png".spec_bytes() {
            TransformOptions { format: OutputFormat::Png, ..o }
        } else if v == "webp".spec_bytes() {
            TransformOptions { format: OutputFormat::WebP, ..o }
        } else {
            o
        }
    } else {
        o
    }
}

/// Applies one `key=value` segment: the key runs to the first `=`, the value
/// to the next `=` or the end. A segment without `=` changes nothing.
pub open spec fn apply_segment(o: TransformOptions, seg: Seq<u8>) -> TransformOptions {
    let e = first_index(seg, 61u8);
    if e >= seg.len() {
        o
    } else {
        let rest = seg.subrange(e + 1, seg.len() as int);
        apply_pair(o, seg.subrange(0, e), rest.subrange(0, first_index(rest, 61u8)))
    }
}

/// Applies the `&`-separated segments of `q` from left to right.
pub open spec fn apply_query(o: TransformOptions, q: Seq<u8>) -> TransformOptions
    decreases q.len(),
{
    let k = first_index(q, 38u8);
    let o2 = apply_segment(o, q.subrange(0, k));
    if 0 <= k < q.len() {
        apply_query(o2, q.subrange(k + 1, q.len() as int))
    } else {
        o2
    }
}

/// Numbers are read up to this cap; anything larger reads as the cap.
pub const NUMBER_CAP: u64 = 0x1_0000_0000;

/// The value of `n`, capped at `NUMBER_CAP`.
pub open spec fn capped(n: nat) -> nat {
    if n >= NUMBER_CAP {
        NUMBER_CAP as nat
    } else {
        n
    }
}

/// Parses an unsigned decimal number, reading any value at or above
/// `NUMBER_CAP` as `NUMBER_CAP`.
pub fn parse_capped(s: &[u8]) -> (r: Option<u64>)
    ensures
        match parse_nat(s@) {
            Some(n) => r == Some(capped(n) as u64),
            None => r is None,
        },
{
    let n = s.len();
    let start: usize = if n > 1 && s[0] == 43u8 {
        1
    } else {
        0
    };
    let ghost d = s@.subrange(start as int, n as int);
    assert(d =~= if s@.len() > 1 && s@[0] == 43u8 { s@.drop_first() } else { s@ });
    if start == n {
        return None;
    }
    let mut acc: u64 = 0;
    let mut i: usize = start;
    while i < n
        invariant
            start <= i <= n,
            n == s@.len(),
            d == s@.subrange(start as int, n as int),
            d.len() > 0,
            parse_nat(s@) == (if all_digits(d) {
                Some(digits_value(d))
            } else {
                None
            }),
            all_digits(d.subrange(0, i - start)),
            acc == capped(digits_value(d.subrange(0, i - start))),
        decreases n - i,
    {
        let c = s[i];
        if c < 48 || c > 57 {
            assert(d[i - start] == c);
            assert(!all_digits(d));
            return None;
        }
        let ghost prev = d.subrange(0, i - start);
        if acc < NUMBER_CAP {
            acc = acc * 10 + (c - 48) as u64;
            if acc > NUMBER_CAP {
                acc = NUMBER_CAP;
            }
        }
        i = i + 1;
        assert(d.subrange(0, i - start).drop_last() =~= prev);
        assert(d.subrange(0, i - start).last() == c);
        assert(digits_value(d.subrange(0, i - start)) == digits_value(prev) * 10 + (c - 48) as nat);
        assert(all_digits(d.subrange(0, i - start)));
    }
    assert(d.subrange(0, i - start) == d);
    Some(acc)
}

/// Parses an unsigned decimal number that fits in a `u32`.
pub fn parse_u32(s: &[u8]) -> (r: Option<u32>)
    ensures
        match r {
            Some(v) => parse_nat(s@) == Some(v as nat),
            None => parse_nat(s@) is None || parse_nat(s@).unwrap() > u32::MAX,
        },
{
    match parse_capped(s) {
        Some(v) => if v <= 0xffff_ffff {
            Some(v as u32)
        } else {
            None
        },
        None => None,
    }
}

fn parse_dimension_exec(v: &[u8]) -> (r: Option<u32>)
    ensures
        r == parse_dimension(v@),
{
    match parse_u32(v) {
        Some(n) => if n > 0 {
            Some(n)
        } else {
            None
        },
        None => None,
    }
}

fn apply_pair_exec(o: TransformOptions, key: &[u8], v: &[u8]) -> (r: TransformOptions)
    requires
        o.wf(),
    ensures
        r == apply_pair(o, key@, v@),
        r.wf(),
{
    if bytes_eq(key, "w") || bytes_eq(key, "width") {
        TransformOptions { width: parse_dimension_exec(v), ..o }
    } else if bytes_eq(key, "h") || bytes_eq(key, "height") {
        TransformOptions { height: parse_dimension_exec(v), ..o }
    } else if bytes_eq(key, "q") || bytes_eq(key, "quality") {
        match parse_capped(v) {
            Some(n) => {
                let q: u8 = if n > 100 {
                    100
                } else {
                    n as u8
                };
                TransformOptions { quality: q, ..o }
            },
            None => o,
        }
    } else if bytes_eq(key, "fmt") {
        if bytes_eq(v, "jpg") || bytes_eq(v, "jpeg") {
            TransformOptions { format: OutputFormat::Jpeg, ..o }
        } else if bytes_eq(v, "png") {
            TransformOptions { format: OutputFormat::Png, ..o }
        } else if bytes_eq(v, "webp") {
            TransformOptions { format: OutputFormat::WebP, ..o }
        } else {
            o
        }
    } else {
        o
    }
}

fn apply_param(o: TransformOptions, seg: &[u8]) -> (r: TransformOptions)
    requires
        o.wf(),
    ensures
        r == apply_segment(o, seg@),
        r.wf(),
{
    let n = seg.len();
    let e = find_first(seg, 61u8);
    if e >= n {
        return o;
    }
    let rest = slice_subrange(seg, e + 1, n);
    let v_end = find_first(rest, 61u8);
    proof { crate::text::lemma_first_index_bounds(rest@, 61u8); }
    let key = slice_subrange(seg, 0, e);
    let v = slice_subrange(rest, 0, v_end);
    apply_pair_exec(o, key, v)
}

} // verus!
