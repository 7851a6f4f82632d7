//! Reading the head of a plain-text request: its request line, the split of
//! the target into path and query, and whether the caller accepts gzip.
use vstd::prelude::*;
use vstd::string::StringSliceAdditionalSpecFns;
use vstd::slice::{slice_subrange, slice_to_vec};
use crate::text::{bytes_eq, find_first, first_index, lemma_first_index_bounds};

verus! {

/// ASCII whitespace: space, tab, line feed, vertical tab, form feed, carriage return.
pub open spec fn is_space(b: u8) -> bool {
    b == 32 || (9 <= b <= 13)
}

/// The first index at or after `i` that holds no whitespace, or the length.
pub open spec fn skip_space(s: Seq<u8>, i: int) -> int
    decreases s.len() - i,
{
    if i < 0 || i >= s.len() {
        i
    } else if is_space(s[i]) {
        skip_space(s, i + 1)
    } else {
        i
    }
}

/// The first index at or after `i` that holds whitespace, or the length.
pub open spec fn word_end(s: Seq<u8>, i: int) -> int
    decreases s.len() - i,
{
    if i < 0 || i >= s.len() {
        i
    } else if is_space(s[i]) {
        i
    } else {
        word_end(s, i + 1)
    }
}

/// The method and target of a request line with at least three words.
pub open spec fn line_words(line: Seq<u8>) -> Option<(Seq<u8>, Seq<u8>)> {
    let a = skip_space(line, 0);
    let b = word_end(line, a);
    let c = skip_space(line, b);
    let d = word_end(line, c);
    let e = skip_space(line, d);
    if a >= line.len() || c >= line.len() || e >= line.len() {
        None
    } else {
        Some((line.subrange(a, b), line.subrange(c, d)))
    }
}

/// ASCII lower case.
pub open spec fn lower(b: u8) -> u8 {
    if 65 <= b <= 90 {
        (b + 32) as u8
    } else {
        b
    }
}

/// `pat` occurs in `s` at `i`, ignoring ASCII case in `s`.
pub open spec fn matches_at(s: Seq<u8>, i: int, pat: Seq<u8>) -> bool {
    0 <= i && i + pat.len() <= s.len() && forall|j: int| 0 <= j < pat.len() ==> lower(#[trigger] s[i + j]) == pat[j]
}

/// A header line that announces gzip among the accepted encodings.
pub open spec fn announces_gzip(line: Seq<u8>) -> bool {
    matches_at(line, 0, "accept-encoding:".spec_bytes()) && exists|i: int| matches_at(line, i, "gzip".spec_bytes())
}

/// Some line of `s` announces gzip.
pub open spec fn any_line_announces_gzip(s: Seq<u8>) -> bool
    decreases s.len(),
{
    let k = first_index(s, 10u8);
    announces_gzip(s.subrange(0, k)) || (0 <= k < s.len() && any_line_announces_gzip(
        s.subrange(k + 1, s.len() as int),
    ))
}

/// The head of a request: its method, the path and query of its target, and
/// whether the caller accepts gzip.
pub struct RequestHead {
    pub method: Vec<u8>,
    pub path: Vec<u8>,
    pub query: Option<Vec<u8>>,
    pub accepts_gzip: bool,
}

/// The path of a target: what precedes its first `?`.
pub open spec fn target_path(t: Seq<u8>) -> Seq<u8> {
    t.subrange(0, first_index(t, 63u8))
}

/// The query of a target: what lies between its first and second `?`.
pub open spec fn target_query(t: Seq<u8>) -> Option<Seq<u8>> {
    let k = first_index(t, 63u8);
    if 0 <= k < t.len() {
        let rest = t.subrange(k + 1, t.len() as int);
        Some(rest.subrange(0, first_index(rest, 63u8)))
    } else {
        None
    }
}

fn skip_space_exec(s: &[u8], i: usize) -> (r: usize)
    requires
        i <= s@.len(),
    ensures
        r == skip_space(s@, i as int),
        i <= r <= s@.len(),
{
    let mut j = i;
    while j < s.len() && (s[j] == 32 || (9 <= s[j] && s[j] <= 13))
        invariant
            i <= j <= s@.len(),
            skip_space(s@, j as int) == skip_space(s@, i as int),
        decreases s@.len() - j,
    {
        j = j + 1;
    }
    j
}

fn word_end_exec(s: &[u8], i: usize) -> (r: usize)
    requires
        i <= s@.len(),
    ensures
        r == word_end(s@, i as int),
        i <= r <= s@.len(),
{
    let mut j = i;
    while j < s.len() && !(s[j] == 32 || (9 <= s[j] && s[j] <= 13))
        invariant
            i <= j <= s@.len(),
            word_end(s@, j as int) == word_end(s@, i as int),
        decreases s@.len() - j,
    {
        j = j + 1;
    }
    j
}

fn matches_at_exec(s: &[u8], i: usize, pat: &str) -> (r: bool)
    ensures
        r == matches_at(s@, i as int, pat.spec_bytes()),
{
    let p = pat.as_bytes();
    let n = s.len();
    if i > n || p.len() > n - i {
        return false;
    }
    let mut j: usize = 0;
    while j < p.len()
        invariant
            n == s@.len(),
            p@ == pat.spec_bytes(),
            i + p@.len() <= s@.len(),
            j <= p@.len(),
            forall|k: int| 0 <= k < j ==> lower(#[trigger] s@[i + k]) == p@[k],
        decreases p@.len() - j,
    {
        let b = s[i + j];
        let l: u8 = if 65 <= b && b <= 90 {
            b + 32
        } else {
            b
        };
        if l != p[j] {
            assert(lower(s@[i + j]) != p@[j as int]);
            return false;
        }
        j = j + 1;
    }
    true
}

fn contains_exec(s: &[u8], pat: &str) -> (r: bool)
    ensures
        r == exists|i: int| matches_at(s@, i, pat.spec_bytes()),
{
    let mut i: usize = 0;
    while i < s.len()
        invariant
            i <= s@.len(),
            forall|k: int| 0 <= k < i ==> !matches_at(s@, k, pat.spec_bytes()),
        decreases s@.len() - i,
    {
        if matches_at_exec(s, i, pat) {
            return true;
        }
        i = i + 1;
    }
    if matches_at_exec(s, i, pat) {
        return true;
    }
    assert forall|k: int| !matches_at(s@, k, pat.spec_bytes()) by {
        if 0 <= k < i {
        } else if k > s@.len() {
        }
    }
    false
}

/// Whether some line of `request` starts with `accept-encoding:` and holds
/// `gzip`, both in any ASCII case.
pub fn accepts_gzip(request: &[u8]) -> (r: bool)
    ensures
        r == any_line_announces_gzip(request@),
{
    let n = request.len();
    let mut start: usize = 0;
    assert(request@.subrange(0, n as int) =~= request@);
    loop
        invariant
            n == request@.len(),
            start <= n,
            any_line_announces_gzip(request@.subrange(start as int, n as int))
                ==> any_line_announces_gzip(request@),
            any_line_announces_gzip(request@) ==> any_line_announces_gzip(
                request@.subrange(start as int, n as int),
            ),
        decreases n - start,
    {
        let ghost tail = request@.subrange(start as int, n as int);
        let rest = slice_subrange(request, start, n);
        let k = find_first(rest, 10u8);
        proof { lemma_first_index_bounds(rest@, 10u8); }
        let line = slice_subrange(rest, 0, k);
        if matches_at_exec(line, 0, "accept-encoding:") && contains_exec(line, "gzip") {
            return true;
        }
        if k >= rest.len() {
            return false;
        }
        assert(tail.subrange(k + 1, tail.len() as int) =~= request@.subrange(start + k + 1, n as int));
        start = start + k + 1;
    }
}

/// Reads the head of `request`: the method and target are the first two
/// words of its first line, which must have a third; `None` otherwise.
pub fn parse_request_head(request: &[u8]) -> (r: Option<RequestHead>)
    ensures
        ({
            let line = request@.subrange(0, first_index(request@, 10u8));
            match line_words(line) {
                None => r is None,
                Some((m, t)) => r matches Some(h) && h.method@ == m && h.path@ == target_path(t)
                    && match target_query(t) {
                    Some(q) => h.query matches Some(hq) && hq@ == q,
                    None => h.query is None,
                } && h.accepts_gzip == any_line_announces_gzip(request@),
            }
        }),
{
    let k = find_first(request, 10u8);
    proof { lemma_first_index_bounds(request@, 10u8); }
    let line = slice_subrange(request, 0, k);
    let a = skip_space_exec(line, 0);
    let b = word_end_exec(line, a);
    let c = skip_space_exec(line, b);
    let d = word_end_exec(line, c);
    let e = skip_space_exec(line, d);
    if a >= line.len() || c >= line.len() || e >= line.len() {
        return None;
    }
    let method = slice_to_vec(slice_subrange(line, a, b));
    let target = slice_subrange(line, c, d);
    let q = find_first(target, 63u8);
    proof { lemma_first_index_bounds(target@, 63u8); }
    let path = slice_to_vec(slice_subrange(target, 0, q));
    let query = if q < target.len() {
        let rest = slice_subrange(target, q + 1, target.len());
        let qe = find_first(rest, 63u8);
        proof { lemma_first_index_bounds(rest@, 63u8); }
        Some(slice_to_vec(slice_subrange(rest, 0, qe)))
    } else {
        None
    };
    Some(RequestHead { method, path, query, accepts_gzip: accepts_gzip(request) })
}

/// Where a request goes.
pub enum Route {
    /// Serve the file at `path`, with the query if any.
    Serve { path: Vec<u8>, query: Option<Vec<u8>> },
    /// Anything but `GET`.
    NotFound,
}

/// `GET /` serves the index page without a query; any other `GET` serves its
/// path with its query; other methods are not found.
pub fn route(head: RequestHead) -> (r: Route)
    ensures
        if head.method@ != "GET".spec_bytes() {
            r is NotFound
        } else if head.path@ == "/".spec_bytes() {
            r matches Route::Serve { path, query } && path@ == "/index.html".spec_bytes() && query is None
        } else {
            r matches Route::Serve { path, query } && path@ == head.path@ && match head.query {
                Some(q) => query matches Some(rq) && rq@ == q@,
                None => query is None,
            }
        },
{
    if !bytes_eq(head.method.as_slice(), "GET") {
        return Route::NotFound;
    }
    if bytes_eq(head.path.as_slice(), "/") {
        let index = "/index.html".as_bytes();
        return Route::Serve { path: slice_to_vec(index), query: None };
    }
    Route::Serve { path: head.path, query: head.query }
}

} // verus!
