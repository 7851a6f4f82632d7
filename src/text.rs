//! Byte-level text helpers shared by the parser and the response builder.
use vstd::prelude::*;
use vstd::string::{is_ascii, is_ascii_spec_bytes, StringSliceAdditionalSpecFns};

verus! {

/// The ASCII decimal rendering of `n`, without leading zeros.
pub open spec fn dec(n: nat) -> Seq<u8>
    decreases n,
{
    if n < 10 {
        seq![(48 + n) as u8]
    } else {
        dec(n / 10).push((48 + n % 10) as u8)
    }
}

/// The bytes of an ASCII string are its characters, one byte each.
pub proof fn lemma_ascii_bytes(s: &str)
    requires
        is_ascii(s),
    ensures
        s.spec_bytes().len() == s@.len(),
        forall|i: int| 0 <= i < s@.len() ==> s.spec_bytes()[i] == s@[i] as u8,
{
    is_ascii_spec_bytes(s);
}

/// A decimal rendering is a non-empty run of ASCII digits.
pub proof fn lemma_dec_digits(n: nat)
    ensures
        dec(n).len() > 0,
        forall|i: int| 0 <= i < dec(n).len() ==> 48 <= #[trigger] dec(n)[i] <= 57,
    decreases n,
{
    if n >= 10 {
        lemma_dec_digits(n / 10);
    }
}

/// Appends the UTF-8 bytes of `s` to `out`.
pub fn push_str(out: &mut Vec<u8>, s: &str)
    ensures
        final(out)@ == old(out)@ + s.spec_bytes(),
{
    let b = s.as_bytes();
    let ghost start = out@;
    let mut i: usize = 0;
    while i < b.len()
        invariant
            b@ == s.spec_bytes(),
            i <= b@.len(),
            out@ == start + b@.subrange(0, i as int),
        decreases b@.len() - i,
    {
        out.push(b[i]);
        i = i + 1;
        assert(b@.subrange(0, i as int) == b@.subrange(0, i - 1) .push(b@[i - 1]));
    }
    assert(b@.subrange(0, b@.len() as int) == b@);
}

/// Appends the bytes of `s` to `out`.
pub fn push_bytes(out: &mut Vec<u8>, s: &[u8])
    ensures
        final(out)@ == old(out)@ + s@,
{
    let ghost start = out@;
    let mut i: usize = 0;
    while i < s.len()
        invariant
            i <= s@.len(),
            out@ == start + s@.subrange(0, i as int),
        decreases s@.len() - i,
    {
        out.push(s[i]);
        i = i + 1;
        assert(s@.subrange(0, i as int) == s@.subrange(0, i - 1).push(s@[i - 1]));
    }
    assert(s@.subrange(0, s@.len() as int) == s@);
}

/// Appends the decimal rendering of `n` to `out`.
pub fn push_dec(out: &mut Vec<u8>, n: u64)
    ensures
        final(out)@ == old(out)@ + dec(n as nat),
    decreases n,
{
    if n >= 10 {
        push_dec(out, n / 10);
    }
    out.push((48 + n % 10) as u8);
    assert(old(out)@ + dec(n as nat) == out@) by {
        if n >= 10 {
            assert(dec(n as nat) == dec((n / 10) as nat).push((48 + n % 10) as u8));
        }
    }
}

/// Whether the bytes `a` spell exactly the string `s`.
pub fn bytes_eq(a: &[u8], s: &str) -> (r: bool)
    ensures
        r == (a@ == s.spec_bytes()),
{
    let b = s.as_bytes();
    if a.len() != b.len() {
        return false;
    }
    let mut i: usize = 0;
    while i < a.len()
        invariant
            a@.len() == b@.len(),
            b@ == s.spec_bytes(),
            i <= a@.len(),
            forall|j: int| 0 <= j < i ==> a@[j] == b@[j],
        decreases a@.len() - i,
    {
        if a[i] != b[i] {
            return false;
        }
        i = i + 1;
    }
    assert(a@ == b@);
    true
}

/// The index of the last `c` in `s`, or -1 when there is none.
pub open spec fn last_index(s: Seq<u8>, c: u8) -> int
    decreases s.len(),
{
    if s.len() == 0 {
        -1
    } else if s.last() == c {
        s.len() - 1
    } else {
        last_index(s.drop_last(), c)
    }
}

/// The index of the first `c` in `s`, or `s.len()` when there is none.
pub open spec fn first_index(s: Seq<u8>, c: u8) -> int
    decreases s.len(),
{
    if s.len() == 0 {
        0
    } else if s[0] == c {
        0
    } else {
        1 + first_index(s.drop_first(), c)
    }
}

pub proof fn lemma_last_index(s: Seq<u8>, c: u8, k: int)
    requires
        -1 <= k < s.len(),
        k >= 0 ==> s[k] == c,
        forall|j: int| k < j < s.len() ==> s[j] != c,
    ensures
        last_index(s, c) == k,
    decreases s.len(),
{
    if s.len() > 0 && k < s.len() - 1 {
        lemma_last_index(s.drop_last(), c, k);
    }
}

pub proof fn lemma_first_index(s: Seq<u8>, c: u8, k: int)
    requires
        0 <= k <= s.len(),
        k < s.len() ==> s[k] == c,
        forall|j: int| 0 <= j < k ==> s[j] != c,
    ensures
        first_index(s, c) == k,
    decreases s.len(),
{
    if s.len() > 0 && k > 0 {
        lemma_first_index(s.drop_first(), c, k - 1);
    }
}

pub proof fn lemma_first_index_bounds(s: Seq<u8>, c: u8)
    ensures
        0 <= first_index(s, c) <= s.len(),
        first_index(s, c) < s.len() ==> s[first_index(s, c)] == c,
    decreases s.len(),
{
    if s.len() > 0 && s[0] != c {
        lemma_first_index_bounds(s.drop_first(), c);
    }
}

/// Finds the last `c` in `s`.
pub fn find_last(s: &[u8], c: u8) -> (r: Option<usize>)
    ensures
        match r {
            Some(k) => k == last_index(s@, c) && k < s@.len(),
            None => last_index(s@, c) == -1,
        },
{
    let mut i: usize = s.len();
    while i > 0
        invariant
            i <= s@.len(),
            forall|j: int| i <= j < s@.len() ==> s@[j] != c,
        decreases i,
    {
        if s[i - 1] == c {
            proof { lemma_last_index(s@, c, i - 1); }
            return Some(i - 1);
        }
        i = i - 1;
    }
    proof { lemma_last_index(s@, c, -1); }
    None
}

/// Finds the first `c` in `s`; the length of `s` when there is none.
pub fn find_first(s: &[u8], c: u8) -> (r: usize)
    ensures
        r == first_index(s@, c),
{
    let mut i: usize = 0;
    while i < s.len() && s[i] != c
        invariant
            i <= s@.len(),
            forall|j: int| 0 <= j < i ==> s@[j] != c,
        decreases s@.len() - i,
    {
        i = i + 1;
    }
    proof { lemma_first_index(s@, c, i as int); }
    i
}

} // verus!
