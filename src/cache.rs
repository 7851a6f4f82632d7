//! Freshness of cached entries. Entries carry no metadata of their own: an
//! entry's age is read from its storage's last-write time, and an entry older
//! than the configured maximum age counts as absent.
use vstd::prelude::*;

verus! {

/// Nanoseconds in a day.
pub const NANOS_PER_DAY: u128 = 86_400_000_000_000;

/// The cache's configuration: how long an entry stays fresh.
#[derive(Clone, Copy, Debug, PartialEq, Eq, Structural)]
pub struct ImageCache {
    pub max_age_nanos: u128,
}

/// A stored entry as read back: its bytes and its last-write time, in
/// nanoseconds since the Unix epoch.
pub struct CacheEntry {
    pub data: Vec<u8>,
    pub modified_nanos: u128,
}

/// An entry written at `modified` is fresh at `now` when it is not from the
/// future and its age is at most `max_age`.
pub open spec fn fresh(now: u128, modified: u128, max_age: u128) -> bool {
    modified <= now && now - modified <= max_age
}

/// What a lookup yields for a stored entry (bytes and write time), if any.
pub open spec fn lookup(entry: Option<(Seq<u8>, u128)>, now: u128, max_age: u128) -> Option<
    Seq<u8>,
> {
    match entry {
        Some((data, modified)) => if fresh(now, modified, max_age) {
            Some(data)
        } else {
            None
        },
        None => None,
    }
}

/// The bytes and write time of an entry.
pub open spec fn entry_view(entry: Option<CacheEntry>) -> Option<(Seq<u8>, u128)> {
    match entry {
        Some(e) => Some((e.data@, e.modified_nanos)),
        None => None,
    }
}

impl ImageCache {
    /// A cache whose entries stay fresh for `max_age_days` days.
    pub fn new(max_age_days: u64) -> (r: ImageCache)
        ensures
            r.max_age_nanos == max_age_days as int * NANOS_PER_DAY,
    {
        assert(max_age_days as int * NANOS_PER_DAY <= u128::MAX) by (nonlinear_arith)
            requires
                max_age_days <= u64::MAX,
        ;
        ImageCache { max_age_nanos: max_age_days as u128 * NANOS_PER_DAY }
    }

    /// Whether an entry written at `modified_nanos` is fresh at `now_nanos`.
    pub fn is_fresh(&self, now_nanos: u128, modified_nanos: u128) -> (r: bool)
        ensures
            r == fresh(now_nanos, modified_nanos, self.max_age_nanos),
    {
        modified_nanos <= now_nanos && now_nanos - modified_nanos <= self.max_age_nanos
    }

    /// The bytes of `entry` if it is present and fresh at `now_nanos`; an
    /// absent, unreadable or expired entry is a miss. Expiry is lazy: the
    /// lookup only reads what it is given, so an expired entry stays in
    /// storage until a later store overwrites it.
    pub fn get_cached(&self, entry: Option<CacheEntry>, now_nanos: u128) -> (r: Option<Vec<u8>>)
        ensures
            match r {
                Some(d) => lookup(entry_view(entry), now_nanos, self.max_age_nanos) == Some(d@),
                None => lookup(entry_view(entry), now_nanos, self.max_age_nanos) is None,
            },
    {
        match entry {
            Some(e) => if self.is_fresh(now_nanos, e.modified_nanos) {
                Some(e.data)
            } else {
                None
            },
            None => None,
        }
    }
}

/// An entry read back at the moment it was written yields exactly the bytes
/// that were stored.
pub proof fn lemma_store_then_get(data: Seq<u8>, written: u128, max_age: u128)
    ensures
        lookup(Some((data, written)), written, max_age) == Some(data),
{
}

/// An entry older than the maximum age is a miss, though storage still
/// holds it.
pub proof fn lemma_expired_is_miss(data: Seq<u8>, written: u128, now: u128, max_age: u128)
    requires
        written <= now,
        now - written > max_age,
    ensures
        lookup(Some((data, written)), now, max_age) is None,
{
}

} // verus!
