//! Bucket usage kept in memory, which requests change at once and scanner snapshots catch up with.
//!
//! A scanner snapshot is complete but late; a request knows only what it changed, but knows it
//! now. So each bucket keeps the counts that requests have made of the last snapshot, until a
//! snapshot comes that shows the same counts.

use crate::live::{invalidate_live_bucket_usage_cache, LiveBucketUsage};
use crate::name_map::{Duplicate, NameMap};
use crate::time::Timestamp;
use crate::usage;
use crate::usage::{BucketUsage, BucketUsageInfo};
use vstd::prelude::*;
use vstd::string::*;

verus! {

/// What a [`CachedBucketUsage`] stands for.
#[verifier::ext_equal]
pub struct CachedUsage {
    pub usage: BucketUsage,
    pub refreshed_at: Timestamp,
    pub usage_updated_at: Timestamp,
    pub dirty: bool,
    pub stale_snapshot_pending: bool,
}

/// The usage of one bucket as it is kept in memory.
pub struct CachedBucketUsage {
    pub usage: BucketUsageInfo,
    /// When the entry was last written.
    pub refreshed_at: Timestamp,
    /// Of when the counts are.
    pub usage_updated_at: Timestamp,
    /// Requests have changed the counts, and no snapshot has shown the same counts since.
    pub dirty: bool,
    /// A later snapshot was seen that does not have these counts yet.
    pub stale_snapshot_pending: bool,
}

impl View for CachedBucketUsage {
    type V = CachedUsage;

    open spec fn view(&self) -> CachedUsage {
        CachedUsage {
            usage: self.usage@,
            refreshed_at: self.refreshed_at,
            usage_updated_at: self.usage_updated_at,
            dirty: self.dirty,
            stale_snapshot_pending: self.stale_snapshot_pending,
        }
    }
}

impl Duplicate for CachedBucketUsage {
    fn duplicate(&self) -> (r: Self) {
        CachedBucketUsage {
            usage: self.usage.duplicate(),
            refreshed_at: self.refreshed_at,
            usage_updated_at: self.usage_updated_at,
            dirty: self.dirty,
            stale_snapshot_pending: self.stale_snapshot_pending,
        }
    }
}

/// The usage of the buckets in memory.
pub type UsageMemoryCache = NameMap<CachedBucketUsage>;

/// What [`UsageMemoryCache`] stands for.
pub type UsageMemory = Map<Seq<char>, CachedUsage>;

/// What is kept of a bucket's usage in a snapshot of `updated_at`, when it is loaded at `now`.
pub open spec fn from_backend(
    usage: BucketUsage,
    updated_at: Timestamp,
    now: Timestamp,
) -> CachedUsage {
    CachedUsage {
        usage,
        refreshed_at: now,
        usage_updated_at: updated_at,
        dirty: false,
        stale_snapshot_pending: false,
    }
}

/// What is kept of a bucket's usage in a snapshot of `updated_at`, when it is loaded at `now`.
pub fn cached_bucket_usage_from_backend(
    usage: BucketUsageInfo,
    updated_at: Timestamp,
    now: Timestamp,
) -> (r: CachedBucketUsage)
    ensures
        r@ == from_backend(usage@, updated_at, now),
{
    CachedBucketUsage {
        usage,
        refreshed_at: now,
        usage_updated_at: updated_at,
        dirty: false,
        stale_snapshot_pending: false,
    }
}

/// What is kept of a usage that is of `now`.
pub fn cached_bucket_usage_now(usage: BucketUsageInfo, now: Timestamp) -> (r: CachedBucketUsage)
    ensures
        r@ == from_backend(usage@, now, now),
{
    cached_bucket_usage_from_backend(usage, now, now)
}

/// What a request does to the counts of a bucket.
#[derive(Clone, Copy, Debug, PartialEq, Eq, Structural)]
pub enum UsageChange {
    /// An object was written whose previous current version, if any, is known.
    Write { previous_current_size: Option<u64>, new_size: u64, creates_new_version: bool },
    /// An object was written, and it is not known what it replaced.
    WriteUnknownPrevious { new_size: u64, creates_new_version: bool },
    /// Data was deleted, and with it a whole object or not.
    Delete { deleted_size: u64, removed_current_object: bool },
    /// A delete marker was put on an object.
    DeleteMarker,
}

/// `a` and `b` together.
pub open spec fn plus(a: u64, b: u64) -> u64 {
    usage::saturate((a + b) as nat)
}

/// What is left of `a` without `b`; nothing if `b` is larger.
pub open spec fn less(a: u64, b: u64) -> u64 {
    if a < b {
        0
    } else {
        (a - b) as u64
    }
}

/// The counts of a bucket after a change.
///
/// A write adds its size. It adds a version and an object if there was none before. Without a new
/// version it replaces the version that was there. If it is not known what a write replaced, only
/// what is certain is counted.
pub open spec fn changed_usage(u: BucketUsage, change: UsageChange) -> BucketUsage {
    match change {
        UsageChange::Write {
            previous_current_size,
            new_size,
            creates_new_version,
        } => match previous_current_size {
            None => BucketUsage {
                size: plus(u.size, new_size),
                objects_count: plus(u.objects_count, 1),
                versions_count: plus(u.versions_count, 1),
                ..u
            },
            Some(previous) => if creates_new_version {
                BucketUsage {
                    size: plus(u.size, new_size),
                    versions_count: plus(u.versions_count, 1),
                    ..u
                }
            } else {
                BucketUsage { size: plus(less(u.size, previous), new_size), ..u }
            },
        },
        UsageChange::WriteUnknownPrevious { new_size, creates_new_version } => BucketUsage {
            size: plus(u.size, new_size),
            versions_count: if creates_new_version {
                plus(u.versions_count, 1)
            } else {
                u.versions_count
            },
            ..u
        },
        UsageChange::Delete { deleted_size, removed_current_object } => if removed_current_object {
            BucketUsage {
                size: less(u.size, deleted_size),
                objects_count: less(u.objects_count, 1),
                versions_count: less(u.versions_count, 1),
                ..u
            }
        } else {
            BucketUsage { size: less(u.size, deleted_size), ..u }
        },
        UsageChange::DeleteMarker => BucketUsage {
            delete_markers_count: plus(u.delete_markers_count, 1),
            ..u
        },
    }
}

/// Changes the counts of a bucket.
fn change_usage(usage: &mut BucketUsageInfo, change: UsageChange)
    ensures
        final(usage)@ == changed_usage(old(usage)@, change),
{
    match change {
        UsageChange::Write { previous_current_size, new_size, creates_new_version } => {
            if creates_new_version {
                usage.size = usage.size.saturating_add(new_size);
                if previous_current_size.is_none() {
                    usage.objects_count = usage.objects_count.saturating_add(1);
                }
                usage.versions_count = usage.versions_count.saturating_add(1);
            } else {
                match previous_current_size {
                    Some(previous_size) => {
                        usage.size = usage.size.saturating_sub(previous_size).saturating_add(
                            new_size,
                        );
                    },
                    None => {
                        usage.size = usage.size.saturating_add(new_size);
                        usage.objects_count = usage.objects_count.saturating_add(1);
                        usage.versions_count = usage.versions_count.saturating_add(1);
                    },
                }
            }
        },
        UsageChange::WriteUnknownPrevious { new_size, creates_new_version } => {
            usage.size = usage.size.saturating_add(new_size);
            if creates_new_version {
                usage.versions_count = usage.versions_count.saturating_add(1);
            }
        },
        UsageChange::Delete { deleted_size, removed_current_object } => {
            usage.size = usage.size.saturating_sub(deleted_size);
            if removed_current_object {
                usage.objects_count = usage.objects_count.saturating_sub(1);
                usage.versions_count = usage.versions_count.saturating_sub(1);
            }
        },
        UsageChange::DeleteMarker => {
            usage.delete_markers_count = usage.delete_markers_count.saturating_add(1);
        },
    }
}

/// The counts of a bucket in memory; a bucket that is not there has none.
pub open spec fn remembered_usage(m: UsageMemory, bucket: Seq<char>) -> BucketUsage {
    if m.contains_key(bucket) {
        m[bucket].usage
    } else {
        usage::no_bucket_usage()
    }
}

/// What is in memory after a request of `now` has changed a bucket.
pub open spec fn recorded(
    m: UsageMemory,
    bucket: Seq<char>,
    change: UsageChange,
    now: Timestamp,
) -> UsageMemory {
    m.insert(
        bucket,
        CachedUsage {
            usage: changed_usage(remembered_usage(m, bucket), change),
            refreshed_at: now,
            usage_updated_at: now,
            dirty: true,
            stale_snapshot_pending: false,
        },
    )
}

/// Records in memory what a request of `now` did to a bucket, and outdates the recounts of it.
pub fn record_bucket_usage_change_at(
    cache: &mut UsageMemoryCache,
    live: &mut LiveBucketUsage,
    bucket: &str,
    change: UsageChange,
    now: Timestamp,
)
    ensures
        final(cache)@ == recorded(old(cache)@, bucket@, change, now),
        final(live)@ == old(live)@.bumped(bucket@),
{
    let mut usage = match cache.get(bucket) {
        Some(entry) => entry.usage.duplicate(),
        None => BucketUsageInfo::default(),
    };
    change_usage(&mut usage, change);
    let mut entry = cached_bucket_usage_now(usage, now);
    entry.dirty = true;
    cache.insert(bucket.to_owned(), entry);
    invalidate_live_bucket_usage_cache(live, bucket);
}

/// Records in memory what a request did just now to a bucket.
fn record_bucket_usage_change(
    cache: &mut UsageMemoryCache,
    live: &mut LiveBucketUsage,
    bucket: &str,
    change: UsageChange,
)
    ensures
        exists|now: Timestamp|
            final(cache)@ == #[trigger] recorded(old(cache)@, bucket@, change, now),
        final(live)@ == old(live)@.bumped(bucket@),
{
    let now = Timestamp::now();
    record_bucket_usage_change_at(cache, live, bucket, change, now);
}

/// Records the write of an object in a bucket without versions.
pub fn record_bucket_object_write_memory(
    cache: &mut UsageMemoryCache,
    live: &mut LiveBucketUsage,
    bucket: &str,
    previous_current_size: Option<u64>,
    new_size: u64,
)
    ensures
        exists|now: Timestamp|
            final(cache)@ == #[trigger] recorded(
                old(cache)@,
                bucket@,
                UsageChange::Write { previous_current_size, new_size, creates_new_version: false },
                now,
            ),
        final(live)@ == old(live)@.bumped(bucket@),
{
    record_bucket_object_write_memory_inner(
        cache,
        live,
        bucket,
        previous_current_size,
        new_size,
        false,
    );
}

/// Records the write of a new version of an object.
pub fn record_bucket_object_version_write_memory(
    cache: &mut UsageMemoryCache,
    live: &mut LiveBucketUsage,
    bucket: &str,
    previous_current_size: Option<u64>,
    new_size: u64,
)
    ensures
        exists|now: Timestamp|
            final(cache)@ == #[trigger] recorded(
                old(cache)@,
                bucket@,
                UsageChange::Write { previous_current_size, new_size, creates_new_version: true },
                now,
            ),
        final(live)@ == old(live)@.bumped(bucket@),
{
    record_bucket_object_write_memory_inner(
        cache,
        live,
        bucket,
        previous_current_size,
        new_size,
        true,
    );
}

/// Records the write of an object.
fn record_bucket_object_write_memory_inner(
    cache: &mut UsageMemoryCache,
    live: &mut LiveBucketUsage,
    bucket: &str,
    previous_current_size: Option<u64>,
    new_size: u64,
    creates_new_version: bool,
)
    ensures
        exists|now: Timestamp|
            final(cache)@ == #[trigger] recorded(
                old(cache)@,
                bucket@,
                UsageChange::Write { previous_current_size, new_size, creates_new_version },
                now,
            ),
        final(live)@ == old(live)@.bumped(bucket@),
{
    record_bucket_usage_change(
        cache,
        live,
        bucket,
        UsageChange::Write { previous_current_size, new_size, creates_new_version },
    );
}

/// Records the write of an object of which it is not known what it replaced. Only what is certain
/// is counted: the new size, and a new version where there is one. The next snapshot sees to the
/// rest.
pub fn record_bucket_object_write_unknown_previous_memory(
    cache: &mut UsageMemoryCache,
    live: &mut LiveBucketUsage,
    bucket: &str,
    new_size: u64,
    creates_new_version: bool,
)
    ensures
        exists|now: Timestamp|
            final(cache)@ == #[trigger] recorded(
                old(cache)@,
                bucket@,
                UsageChange::WriteUnknownPrevious { new_size, creates_new_version },
                now,
            ),
        final(live)@ == old(live)@.bumped(bucket@),
{
    record_bucket_usage_change(
        cache,
        live,
        bucket,
        UsageChange::WriteUnknownPrevious { new_size, creates_new_version },
    );
}

/// Records that a bucket has grown by a new object.
pub fn increment_bucket_usage_memory(
    cache: &mut UsageMemoryCache,
    live: &mut LiveBucketUsage,
    bucket: &str,
    size_increment: u64,
)
    ensures
        exists|now: Timestamp|
            final(cache)@ == #[trigger] recorded(
                old(cache)@,
                bucket@,
                UsageChange::Write {
                    previous_current_size: None,
                    new_size: size_increment,
                    creates_new_version: false,
                },
                now,
            ),
        final(live)@ == old(live)@.bumped(bucket@),
{
    record_bucket_object_write_memory(cache, live, bucket, None, size_increment);
}

/// Records a delete.
pub fn record_bucket_object_delete_memory(
    cache: &mut UsageMemoryCache,
    live: &mut LiveBucketUsage,
    bucket: &str,
    deleted_size: u64,
    removed_current_object: bool,
)
    ensures
        exists|now: Timestamp|
            final(cache)@ == #[trigger] recorded(
                old(cache)@,
                bucket@,
                UsageChange::Delete { deleted_size, removed_current_object },
                now,
            ),
        final(live)@ == old(live)@.bumped(bucket@),
{
    record_bucket_usage_change(
        cache,
        live,
        bucket,
        UsageChange::Delete { deleted_size, removed_current_object },
    );
}

/// Records that a delete marker was put on an object.
pub fn record_bucket_delete_marker_memory(
    cache: &mut UsageMemoryCache,
    live: &mut LiveBucketUsage,
    bucket: &str,
)
    ensures
        exists|now: Timestamp|
            final(cache)@ == #[trigger] recorded(
                old(cache)@,
                bucket@,
                UsageChange::DeleteMarker,
                now,
            ),
        final(live)@ == old(live)@.bumped(bucket@),
{
    record_bucket_usage_change(cache, live, bucket, UsageChange::DeleteMarker);
}

/// A bucket has shrunk by `size`: if there is a loss of data at all, it counts as that of an object.
pub open spec fn shrinkage(size: u64) -> UsageChange {
    UsageChange::Delete { deleted_size: size, removed_current_object: size > 0 }
}

/// Records that a bucket has shrunk; a loss of data counts as that of an object.
pub fn decrement_bucket_usage_memory(
    cache: &mut UsageMemoryCache,
    live: &mut LiveBucketUsage,
    bucket: &str,
    size_decrement: u64,
)
    ensures
        exists|now: Timestamp|
            final(cache)@ == #[trigger] recorded(
                old(cache)@,
                bucket@,
                shrinkage(size_decrement),
                now,
            ),
        final(live)@ == old(live)@.bumped(bucket@),
{
    record_bucket_object_delete_memory(cache, live, bucket, size_decrement, size_decrement > 0);
}

/// The size of a bucket in memory.
pub fn get_bucket_usage_memory(cache: &UsageMemoryCache, bucket: &str) -> (r: Option<u64>)
    ensures
        r == if cache@.contains_key(bucket@) {
            Some(cache@[bucket@].usage.size)
        } else {
            None
        },
{
    match cache.get(bucket) {
        Some(cached) => Some(cached.usage.size),
        None => None,
    }
}

/// Drops a bucket from memory.
pub fn clear_bucket_usage_memory(cache: &mut UsageMemoryCache, bucket: &str)
    ensures
        final(cache)@ == if bucket@.len() == 0 {
            old(cache)@
        } else {
            old(cache)@.remove(bucket@)
        },
{
    if bucket.unicode_len() == 0 {
        return ;
    }
    cache.remove(bucket);
}

} // verus!
