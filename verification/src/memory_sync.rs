//! Bringing the usage in memory and the snapshots of the scanner together.

use crate::memory;
use crate::memory::{
    cached_bucket_usage_from_backend, CachedBucketUsage, CachedUsage, UsageMemory, UsageMemoryCache,
};
use crate::name_map;
use crate::name_map::{Duplicate, NameMap};
use crate::time::Timestamp;
use crate::usage;
use crate::usage::{
    bucket_usage_counts_match, data_usage_info_updated_at, set_buckets_count_from_usage, BucketUsage,
    BucketUsageInfo, DataUsage, DataUsageInfo,
};
use vstd::prelude::*;
use vstd::string::*;

verus! {

/// What stays of the entry of a bucket when a snapshot of `snapshot_at` comes that shows the given
/// usage of it, or none. An entry that is newer than the snapshot stays. So does one that requests
/// have changed, unless the snapshot shows the same counts: a snapshot that is saved after a write
/// may still have listed the bucket before it.
pub open spec fn kept_entry(
    existing: CachedUsage,
    snapshot_at: Timestamp,
    shown: Option<BucketUsage>,
) -> Option<CachedUsage> {
    if existing.usage_updated_at.nanos > snapshot_at.nanos {
        Some(existing)
    } else if existing.dirty && !(shown is Some && usage::counts_match(existing.usage, shown->0)) {
        Some(CachedUsage { stale_snapshot_pending: true, ..existing })
    } else {
        None
    }
}

/// What is in memory for a bucket after a snapshot was loaded at `now`.
pub open spec fn synced_entry(
    m: UsageMemory,
    info: DataUsage,
    now: Timestamp,
    bucket: Seq<char>,
) -> Option<CachedUsage> {
    let at = usage::updated_at(info);
    let shown = name_map::held(info.buckets_usage, bucket);
    let kept = if m.contains_key(bucket) {
        kept_entry(m[bucket], at, shown)
    } else {
        None
    };
    if kept is Some {
        kept
    } else if shown is Some {
        Some(memory::from_backend(shown->0, at, now))
    } else {
        None
    }
}

/// What is in memory after a snapshot was loaded at `now`.
pub open spec fn synced(m: UsageMemory, info: DataUsage, now: Timestamp) -> UsageMemory {
    Map::new(
        |k: Seq<char>| synced_entry(m, info, now, k) is Some,
        |k: Seq<char>| synced_entry(m, info, now, k)->0,
    )
}

/// A copy of an entry that notes that a later snapshot does not have its counts.
fn with_stale_snapshot_pending(existing: &CachedBucketUsage) -> (r: CachedBucketUsage)
    ensures
        r@ == (CachedUsage { stale_snapshot_pending: true, ..existing@ }),
{
    let mut preserved = existing.duplicate();
    preserved.stale_snapshot_pending = true;
    preserved
}

/// What stays of an entry, see [`kept_entry`].
fn keep_entry(
    existing: &CachedBucketUsage,
    snapshot_at: Timestamp,
    shown: Option<&BucketUsageInfo>,
) -> (r: Option<CachedBucketUsage>)
    ensures
        name_map::optional(r) == kept_entry(
            existing@,
            snapshot_at,
            match shown {
                Some(u) => Some(u@),
                None => None,
            },
        ),
{
    if existing.usage_updated_at.nanos > snapshot_at.nanos {
        return Some(existing.duplicate());
    }
    let caught_up = match shown {
        Some(bucket_usage) => bucket_usage_counts_match(&existing.usage, bucket_usage),
        None => false,
    };
    if existing.dirty && !caught_up {
        Some(with_stale_snapshot_pending(existing))
    } else {
        None
    }
}

/// Takes over a snapshot that is loaded at `now`.
pub fn replace_bucket_usage_memory_from_info_at(
    cache: &mut UsageMemoryCache,
    data_usage_info: &DataUsageInfo,
    now: Timestamp,
)
    ensures
        final(cache)@ == synced(old(cache)@, data_usage_info@, now),
{
    let usage_updated_at = data_usage_info_updated_at(data_usage_info);
    let ghost m = cache@;
    let ghost info = data_usage_info@;
    let ghost shown = info.buckets_usage;
    let mut next_cache: UsageMemoryCache = NameMap::new();
    let buckets = &data_usage_info.buckets_usage;
    let n = buckets.len();
    let ghost names = buckets.names();
    let mut i: usize = 0;
    while i < n
        invariant
            i <= n,
            m == cache@,
            info == data_usage_info@,
            shown == info.buckets_usage,
            buckets@ == shown,
            n == shown.len(),
            names == buckets.names(),
            name_map::lists_names(names, shown),
            usage_updated_at == usage::updated_at(info),
            forall|k: Seq<char>| #[trigger]
                next_cache@.contains_key(k) <==> name_map::first_entries(
                    shown,
                    names,
                    i as nat,
                ).contains_key(k),
            forall|k: Seq<char>| #[trigger]
                next_cache@.contains_key(k) ==> next_cache@[k] == synced_entry(m, info, now, k)->0,
        decreases n - i,
    {
        let bucket = buckets.name_at(i);
        let bucket_usage = buckets.value_at(i);
        let kept = match cache.get(bucket.as_str()) {
            Some(existing) => keep_entry(existing, usage_updated_at, Some(bucket_usage)),
            None => None,
        };
        let entry = match kept {
            Some(preserved) => preserved,
            None => cached_bucket_usage_from_backend(
                bucket_usage.duplicate(),
                usage_updated_at,
                now,
            ),
        };
        assert(Some(entry@) == synced_entry(m, info, now, bucket@));
        next_cache.insert(bucket.clone(), entry);
        i = i + 1;
    }
    proof {
        name_map::lemma_first_entries(shown, names, n as nat);
    }
    let n2 = cache.len();
    let ghost names2 = cache.names();
    let mut j: usize = 0;
    while j < n2
        invariant
            j <= n2,
            m == cache@,
            info == data_usage_info@,
            shown == info.buckets_usage,
            buckets@ == shown,
            n2 == m.len(),
            names2 == cache.names(),
            name_map::lists_names(names2, m),
            usage_updated_at == usage::updated_at(info),
            forall|k: Seq<char>| #[trigger]
                next_cache@.contains_key(k) <==> shown.contains_key(k) || (name_map::first_entries(
                    m,
                    names2,
                    j as nat,
                ).contains_key(k) && synced_entry(m, info, now, k) is Some),
            forall|k: Seq<char>| #[trigger]
                next_cache@.contains_key(k) ==> next_cache@[k] == synced_entry(m, info, now, k)->0,
        decreases n2 - j,
    {
        let bucket = cache.name_at(j);
        let existing = cache.value_at(j);
        if !buckets.contains_key(bucket.as_str()) {
            match keep_entry(existing, usage_updated_at, None) {
                Some(preserved) => {
                    assert(Some(preserved@) == synced_entry(m, info, now, bucket@));
                    next_cache.insert(bucket.clone(), preserved);
                },
                None => {},
            }
        }
        j = j + 1;
    }
    proof {
        name_map::lemma_first_entries(m, names2, n2 as nat);
        assert(next_cache@ =~= synced(m, info, now));
    }
    *cache = next_cache;
}

/// Takes over a snapshot that has just been loaded.
pub fn replace_bucket_usage_memory_from_info(
    cache: &mut UsageMemoryCache,
    data_usage_info: &DataUsageInfo,
)
    ensures
        exists|now: Timestamp|
            final(cache)@ == #[trigger] synced(old(cache)@, data_usage_info@, now),
{
    let now = Timestamp::now();
    replace_bucket_usage_memory_from_info_at(cache, data_usage_info, now);
}

/// What is in memory after a bucket was recounted, beginning at `refresh_started_at` and loaded at
/// `now`. An entry that is newer than the recount stays.
pub open spec fn with_authoritative(
    m: UsageMemory,
    bucket: Seq<char>,
    recount: BucketUsage,
    refresh_started_at: Timestamp,
    now: Timestamp,
) -> UsageMemory {
    if m.contains_key(bucket) && m[bucket].usage_updated_at.nanos > refresh_started_at.nanos {
        m
    } else {
        m.insert(bucket, memory::from_backend(recount, refresh_started_at, now))
    }
}

/// Takes over a recount of a bucket that is loaded at `now`.
pub fn replace_bucket_usage_memory_from_authoritative_at(
    cache: &mut UsageMemoryCache,
    bucket: &str,
    recount: BucketUsageInfo,
    refresh_started_at: Timestamp,
    now: Timestamp,
)
    ensures
        final(cache)@ == with_authoritative(
            old(cache)@,
            bucket@,
            recount@,
            refresh_started_at,
            now,
        ),
{
    let newer = match cache.get(bucket) {
        Some(existing) => existing.usage_updated_at.nanos > refresh_started_at.nanos,
        None => false,
    };
    if !newer {
        cache.insert(
            bucket.to_owned(),
            cached_bucket_usage_from_backend(recount, refresh_started_at, now),
        );
    }
}

/// Takes over a recount of a bucket that has just been loaded.
pub fn replace_bucket_usage_memory_from_authoritative(
    cache: &mut UsageMemoryCache,
    bucket: &str,
    recount: BucketUsageInfo,
    refresh_started_at: Timestamp,
)
    ensures
        exists|now: Timestamp|
            final(cache)@ == #[trigger] with_authoritative(
                old(cache)@,
                bucket@,
                recount@,
                refresh_started_at,
                now,
            ),
{
    let now = Timestamp::now();
    replace_bucket_usage_memory_from_authoritative_at(
        cache,
        bucket,
        recount,
        refresh_started_at,
        now,
    );
}

/// Whether the entry of a bucket goes before a snapshot of the given time: if it is newer, or known
/// to be ahead of it.
pub open spec fn overrides(entry: CachedUsage, persisted: Option<Timestamp>) -> bool {
    entry.stale_snapshot_pending || persisted is None || entry.usage_updated_at.nanos
        > persisted->0.nanos
}

/// Whether memory has an entry for a bucket that goes before a snapshot of the given time.
pub open spec fn overridden(
    m: UsageMemory,
    persisted: Option<Timestamp>,
    bucket: Seq<char>,
) -> bool {
    m.contains_key(bucket) && overrides(m[bucket], persisted)
}

/// The usage of the store in a snapshot, with that in memory put over it.
pub open spec fn overlaid(info: DataUsage, m: UsageMemory) -> DataUsage {
    let at = info.last_update;
    if exists|k: Seq<char>| #[trigger] overridden(m, at, k) {
        DataUsage {
            buckets_usage: Map::new(
                |k: Seq<char>| info.buckets_usage.contains_key(k) || overridden(m, at, k),
                |k: Seq<char>|
                    if overridden(m, at, k) {
                        m[k].usage
                    } else {
                        info.buckets_usage[k]
                    },
            ),
            bucket_sizes: Map::new(
                |k: Seq<char>| info.bucket_sizes.contains_key(k) || overridden(m, at, k),
                |k: Seq<char>|
                    if overridden(m, at, k) {
                        m[k].usage.size
                    } else {
                        info.bucket_sizes[k]
                    },
            ),
            ..info
        }.with_buckets_counted().with_totals()
    } else {
        info
    }
}

/// Puts the usage in memory over that of a snapshot.
pub fn apply_bucket_usage_memory_overlay(
    cache: &UsageMemoryCache,
    data_usage_info: &mut DataUsageInfo,
)
    ensures
        final(data_usage_info)@ == overlaid(old(data_usage_info)@, cache@),
{
    let persisted_update = data_usage_info.last_update;
    let ghost info = data_usage_info@;
    let ghost m = cache@;
    let mut changed = false;
    let n = cache.len();
    let ghost names = cache.names();
    let mut i: usize = 0;
    while i < n
        invariant
            i <= n,
            m == cache@,
            n == m.len(),
            names == cache.names(),
            name_map::lists_names(names, m),
            persisted_update == info.last_update,
            ({
                let done = name_map::first_entries(m, names, i as nat);
                &&& changed <==> exists|k: Seq<char>| #[trigger] overridden(done, persisted_update, k)
                &&& data_usage_info@ == (DataUsage {
                    buckets_usage: data_usage_info@.buckets_usage,
                    bucket_sizes: data_usage_info@.bucket_sizes,
                    ..info
                })
                &&& forall|k: Seq<char>| #[trigger]
                    data_usage_info@.buckets_usage.contains_key(k) <==> info.buckets_usage.contains_key(
                        k,
                    ) || overridden(done, persisted_update, k)
                &&& forall|k: Seq<char>| #[trigger]
                    data_usage_info@.buckets_usage.contains_key(k)
                        ==> data_usage_info@.buckets_usage[k] == if overridden(
                        done,
                        persisted_update,
                        k,
                    ) {
                        m[k].usage
                    } else {
                        info.buckets_usage[k]
                    }
                &&& forall|k: Seq<char>| #[trigger]
                    data_usage_info@.bucket_sizes.contains_key(k) <==> info.bucket_sizes.contains_key(k)
                        || overridden(done, persisted_update, k)
                &&& forall|k: Seq<char>| #[trigger]
                    data_usage_info@.bucket_sizes.contains_key(k) ==> data_usage_info@.bucket_sizes[k]
                        == if overridden(done, persisted_update, k) {
                        m[k].usage.size
                    } else {
                        info.bucket_sizes[k]
                    }
            }),
        decreases n - i,
    {
        let ghost done = name_map::first_entries(m, names, i as nat);
        let ghost next = name_map::first_entries(m, names, (i + 1) as nat);
        let bucket = cache.name_at(i);
        let cached = cache.value_at(i);
        let persisted = !cached.stale_snapshot_pending && match persisted_update {
            Some(persisted) => cached.usage_updated_at.nanos <= persisted.nanos,
            None => false,
        };
        proof {
            name_map::lemma_first_entries(m, names, i as nat);
            assert(next == done.insert(bucket@, cached@));
            assert forall|k: Seq<char>| #[trigger]
                overridden(next, persisted_update, k) <==> overridden(done, persisted_update, k) || (k
                == bucket@ && !persisted) by {}
        }
        if !persisted {
            data_usage_info.buckets_usage.insert(bucket.clone(), cached.usage.duplicate());
            data_usage_info.bucket_sizes.insert(bucket.clone(), cached.usage.size);
            changed = true;
            assert(overridden(next, persisted_update, bucket@));
        } else {
            proof {
                if changed {
                    let k = choose|k: Seq<char>| #[trigger] overridden(done, persisted_update, k);
                    assert(overridden(next, persisted_update, k));
                }
                if exists|k: Seq<char>| #[trigger] overridden(next, persisted_update, k) {
                    let k = choose|k: Seq<char>| #[trigger] overridden(next, persisted_update, k);
                    assert(overridden(done, persisted_update, k));
                }
            }
        }
        i = i + 1;
    }
    proof {
        name_map::lemma_first_entries(m, names, n as nat);
    }
    if changed {
        proof {
            let target = overlaid(info, m);
            assert(data_usage_info@.buckets_usage =~= target.buckets_usage);
            assert(data_usage_info@.bucket_sizes =~= target.bucket_sizes);
        }
        set_buckets_count_from_usage(data_usage_info);
        data_usage_info.calculate_totals();
    } else {
        proof {
            assert(data_usage_info@.buckets_usage =~= info.buckets_usage);
            assert(data_usage_info@.bucket_sizes =~= info.bucket_sizes);
        }
    }
}

} // verus!
