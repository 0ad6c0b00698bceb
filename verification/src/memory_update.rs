//! When the usage in memory is loaded anew.

use crate::memory::{UsageMemory, UsageMemoryCache};
use crate::memory_sync;
use crate::memory_sync::replace_bucket_usage_memory_from_info;
use crate::name_map;
use crate::time::Timestamp;
use crate::usage::DataUsageInfo;
use vstd::prelude::*;

verus! {

/// For how long the usage in memory is served without looking for a newer snapshot, in seconds.
pub const DATA_USAGE_CACHE_TTL_SECS: u64 = 30;

/// How often a request waits for another one that is loading.
pub const CACHE_UPDATE_MAX_WAITS: u32 = 10;

const NANOS_PER_SEC: i128 = 1_000_000_000;

/// How long before `now` the time `then` was, in nanoseconds; nothing if it is yet to come.
pub open spec fn age(now: Timestamp, then: Timestamp) -> int {
    if then.nanos > now.nanos {
        0
    } else {
        now.nanos - then.nanos
    }
}

/// There is something in memory, and all of it was written less than `secs` seconds before `now`.
pub open spec fn written_within(m: UsageMemory, now: Timestamp, secs: int) -> bool {
    &&& m.len() > 0
    &&& forall|k: Seq<char>| #[trigger]
        m.contains_key(k) ==> age(now, m[k].refreshed_at) < secs * 1_000_000_000
}

/// What a request for the usage in memory does first.
#[derive(Clone, Copy, Debug, PartialEq, Eq, Structural)]
pub enum CacheUpdate {
    /// It uses what is there.
    Skip,
    /// It uses what is there and has a snapshot loaded meanwhile.
    LoadInBackground,
    /// It loads a snapshot.
    Load,
    /// Another request is loading: it waits so many milliseconds and looks again, for the
    /// `retry`-th time.
    Wait { millis: u64, retry: u32 },
}

/// What a request does that needs a snapshot and has waited `retry` times.
pub open spec fn loads_or_waits(updating: bool, retry: u32) -> CacheUpdate {
    if updating && retry < CACHE_UPDATE_MAX_WAITS {
        CacheUpdate::Wait {
            millis: vstd::arithmetic::power2::pow2(retry as nat) as u64,
            retry: (retry + 1) as u32,
        }
    } else {
        CacheUpdate::Load
    }
}

/// What a request of `now` does first. Entries that are not old are used. Older ones are used a
/// last time while a snapshot is loaded. For those that are older still it waits.
pub open spec fn planned_update(m: UsageMemory, updating: bool, now: Timestamp) -> CacheUpdate {
    if written_within(m, now, DATA_USAGE_CACHE_TTL_SECS as int) {
        CacheUpdate::Skip
    } else if written_within(m, now, 2 * DATA_USAGE_CACHE_TTL_SECS) {
        if updating {
            CacheUpdate::Skip
        } else {
            CacheUpdate::LoadInBackground
        }
    } else {
        loads_or_waits(updating, 0)
    }
}

/// Whether a snapshot is being loaded after a request has decided what to do.
pub open spec fn updating_after(updating: bool, update: CacheUpdate) -> bool {
    updating || update is LoadInBackground || update is Load
}

/// Whether the bucket is in memory. Only if not, a request that changes it has to see to an update
/// first.
pub fn ensure_bucket_usage_cached(cache: &UsageMemoryCache, bucket: &str) -> (r: bool)
    ensures
        r == cache@.contains_key(bucket@),
{
    cache.contains_key(bucket)
}

/// When the oldest entry in memory was written.
fn earliest_refresh(cache: &UsageMemoryCache) -> (r: Option<Timestamp>)
    ensures
        cache@.dom().finite(),
        match r {
            Some(t) => {
                &&& cache@.len() > 0
                &&& exists|k: Seq<char>| #[trigger]
                    cache@.contains_key(k) && cache@[k].refreshed_at == t
                &&& forall|k: Seq<char>| #[trigger]
                    cache@.contains_key(k) ==> t.nanos <= cache@[k].refreshed_at.nanos
            },
            None => cache@.len() == 0,
        },
{
    let n = cache.len();
    let ghost names = cache.names();
    if n == 0 {
        return None;
    }
    let mut earliest = cache.value_at(0).refreshed_at;
    let mut i: usize = 1;
    while i < n
        invariant
            1 <= i <= n,
            n == cache@.len(),
            names == cache.names(),
            name_map::lists_names(names, cache@),
            exists|k: Seq<char>| #[trigger]
                cache@.contains_key(k) && cache@[k].refreshed_at == earliest,
            forall|j: int|
                0 <= j < i ==> earliest.nanos <= cache@[#[trigger] names[j]].refreshed_at.nanos,
        decreases n - i,
    {
        let refreshed_at = cache.value_at(i).refreshed_at;
        if refreshed_at.nanos < earliest.nanos {
            earliest = refreshed_at;
            assert(cache@.contains_key(names[i as int]));
        }
        i = i + 1;
    }
    proof {
        assert forall|k: Seq<char>| #[trigger]
            cache@.contains_key(k) implies earliest.nanos <= cache@[k].refreshed_at.nanos by {
            let j = choose|j: int| 0 <= j < names.len() && names[j] == k;
            assert(earliest.nanos <= cache@[names[j]].refreshed_at.nanos);
        }
    }
    Some(earliest)
}

/// Whether everything in memory was written less than `secs` seconds before `now`.
fn all_written_within(earliest: Timestamp, now: Timestamp, secs: u64) -> (r: bool)
    ensures
        r == (age(now, earliest) < secs * 1_000_000_000),
{
    let limit: i128 = secs as i128 * NANOS_PER_SEC;
    if earliest.nanos > now.nanos {
        return 0 < limit;
    }
    match now.nanos.checked_sub(earliest.nanos) {
        Some(passed) => passed < limit,
        None => false,
    }
}

/// Decides what a request that has waited `retry` times does, given whether another one is loading.
pub fn retry_usage_cache_update(updating: &mut bool, retry: u32) -> (r: CacheUpdate)
    ensures
        r == loads_or_waits(*old(updating), retry),
        *final(updating) == updating_after(*old(updating), r),
{
    if *updating && retry < CACHE_UPDATE_MAX_WAITS {
        proof {
            vstd::arithmetic::power2::lemma2_to64();
            vstd::arithmetic::power2::lemma_pow2_strictly_increases(retry as nat, 10);
            vstd::bits::lemma_u64_shl_is_mul(1, retry as u64);
        }
        let millis: u64 = 1u64 << (retry as u64);
        CacheUpdate::Wait { millis, retry: retry + 1 }
    } else {
        *updating = true;
        CacheUpdate::Load
    }
}

/// Decides what a request of `now` does, given whether another one is loading.
pub fn plan_usage_cache_update_at(
    cache: &UsageMemoryCache,
    updating: &mut bool,
    now: Timestamp,
) -> (r: CacheUpdate)
    ensures
        r == planned_update(cache@, *old(updating), now),
        *final(updating) == updating_after(*old(updating), r),
{
    match earliest_refresh(cache) {
        Some(earliest) => {
            proof {
                let k = choose|k: Seq<char>| #[trigger]
                    cache@.contains_key(k) && cache@[k].refreshed_at == earliest;
                let ttl = DATA_USAGE_CACHE_TTL_SECS as int;
                assert(written_within(cache@, now, ttl) <==> age(now, earliest) < ttl
                    * 1_000_000_000);
                assert(written_within(cache@, now, 2 * ttl) <==> age(now, earliest) < 2 * ttl
                    * 1_000_000_000);
            }
            if all_written_within(earliest, now, DATA_USAGE_CACHE_TTL_SECS) {
                return CacheUpdate::Skip;
            }
            if all_written_within(earliest, now, 2 * DATA_USAGE_CACHE_TTL_SECS) {
                if *updating {
                    return CacheUpdate::Skip;
                }
                *updating = true;
                return CacheUpdate::LoadInBackground;
            }
        },
        None => {},
    }
    retry_usage_cache_update(updating, 0)
}

/// Decides what a request does that is made now, given whether another one is loading.
pub fn update_usage_cache_if_needed(cache: &UsageMemoryCache, updating: &mut bool) -> (r:
    CacheUpdate)
    ensures
        exists|now: Timestamp| r == #[trigger] planned_update(cache@, *old(updating), now),
        *final(updating) == updating_after(*old(updating), r),
        cache@.len() == 0 ==> r == loads_or_waits(*old(updating), 0),
{
    let now = Timestamp::now();
    plan_usage_cache_update_at(cache, updating, now)
}

/// Ends an update with the snapshot that was loaded, or without one if none could be.
pub fn finish_usage_cache_update(
    cache: &mut UsageMemoryCache,
    updating: &mut bool,
    loaded: Option<&DataUsageInfo>,
)
    ensures
        match loaded {
            Some(info) => exists|now: Timestamp|
                final(cache)@ == #[trigger] memory_sync::synced(old(cache)@, info@, now),
            None => final(cache)@ == old(cache)@,
        },
        !*final(updating),
{
    match loaded {
        Some(data_usage_info) => {
            replace_bucket_usage_memory_from_info(cache, data_usage_info);
        },
        None => {},
    }
    *updating = false;
}

} // verus!
