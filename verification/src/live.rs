//! Usage recounted from the object layer, and what keeps an outdated recount from being shown.
//!
//! A recount lists a whole bucket and can take minutes, so its result is cached for a while. Every
//! bucket that is tracked has an epoch, which each write moves on. A recount carries the epoch at
//! which it began, and it counts only as long as that epoch is the bucket's own. A bucket that is
//! deleted is no longer tracked, and nothing that began before may bring it back.
//!
//! The cache itself is shared between tasks and lives outside of this module. The functions here
//! take what was found in it and say what is to be put there.

use crate::name_map;
use crate::name_map::{Duplicate, NameMap};
use crate::usage::{BucketUsage, BucketUsageInfo};
use vstd::prelude::*;
use vstd::string::*;

verus! {

/// How long a completed recount is served, in seconds.
///
/// Listing a large bucket takes minutes. A result that expired sooner than the listing that makes
/// it would never be found again.
pub const LIVE_BUCKET_USAGE_TTL_SECS: u64 = 300;

/// For how many buckets a recount is kept.
pub const LIVE_BUCKET_USAGE_MAX_ENTRIES: u64 = 1024;

/// How many recounts run in the background at a time.
pub const LIVE_USAGE_REFRESH_PERMITS: usize = 1;

/// How long one recount may take in the background once it has begun, in seconds.
pub const LIVE_USAGE_REFRESH_TIMEOUT_SECS: u64 = 300;

/// How often a recount is begun anew because a write came in between.
pub const LIVE_USAGE_COALESCE_MAX_ATTEMPTS: usize = 4;

/// A recount is served at least as long as it may take to make one.
pub proof fn law_recount_outlives_its_refresh()
    ensures
        LIVE_BUCKET_USAGE_TTL_SECS >= LIVE_USAGE_REFRESH_TIMEOUT_SECS,
{
}

/// What a [`LiveBucketUsage`] stands for.
#[verifier::ext_equal]
pub struct LiveUsage {
    /// The epoch of each tracked bucket.
    pub epochs: Map<Seq<char>, u64>,
    /// The owner of the recount that is under way for a bucket.
    pub in_flight: Map<Seq<char>, u64>,
    /// The number that the next owner gets.
    pub next_owner_id: u64,
}

/// The epochs of the tracked buckets, and the recounts that are under way.
pub struct LiveBucketUsage {
    epochs: NameMap<u64>,
    in_flight: NameMap<u64>,
    next_owner_id: u64,
}

impl View for LiveBucketUsage {
    type V = LiveUsage;

    closed spec fn view(&self) -> LiveUsage {
        LiveUsage {
            epochs: self.epochs@,
            in_flight: self.in_flight@,
            next_owner_id: self.next_owner_id,
        }
    }
}

impl LiveBucketUsage {
    /// No bucket tracked and no recount under way.
    pub fn new() -> (r: Self)
        ensures
            r@.epochs == Map::<Seq<char>, u64>::empty(),
            r@.in_flight == Map::<Seq<char>, u64>::empty(),
            r@.next_owner_id == 1,
    {
        LiveBucketUsage { epochs: NameMap::new(), in_flight: NameMap::new(), next_owner_id: 1 }
    }
}

/// The number after `n`; the largest is followed by zero.
pub open spec fn next_number(n: u64) -> u64 {
    if n == u64::MAX {
        0
    } else {
        (n + 1) as u64
    }
}

impl LiveUsage {
    /// The epoch of a bucket, if it is tracked.
    pub open spec fn epoch(self, bucket: Seq<char>) -> Option<u64> {
        name_map::held(self.epochs, bucket)
    }

    /// Who recounts a bucket, if anyone does.
    pub open spec fn owner(self, bucket: Seq<char>) -> Option<u64> {
        name_map::held(self.in_flight, bucket)
    }

    /// The same state with a bucket tracked; one that was not tracked starts at epoch zero.
    pub open spec fn tracking(self, bucket: Seq<char>) -> LiveUsage {
        if self.epochs.contains_key(bucket) {
            self
        } else {
            LiveUsage { epochs: self.epochs.insert(bucket, 0), ..self }
        }
    }

    /// The same state with a bucket in its next epoch.
    pub open spec fn bumped(self, bucket: Seq<char>) -> LiveUsage {
        LiveUsage {
            epochs: self.epochs.insert(
                bucket,
                next_number(self.tracking(bucket).epochs[bucket]),
            ),
            ..self
        }
    }

    /// The same state with a bucket no longer tracked and no recount of it under way.
    pub open spec fn forgetting(self, bucket: Seq<char>) -> LiveUsage {
        LiveUsage {
            epochs: self.epochs.remove(bucket),
            in_flight: self.in_flight.remove(bucket),
            ..self
        }
    }

    /// The same state with a number given to a new owner.
    pub open spec fn numbered(self) -> LiveUsage {
        LiveUsage { next_owner_id: next_number(self.next_owner_id), ..self }
    }

    /// The same state with a bucket claimed for a new owner. One that is claimed already stays with
    /// its owner.
    pub open spec fn claimed(self, bucket: Seq<char>) -> LiveUsage {
        LiveUsage {
            in_flight: if self.in_flight.contains_key(bucket) {
                self.in_flight
            } else {
                self.in_flight.insert(bucket, self.next_owner_id)
            },
            ..self.numbered()
        }
    }

    /// The same state with a bucket no longer tracked, unless it is claimed.
    pub open spec fn abandoned(self, bucket: Seq<char>) -> LiveUsage {
        if self.owner(bucket) is Some {
            self
        } else {
            LiveUsage { epochs: self.epochs.remove(bucket), ..self }
        }
    }

    /// The same state after the end of a recount by `owner`.
    pub open spec fn released(self, bucket: Seq<char>, owner: u64) -> LiveUsage {
        if self.owner(bucket) == Some(owner) {
            LiveUsage { in_flight: self.in_flight.remove(bucket), ..self }
        } else {
            self
        }
    }
}

/// The number of a new owner. No two of them get the same until all numbers are used up.
pub fn next_live_bucket_usage_owner_id(live: &mut LiveBucketUsage) -> (r: u64)
    ensures
        r == old(live)@.next_owner_id,
        final(live)@ == old(live)@.numbered(),
{
    let id = live.next_owner_id;
    live.next_owner_id = id.wrapping_add(1);
    id
}

/// Whether `owner_id` still owns the recount of the bucket.
pub fn live_bucket_usage_schedule_still_owned(
    live: &LiveBucketUsage,
    bucket: &str,
    owner_id: u64,
) -> (r: bool)
    ensures
        r == (live@.owner(bucket@) == Some(owner_id)),
{
    match live.in_flight.get(bucket) {
        Some(owner) => *owner == owner_id,
        None => false,
    }
}

/// Ends the recount of the bucket, unless it belongs to someone else by now.
pub fn release_live_bucket_usage_in_flight_if_owner(
    live: &mut LiveBucketUsage,
    bucket: &str,
    owner_id: u64,
)
    ensures
        final(live)@ == old(live)@.released(bucket@, owner_id),
{
    if live_bucket_usage_schedule_still_owned(live, bucket, owner_id) {
        live.in_flight.remove(bucket);
    }
}

/// Claims the bucket for a new owner and gives the owner's number. If it is claimed already, it
/// stays with the one who recounts it, and there is no new owner: the recount that is under way
/// suffices.
pub fn claim_live_bucket_usage_refresh(live: &mut LiveBucketUsage, bucket: &str) -> (r: Option<u64>)
    ensures
        final(live)@ == old(live)@.claimed(bucket@),
        r == if old(live)@.owner(bucket@) is Some {
            None
        } else {
            Some(old(live)@.next_owner_id)
        },
{
    let owner = next_live_bucket_usage_owner_id(live);
    if live.in_flight.contains_key(bucket) {
        return None;
    }
    live.in_flight.insert(bucket.to_owned(), owner);
    Some(owner)
}

/// Ends the tracking of the bucket, unless someone has claimed it.
pub fn abandon_live_bucket_usage_epoch(live: &mut LiveBucketUsage, bucket: &str)
    ensures
        final(live)@ == old(live)@.abandoned(bucket@),
{
    if !live.in_flight.contains_key(bucket) {
        live.epochs.remove(bucket);
    }
}

/// The epoch of the bucket, or `None` if it is not tracked because it was forgotten or never seen.
pub fn live_bucket_usage_epoch_if_tracked(live: &LiveBucketUsage, bucket: &str) -> (r: Option<u64>)
    ensures
        r == live@.epoch(bucket@),
{
    match live.epochs.get(bucket) {
        Some(epoch) => Some(*epoch),
        None => None,
    }
}

/// The epoch of the bucket; zero if it is not tracked.
pub fn live_bucket_usage_epoch(live: &LiveBucketUsage, bucket: &str) -> (r: u64)
    ensures
        r == match live@.epoch(bucket@) {
            Some(epoch) => epoch,
            None => 0,
        },
{
    match live_bucket_usage_epoch_if_tracked(live, bucket) {
        Some(epoch) => epoch,
        None => 0,
    }
}

/// Tracks the bucket from now on and gives its epoch.
pub fn ensure_live_bucket_usage_epoch(live: &mut LiveBucketUsage, bucket: &str) -> (r: u64)
    ensures
        final(live)@ == old(live)@.tracking(bucket@),
        final(live)@.epoch(bucket@) == Some(r),
{
    match live_bucket_usage_epoch_if_tracked(live, bucket) {
        Some(epoch) => epoch,
        None => {
            live.epochs.insert(bucket.to_owned(), 0);
            0
        },
    }
}

/// Moves the bucket on to its next epoch and gives that.
pub fn bump_live_bucket_usage_epoch(live: &mut LiveBucketUsage, bucket: &str) -> (r: u64)
    ensures
        final(live)@ == old(live)@.bumped(bucket@),
        final(live)@.epoch(bucket@) == Some(r),
{
    let epoch = live_bucket_usage_epoch(live, bucket).wrapping_add(1);
    live.epochs.insert(bucket.to_owned(), epoch);
    epoch
}

/// What a [`LiveBucketUsageEntry`] stands for.
#[verifier::ext_equal]
pub struct LiveEntry {
    pub usage: BucketUsage,
    pub epoch: u64,
}

/// A completed recount.
pub struct LiveBucketUsageEntry {
    pub usage: BucketUsageInfo,
    /// The epoch of the bucket when the recount began.
    pub epoch: u64,
}

impl View for LiveBucketUsageEntry {
    type V = LiveEntry;

    open spec fn view(&self) -> LiveEntry {
        LiveEntry { usage: self.usage@, epoch: self.epoch }
    }
}

impl Duplicate for LiveBucketUsageEntry {
    fn duplicate(&self) -> (r: Self) {
        LiveBucketUsageEntry { usage: self.usage.duplicate(), epoch: self.epoch }
    }
}

impl Clone for LiveBucketUsageEntry {
    fn clone(&self) -> (r: Self)
        ensures
            r@ == self@,
    {
        self.duplicate()
    }
}

/// Outdates every recount of the bucket that was made or begun so far. The caller drops the cached
/// one, which no longer counts.
pub fn invalidate_live_bucket_usage_cache(live: &mut LiveBucketUsage, bucket: &str)
    ensures
        final(live)@ == old(live)@.bumped(bucket@),
{
    bump_live_bucket_usage_epoch(live, bucket);
}

/// Ends the tracking of a deleted bucket, so that deleted buckets take up no room, and frees its
/// place for a recount of a new bucket of the same name.
///
/// The cached recount must be gone by then: call [`invalidate_live_bucket_usage_cache`] and drop
/// the cached recount first. A bucket that is tracked anew starts at epoch zero, at which an old
/// recount could pass for a current one.
pub fn forget_live_bucket_usage(live: &mut LiveBucketUsage, bucket: &str)
    ensures
        final(live)@ == old(live)@.forgetting(bucket@),
{
    live.epochs.remove(bucket);
    live.in_flight.remove(bucket);
}

/// A cached recount counts if its epoch is still that of the bucket.
pub open spec fn is_current(live: LiveUsage, bucket: Seq<char>, entry: LiveEntry) -> bool {
    live.epoch(bucket) == Some(entry.epoch)
}

/// The cached recount, if it still counts.
pub open spec fn current_entry(
    live: LiveUsage,
    bucket: Seq<char>,
    cached: Option<LiveEntry>,
) -> Option<LiveEntry> {
    match cached {
        Some(entry) if is_current(live, bucket, entry) => cached,
        _ => None,
    }
}

/// The cached recount of the bucket, if it still counts.
pub fn current_live_bucket_usage_entry(
    live: &LiveBucketUsage,
    bucket: &str,
    cached: Option<LiveBucketUsageEntry>,
) -> (r: Option<LiveBucketUsageEntry>)
    ensures
        name_map::optional(r) == current_entry(live@, bucket@, name_map::optional(cached)),
{
    match cached {
        Some(entry) => match live_bucket_usage_epoch_if_tracked(live, bucket) {
            Some(epoch) => if entry.epoch == epoch {
                Some(entry)
            } else {
                None
            },
            None => None,
        },
        None => None,
    }
}

/// The usage in the cached recount of the bucket, if that still counts.
pub fn cached_live_bucket_usage_if_current(
    live: &LiveBucketUsage,
    bucket: &str,
    cached: Option<LiveBucketUsageEntry>,
) -> (r: Option<BucketUsageInfo>)
    ensures
        name_map::optional(r) == match current_entry(live@, bucket@, name_map::optional(cached)) {
            Some(entry) => Some(entry.usage),
            None => None,
        },
{
    match current_live_bucket_usage_entry(live, bucket, cached) {
        Some(entry) => Some(entry.usage),
        None => None,
    }
}

/// What is put back into the cache of what was taken out of it on behalf of a recount that is
/// outdated: nothing if it was that recount, and otherwise what still counts.
pub fn discard_superseded_live_cache_entry(
    live: &LiveBucketUsage,
    bucket: &str,
    removed: Option<LiveBucketUsageEntry>,
    superseded_epoch: u64,
) -> (r: Option<LiveBucketUsageEntry>)
    ensures
        name_map::optional(r) == match name_map::optional(removed) {
            Some(entry) if entry.epoch != superseded_epoch => current_entry(
                live@,
                bucket@,
                name_map::optional(removed),
            ),
            _ => None,
        },
{
    match removed {
        Some(entry) => if entry.epoch == superseded_epoch {
            None
        } else {
            current_live_bucket_usage_entry(live, bucket, Some(entry))
        },
        None => None,
    }
}

} // verus!
