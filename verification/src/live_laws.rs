//! What holds of recounts over several steps.

use crate::live;
use crate::live::{LiveBucketUsageEntry, LiveEntry, LiveUsage};
use crate::live_refresh;
use crate::live_refresh::{CoalesceStep, LiveUsageError, NextStep, RefreshPhase};
use crate::live_response;
use crate::name_map;
use crate::usage::{BucketUsage, DataUsage};
use vstd::prelude::*;

verus! {

/// The state after `n` writes to a bucket.
pub open spec fn bumped_times(live: LiveUsage, bucket: Seq<char>, n: nat) -> LiveUsage
    decreases n,
{
    if n == 0 {
        live
    } else {
        bumped_times(live, bucket, (n - 1) as nat).bumped(bucket)
    }
}

proof fn lemma_epoch_after(live: LiveUsage, bucket: Seq<char>, n: nat, epoch: u64)
    requires
        live.epoch(bucket) == Some(epoch),
    ensures
        ({
            let after = bumped_times(live, bucket, n).epoch(bucket);
            after is Some && after->0 == (epoch + n) % 0x1_0000_0000_0000_0000
        }),
    decreases n,
{
    if n > 0 {
        lemma_epoch_after(live, bucket, (n - 1) as nat, epoch);
    }
}

/// A write outdates every recount: after any number of writes, short of the number of epochs, a
/// recount that counted before counts no more, and one that began before is not published.
pub proof fn law_write_outdates_recounts(
    live: LiveUsage,
    bucket: Seq<char>,
    entry: LiveEntry,
    n: nat,
)
    requires
        live::is_current(live, bucket, entry),
        0 < n < 0x1_0000_0000_0000_0000,
    ensures
        !live::is_current(bumped_times(live, bucket, n), bucket, entry),
        forall|listed: Result<BucketUsage, Seq<char>>|
            !#[trigger] live_refresh::publishes(
                bumped_times(live, bucket, n),
                bucket,
                entry.epoch,
                listed,
            ),
{
    lemma_epoch_after(live, bucket, n, entry.epoch);
    let e = entry.epoch as int;
    let m = 0x1_0000_0000_0000_0000int;
    if e + n < m {
        assert((e + n) % m == e + n) by (nonlinear_arith)
            requires
                0 <= e + n < m,
        ;
    } else {
        assert((e + n) % m == e + n - m) by (nonlinear_arith)
            requires
                m <= e + n < 2 * m,
        ;
    }
}

/// Something that happens to the epochs and claims.
pub enum LiveEvent {
    /// A write to a bucket.
    Write(Seq<char>),
    /// A bucket is tracked from now on.
    Track(Seq<char>),
    /// A number is given to an owner.
    TakeNumber,
    /// A bucket is claimed for a recount, for an owner who gets a number.
    Claim(Seq<char>),
    /// A recount ends.
    Release(Seq<char>, u64),
    /// A recount gives a bucket up.
    Abandon(Seq<char>),
    /// A bucket is deleted.
    Forget(Seq<char>),
}

/// The state after something has happened.
pub open spec fn after_event(live: LiveUsage, event: LiveEvent) -> LiveUsage {
    match event {
        LiveEvent::Write(bucket) => live.bumped(bucket),
        LiveEvent::Track(bucket) => live.tracking(bucket),
        LiveEvent::TakeNumber => live.numbered(),
        LiveEvent::Claim(bucket) => live.claimed(bucket),
        LiveEvent::Release(bucket, owner) => live.released(bucket, owner),
        LiveEvent::Abandon(bucket) => live.abandoned(bucket),
        LiveEvent::Forget(bucket) => live.bumped(bucket).forgetting(bucket),
    }
}

/// The state after several things have happened.
pub open spec fn after_events(live: LiveUsage, events: Seq<LiveEvent>) -> LiveUsage
    decreases events.len(),
{
    if events.len() == 0 {
        live
    } else {
        after_event(after_events(live, events.drop_last()), events.last())
    }
}

/// How many of the events are writes to a bucket.
pub open spec fn writes(events: Seq<LiveEvent>, bucket: Seq<char>) -> nat
    decreases events.len(),
{
    if events.len() == 0 {
        0
    } else {
        writes(events.drop_last(), bucket) + if events.last() == LiveEvent::Write(bucket) {
            1nat
        } else {
            0nat
        }
    }
}

proof fn lemma_epoch_after_events(
    live: LiveUsage,
    events: Seq<LiveEvent>,
    bucket: Seq<char>,
    epoch: u64,
)
    requires
        live.epoch(bucket) == Some(epoch),
        !events.contains(LiveEvent::Forget(bucket)),
        !events.contains(LiveEvent::Abandon(bucket)),
    ensures
        after_events(live, events).epoch(bucket) == bumped_times(
            live,
            bucket,
            writes(events, bucket),
        ).epoch(bucket),
        after_events(live, events).epoch(bucket) is Some,
    decreases events.len(),
{
    if events.len() > 0 {
        let before = events.drop_last();
        assert(events.contains(events.last()));
        assert forall|e: LiveEvent| #[trigger] before.contains(e) implies events.contains(e) by {
            let i = choose|i: int| 0 <= i < before.len() && before[i] == e;
            assert(events[i] == e);
        }
        lemma_epoch_after_events(live, before, bucket, epoch);
    }
}

/// Whatever else happens, a write outdates a recount that was made or begun before it: as long as
/// the bucket is not given up, and short of as many writes as there are epochs, a recount counts
/// and is published exactly if there was no write. A bucket that is given up and tracked anew
/// starts its epochs again, so nothing is said of it here.
pub proof fn law_recount_counts_until_a_write(
    live: LiveUsage,
    events: Seq<LiveEvent>,
    bucket: Seq<char>,
    entry: LiveEntry,
)
    requires
        live::is_current(live, bucket, entry),
        !events.contains(LiveEvent::Forget(bucket)),
        !events.contains(LiveEvent::Abandon(bucket)),
        writes(events, bucket) < 0x1_0000_0000_0000_0000,
    ensures
        live::is_current(after_events(live, events), bucket, entry) <==> writes(events, bucket) == 0,
        forall|listed: Result<BucketUsage, Seq<char>>|
            #![trigger live_refresh::publishes(after_events(live, events), bucket, entry.epoch, listed)]
            listed is Ok ==> (live_refresh::publishes(
                after_events(live, events),
                bucket,
                entry.epoch,
                listed,
            ) <==> writes(events, bucket) == 0),
{
    lemma_epoch_after_events(live, events, bucket, entry.epoch);
    if writes(events, bucket) > 0 {
        law_write_outdates_recounts(live, bucket, entry, writes(events, bucket));
    }
}

/// A write to one bucket leaves the recounts of the others as they are.
pub proof fn law_write_concerns_one_bucket(
    live: LiveUsage,
    bucket: Seq<char>,
    other: Seq<char>,
    entry: LiveEntry,
)
    requires
        bucket != other,
    ensures
        live::is_current(live.bumped(bucket), other, entry) <==> live::is_current(
            live,
            other,
            entry,
        ),
        live::is_current(live.forgetting(bucket), other, entry) <==> live::is_current(
            live,
            other,
            entry,
        ),
{
}

/// A deleted bucket has no recount: none that was cached counts, and none that is still under way
/// is published.
pub proof fn law_deleted_bucket_has_no_recount(
    live: LiveUsage,
    bucket: Seq<char>,
    entry: LiveEntry,
    listed: Result<BucketUsage, Seq<char>>,
)
    ensures
        ({
            let after = live.bumped(bucket).forgetting(bucket);
            &&& after.epoch(bucket) is None
            &&& after.owner(bucket) is None
            &&& !live::is_current(after, bucket, entry)
            &&& !live_refresh::publishes(after, bucket, entry.epoch, listed)
        }),
{
}

/// A published recount counts at once: nothing is published that a reader would pass over.
pub proof fn law_published_recount_counts(
    live: LiveUsage,
    bucket: Seq<char>,
    entry: LiveEntry,
    listed: Result<BucketUsage, Seq<char>>,
)
    ensures
        live_refresh::publishes(live, bucket, entry.epoch, listed) ==> live::is_current(
            live,
            bucket,
            entry,
        ),
{
}

/// Where a recount in the background ends if nothing comes in between, and whether it gets as far
/// as a listing.
pub open spec fn refresh_completed(
    live: LiveUsage,
    bucket: Seq<char>,
    phase: RefreshPhase,
) -> (LiveUsage, bool) {
    let (s1, p1) = live_refresh::refresh_advanced(live, bucket, phase);
    let (s2, p2) = live_refresh::refresh_advanced(s1, bucket, p1);
    let (s3, p3) = live_refresh::refresh_advanced(s2, bucket, p2);
    let (s4, p4) = live_refresh::refresh_advanced(s3, bucket, p3);
    let (s5, p5) = live_refresh::refresh_advanced(s4, bucket, p4);
    (
        s5,
        phase is Refresh || p1 is Refresh || p2 is Refresh || p3 is Refresh || p4 is Refresh,
    )
}

/// What happens to the epochs and claims in one step of a recount in the background.
pub open spec fn refresh_event(
    live: LiveUsage,
    bucket: Seq<char>,
    phase: RefreshPhase,
) -> Option<LiveEvent> {
    match phase {
        RefreshPhase::Claim => Some(LiveEvent::Claim(bucket)),
        RefreshPhase::Claimed { .. } => None,
        RefreshPhase::Track { .. } => Some(LiveEvent::Track(bucket)),
        RefreshPhase::Confirm { owner } => if live.owner(bucket) == Some(owner) {
            None
        } else {
            Some(LiveEvent::Abandon(bucket))
        },
        RefreshPhase::Refresh { owner } => Some(LiveEvent::Release(bucket, owner)),
        RefreshPhase::Ended => None,
    }
}

/// A recount in the background writes nothing: each of its steps is one of the other events, or
/// leaves everything as it is. So what it does outdates no other recount.
pub proof fn law_refresh_is_no_write(live: LiveUsage, bucket: Seq<char>, phase: RefreshPhase)
    ensures
        live_refresh::refresh_advanced(live, bucket, phase).0 == match refresh_event(
            live,
            bucket,
            phase,
        ) {
            Some(event) => after_event(live, event),
            None => live,
        },
        refresh_event(live, bucket, phase) != Some(LiveEvent::Write(bucket)),
{
}

/// A bucket that is deleted while a recount in the background prepares its listing stays deleted:
/// whatever the recount has done by then, it lists nothing and leaves the bucket untracked and
/// unclaimed.
pub proof fn law_deleted_bucket_is_not_revived(
    live: LiveUsage,
    bucket: Seq<char>,
    phase: RefreshPhase,
)
    requires
        phase is Claimed || phase is Track || phase is Confirm,
    ensures
        ({
            let (after, listed) = refresh_completed(
                live.bumped(bucket).forgetting(bucket),
                bucket,
                phase,
            );
            &&& after.epoch(bucket) is None
            &&& after.owner(bucket) is None
            &&& !listed
        }),
{
}

/// A recount that lost its bucket to a newer one does not disturb it: the newer owner keeps its
/// claim, and the bucket stays tracked in the same epoch.
pub proof fn law_newer_recount_is_left_alone(
    live: LiveUsage,
    bucket: Seq<char>,
    phase: RefreshPhase,
    owner: u64,
    newer: u64,
)
    requires
        owner != newer,
        live.owner(bucket) == Some(newer),
        phase == (RefreshPhase::Claimed { owner }) || phase == (RefreshPhase::Track { owner })
            || phase == (RefreshPhase::Confirm { owner }) || phase == (RefreshPhase::Refresh {
            owner,
        }),
    ensures
        ({
            let (after, _) = refresh_completed(live, bucket, phase);
            &&& after.owner(bucket) == Some(newer)
            &&& live.epoch(bucket) is Some ==> after.epoch(bucket) == live.epoch(bucket)
            &&& phase !is Refresh ==> !refresh_completed(live, bucket, phase).1
        }),
{
}

/// A bucket that is claimed is not claimed again: a poll that asks for a recount of it gets none of
/// its own, and the claim stays with the one who has it.
pub proof fn law_one_recount_at_a_time(live: LiveUsage, bucket: Seq<char>)
    requires
        live.owner(bucket) is Some,
    ensures
        live_refresh::refresh_advanced(live, bucket, RefreshPhase::Claim).1 is Ended,
        live_refresh::refresh_advanced(live, bucket, RefreshPhase::Claim).0.owner(bucket)
            == live.owner(bucket),
{
}

/// The state after `n` polls have asked for a recount of a bucket.
pub open spec fn claimed_times(live: LiveUsage, bucket: Seq<char>, n: nat) -> LiveUsage
    decreases n,
{
    if n == 0 {
        live
    } else {
        live_refresh::refresh_advanced(
            claimed_times(live, bucket, (n - 1) as nat),
            bucket,
            RefreshPhase::Claim,
        ).0
    }
}

proof fn lemma_claimed_times(live: LiveUsage, bucket: Seq<char>, n: nat)
    requires
        live.owner(bucket) is Some,
    ensures
        claimed_times(live, bucket, n).in_flight == live.in_flight,
        claimed_times(live, bucket, n).epochs == live.epochs,
    decreases n,
{
    if n > 0 {
        lemma_claimed_times(live, bucket, (n - 1) as nat);
    }
}

/// However many polls ask for a recount while one is under way, that one is not disturbed by them.
/// If it was about to begin, it lists its bucket, and if it has listed it, it ends. Either way the
/// bucket is free to be claimed again when it has ended.
pub proof fn law_duplicate_claims_do_not_disturb(
    live: LiveUsage,
    bucket: Seq<char>,
    phase: RefreshPhase,
    owner: u64,
    n: nat,
)
    requires
        live.owner(bucket) == Some(owner),
        phase == (RefreshPhase::Claimed { owner }) || phase == (RefreshPhase::Track { owner })
            || phase == (RefreshPhase::Confirm { owner }) || phase == (RefreshPhase::Refresh {
            owner,
        }),
    ensures
        ({
            let later = claimed_times(live, bucket, n);
            let (after, listed) = refresh_completed(later, bucket, phase);
            &&& later.owner(bucket) == Some(owner)
            &&& later.released(bucket, owner).owner(bucket) is None
            &&& listed
            &&& after.owner(bucket) is None
            &&& live_refresh::refresh_advanced(after, bucket, RefreshPhase::Claim).1 is Claimed
        }),
{
    lemma_claimed_times(live, bucket, n);
}

/// Whether an owner gets a number.
pub open spec fn takes_number(event: LiveEvent) -> bool {
    event is TakeNumber || event is Claim
}

/// How many owners get a number.
pub open spec fn numbers_taken(events: Seq<LiveEvent>) -> nat
    decreases events.len(),
{
    if events.len() == 0 {
        0
    } else {
        numbers_taken(events.drop_last()) + if takes_number(events.last()) {
            1nat
        } else {
            0nat
        }
    }
}

proof fn lemma_next_number(live: LiveUsage, events: Seq<LiveEvent>)
    requires
        live.next_owner_id == 1,
        numbers_taken(events) < u64::MAX,
    ensures
        after_events(live, events).next_owner_id == 1 + numbers_taken(events),
    decreases events.len(),
{
    if events.len() > 0 {
        lemma_next_number(live, events.drop_last());
    }
}

proof fn lemma_numbers_taken_grow(events: Seq<LiveEvent>, i: int, j: int)
    requires
        0 <= i <= j <= events.len(),
    ensures
        numbers_taken(events.take(i)) <= numbers_taken(events.take(j)),
        i < j && takes_number(events[i]) ==> numbers_taken(events.take(i)) < numbers_taken(
            events.take(j),
        ),
    decreases j - i,
{
    if i < j {
        assert(events.take(j).drop_last() =~= events.take(j - 1));
        assert(events.take(j).last() == events[j - 1]);
        lemma_numbers_taken_grow(events, i, j - 1);
    }
}

/// No two owners get the same number, until all are used up: from the start on, whatever happens in
/// between, the first gets one and each gets a larger number than all before. `events[i]` and
/// `events[j]` give a number each, which is the next number of the state that they find.
pub proof fn law_owner_numbers_ascend(
    live: LiveUsage,
    events: Seq<LiveEvent>,
    i: int,
    j: int,
)
    requires
        live.next_owner_id == 1,
        numbers_taken(events) < u64::MAX,
        0 <= i < j < events.len(),
        takes_number(events[i]),
        takes_number(events[j]),
    ensures
        after_events(live, events.take(i)).next_owner_id < after_events(
            live,
            events.take(j),
        ).next_owner_id,
        numbers_taken(events.take(i)) == 0 ==> after_events(live, events.take(i)).next_owner_id == 1,
{
    let n = events.len() as int;
    assert(events.take(n) =~= events);
    lemma_numbers_taken_grow(events, i, n);
    lemma_numbers_taken_grow(events, j, n);
    lemma_next_number(live, events.take(i));
    lemma_next_number(live, events.take(j));
    lemma_numbers_taken_grow(events, i, j);
}

/// A recount that was published answers all requests until a write: without one, a request that
/// finds it in the cache, or that waited for it, is answered with it. After a write none is: a
/// request waits for a listing of a later epoch, whether the recount is still cached or not. As in
/// [`law_recount_counts_until_a_write`], nothing is said of a bucket that is given up.
pub proof fn law_recount_answers_until_a_write(
    live: LiveUsage,
    events: Seq<LiveEvent>,
    bucket: Seq<char>,
    epoch: u64,
    usage: BucketUsage,
    attempts: usize,
)
    requires
        live_refresh::published(live, bucket, epoch, usage) is Some,
        !events.contains(LiveEvent::Forget(bucket)),
        !events.contains(LiveEvent::Abandon(bucket)),
        writes(events, bucket) < 0x1_0000_0000_0000_0000,
        attempts < live::LIVE_USAGE_COALESCE_MAX_ATTEMPTS,
    ensures
        ({
            let entry = live_refresh::published(live, bucket, epoch, usage)->0;
            let after = after_events(live, events);
            if writes(events, bucket) == 0 {
                &&& live_refresh::next_step(after, bucket, attempts, Some(entry))
                    == live_refresh::NextStep::Answered(usage)
                &&& live::is_current(after, bucket, entry)
            } else {
                let cached = live_refresh::next_step(after, bucket, attempts, Some(entry));
                let dropped = live_refresh::next_step(after, bucket, attempts, None);
                &&& cached is Waits
                &&& cached->epoch != epoch
                &&& dropped == cached
                &&& !live::is_current(after, bucket, entry)
            }
        }),
{
    let entry = live_refresh::published(live, bucket, epoch, usage)->0;
    law_recount_counts_until_a_write(live, events, bucket, entry);
    lemma_epoch_after_events(live, events, bucket, epoch);
}

/// How many listings it takes to answer `n` requests, one after the other, if each listing gives the
/// usage and what is published of it stays in the cache.
pub open spec fn listings_taken(
    live: LiveUsage,
    bucket: Seq<char>,
    cached: Option<LiveEntry>,
    usage: BucketUsage,
    n: nat,
) -> nat
    decreases n,
{
    if n == 0 {
        0
    } else {
        match live_refresh::next_step(live, bucket, 0, cached) {
            live_refresh::NextStep::Waits { epoch } => 1 + listings_taken(
                live,
                bucket,
                live_refresh::published(live, bucket, epoch, usage),
                usage,
                (n - 1) as nat,
            ),
            _ => listings_taken(live, bucket, cached, usage, (n - 1) as nat),
        }
    }
}

proof fn lemma_no_listing_taken(
    live: LiveUsage,
    bucket: Seq<char>,
    entry: LiveEntry,
    usage: BucketUsage,
    n: nat,
)
    requires
        live::is_current(live, bucket, entry),
    ensures
        listings_taken(live, bucket, Some(entry), usage, n) == 0,
    decreases n,
{
    if n > 0 {
        lemma_no_listing_taken(live, bucket, entry, usage, (n - 1) as nat);
    }
}

/// Any number of requests between two writes takes one listing. A write, with which the cached
/// recount is dropped, costs one more.
pub proof fn law_requests_take_one_listing(
    live: LiveUsage,
    bucket: Seq<char>,
    usage: BucketUsage,
    n: nat,
)
    requires
        live.epoch(bucket) is Some,
        n > 0,
    ensures
        listings_taken(live, bucket, None, usage, n) == 1,
        listings_taken(live.bumped(bucket), bucket, None, usage, n) == 1,
{
    let epoch = live.epoch(bucket)->0;
    let entry = LiveEntry { usage, epoch };
    lemma_no_listing_taken(live, bucket, entry, usage, (n - 1) as nat);
    let later = live.bumped(bucket);
    let newer = LiveEntry { usage, epoch: later.epoch(bucket)->0 };
    lemma_no_listing_taken(later, bucket, newer, usage, (n - 1) as nat);
}

/// A recount that is undisturbed lists its bucket, and leaves it tracked and free to be claimed.
pub proof fn law_undisturbed_recount_completes(live: LiveUsage, bucket: Seq<char>)
    requires
        live.owner(bucket) is None,
    ensures
        ({
            let (after, listed) = refresh_completed(live, bucket, RefreshPhase::Claim);
            &&& listed
            &&& after.epoch(bucket) == live.tracking(bucket).epoch(bucket)
            &&& after.owner(bucket) is None
        }),
{
}

/// A response that took over a recount which is outdated by then gets back what it had: the usage
/// and the size of each bucket are those from before.
pub proof fn law_outdated_hit_is_undone(info: DataUsage, bucket: Seq<char>, recount: BucketUsage)
    ensures
        live_response::with_usage_restored(
            live_response::with_live_usage(info, bucket, recount),
            bucket,
            name_map::held(info.buckets_usage, bucket),
            name_map::held(info.bucket_sizes, bucket),
        ) == info.with_buckets_counted().with_totals(),
{
    let applied = live_response::with_live_usage(info, bucket, recount);
    assert(live_response::holding(
        applied.buckets_usage,
        bucket,
        name_map::held(info.buckets_usage, bucket),
    ) =~= info.buckets_usage);
    assert(live_response::holding(
        applied.bucket_sizes,
        bucket,
        name_map::held(info.bucket_sizes, bucket),
    ) =~= info.bucket_sizes);
}

/// Totals need to be computed only once, after all recounts have been applied.
pub proof fn law_totals_are_computed_once(
    info: DataUsage,
    first: Seq<char>,
    first_usage: BucketUsage,
    second: Seq<char>,
    second_usage: BucketUsage,
)
    ensures
        live_response::with_live_usage(
            live_response::with_live_usage(info, first, first_usage).with_totals(),
            second,
            second_usage,
        ).with_totals() == live_response::with_live_usage(
            live_response::with_live_usage(info, first, first_usage),
            second,
            second_usage,
        ).with_totals(),
{
}

/// A recount of one bucket leaves the usage of the others as it is.
pub proof fn law_recount_concerns_one_bucket(
    info: DataUsage,
    bucket: Seq<char>,
    recount: BucketUsage,
    other: Seq<char>,
)
    requires
        bucket != other,
    ensures
        ({
            let after = live_response::with_live_usage(info, bucket, recount);
            &&& name_map::held(after.buckets_usage, other) == name_map::held(info.buckets_usage, other)
            &&& name_map::held(after.bucket_sizes, other) == name_map::held(info.bucket_sizes, other)
        }),
{
}

/// A bucket has the epoch and the owner that are noted under its name, and no other.
pub proof fn law_epoch_and_owner_are_those_noted(live: LiveUsage, bucket: Seq<char>)
    ensures
        live.epochs.contains_key(bucket) ==> live.epoch(bucket) == Some(live.epochs[bucket]),
        !live.epochs.contains_key(bucket) ==> live.epoch(bucket) is None,
        live.in_flight.contains_key(bucket) ==> live.owner(bucket) == Some(live.in_flight[bucket]),
        !live.in_flight.contains_key(bucket) ==> live.owner(bucket) is None,
{
}

/// A write moves its bucket on by one epoch, whatever the epoch is; the last is followed by zero. One
/// that was not tracked comes to be tracked, and its first write leads to epoch one. Nobody loses a
/// claim by it, and the other buckets stay in their epochs.
pub proof fn law_write_moves_on_by_one(live: LiveUsage, bucket: Seq<char>, other: Seq<char>)
    requires
        other != bucket,
    ensures
        ({
            let after = live.bumped(bucket);
            &&& after.epochs.contains_key(bucket)
            &&& live.epochs.contains_key(bucket) && live.epochs[bucket] < u64::MAX
                ==> after.epochs[bucket] == live.epochs[bucket] + 1
            &&& live.epochs.contains_key(bucket) && live.epochs[bucket] == u64::MAX
                ==> after.epochs[bucket] == 0
            &&& !live.epochs.contains_key(bucket) ==> after.epochs[bucket] == 1
            &&& after.epochs.contains_key(other) <==> live.epochs.contains_key(other)
            &&& after.epochs[other] == live.epochs[other]
            &&& after.in_flight == live.in_flight
            &&& after.next_owner_id == live.next_owner_id
        }),
{
}

/// Tracking a bucket leaves the epoch of one that is tracked, and starts any other at zero. Nothing
/// else changes.
pub proof fn law_tracking_keeps_the_epoch(live: LiveUsage, bucket: Seq<char>, other: Seq<char>)
    requires
        other != bucket,
    ensures
        ({
            let after = live.tracking(bucket);
            &&& after.epochs.contains_key(bucket)
            &&& live.epochs.contains_key(bucket) ==> after.epochs[bucket] == live.epochs[bucket]
            &&& !live.epochs.contains_key(bucket) ==> after.epochs[bucket] == 0
            &&& after.epochs.contains_key(other) <==> live.epochs.contains_key(other)
            &&& after.epochs[other] == live.epochs[other]
            &&& after.in_flight == live.in_flight
            &&& after.next_owner_id == live.next_owner_id
        }),
{
}

/// Forgetting a bucket ends its tracking and its recount, and touches no other bucket.
pub proof fn law_forgetting_concerns_one_bucket(
    live: LiveUsage,
    bucket: Seq<char>,
    other: Seq<char>,
)
    requires
        other != bucket,
    ensures
        ({
            let after = live.forgetting(bucket);
            &&& !after.epochs.contains_key(bucket)
            &&& !after.in_flight.contains_key(bucket)
            &&& after.epochs.contains_key(other) <==> live.epochs.contains_key(other)
            &&& after.epochs[other] == live.epochs[other]
            &&& after.in_flight.contains_key(other) <==> live.in_flight.contains_key(other)
            &&& after.in_flight[other] == live.in_flight[other]
            &&& after.next_owner_id == live.next_owner_id
        }),
{
}

/// Giving a number to an owner uses up that number and changes nothing else; the last is followed by
/// zero.
pub proof fn law_number_is_used_up(live: LiveUsage)
    ensures
        ({
            let after = live.numbered();
            &&& live.next_owner_id < u64::MAX ==> after.next_owner_id == live.next_owner_id + 1
            &&& live.next_owner_id == u64::MAX ==> after.next_owner_id == 0
            &&& after.epochs == live.epochs
            &&& after.in_flight == live.in_flight
        }),
{
}

/// A claim gives a bucket that is free to an owner with the next number, and leaves one that is not
/// free to the owner whom it has. A number is used up either way. No other bucket is touched, and no
/// epoch.
pub proof fn law_claim_goes_to_the_first(live: LiveUsage, bucket: Seq<char>, other: Seq<char>)
    requires
        other != bucket,
    ensures
        ({
            let after = live.claimed(bucket);
            &&& after.in_flight.contains_key(bucket)
            &&& live.in_flight.contains_key(bucket) ==> after.in_flight[bucket]
                == live.in_flight[bucket]
            &&& !live.in_flight.contains_key(bucket) ==> after.in_flight[bucket]
                == live.next_owner_id
            &&& after.in_flight.contains_key(other) <==> live.in_flight.contains_key(other)
            &&& after.in_flight[other] == live.in_flight[other]
            &&& after.epochs == live.epochs
            &&& live.next_owner_id < u64::MAX ==> after.next_owner_id == live.next_owner_id + 1
            &&& live.next_owner_id == u64::MAX ==> after.next_owner_id == 0
        }),
{
}

/// Giving a bucket up ends its tracking only if nobody has claimed it, and touches nothing else.
pub proof fn law_claimed_bucket_is_not_given_up(
    live: LiveUsage,
    bucket: Seq<char>,
    other: Seq<char>,
)
    requires
        other != bucket,
    ensures
        ({
            let after = live.abandoned(bucket);
            &&& live.in_flight.contains_key(bucket) ==> after == live
            &&& !live.in_flight.contains_key(bucket) ==> !after.epochs.contains_key(bucket)
            &&& after.epochs.contains_key(other) <==> live.epochs.contains_key(other)
            &&& after.epochs[other] == live.epochs[other]
            &&& after.in_flight == live.in_flight
            &&& after.next_owner_id == live.next_owner_id
        }),
{
}

/// The end of a recount frees its bucket if the bucket is claimed by the one who ends it. A bucket
/// that is claimed by another stays claimed, and everything else stays too.
pub proof fn law_only_the_owner_frees_a_bucket(
    live: LiveUsage,
    bucket: Seq<char>,
    owner: u64,
    other: Seq<char>,
)
    requires
        other != bucket,
    ensures
        ({
            let after = live.released(bucket, owner);
            &&& live.in_flight.contains_key(bucket) && live.in_flight[bucket] == owner
                ==> !after.in_flight.contains_key(bucket)
            &&& !live.in_flight.contains_key(bucket) || live.in_flight[bucket] != owner ==> after
                == live
            &&& after.in_flight.contains_key(other) <==> live.in_flight.contains_key(other)
            &&& after.in_flight[other] == live.in_flight[other]
            &&& after.epochs == live.epochs
            &&& after.next_owner_id == live.next_owner_id
        }),
{
}

/// A cached recount is found as it was cached exactly if its bucket is tracked and still in the epoch
/// of the recount.
pub proof fn law_cached_recount_is_found_in_its_epoch(
    live: LiveUsage,
    bucket: Seq<char>,
    entry: LiveEntry,
)
    ensures
        ({
            let found = live::current_entry(live, bucket, Some(entry));
            &&& found is Some <==> live.epochs.contains_key(bucket) && live.epochs[bucket]
                == entry.epoch
            &&& found is Some ==> found->0.usage == entry.usage && found->0.epoch == entry.epoch
            &&& live::is_current(live, bucket, entry) <==> found is Some
        }),
        live::current_entry(live, bucket, None) is None,
{
}

/// A listing is published exactly if its bucket is tracked and still in the epoch in which the listing
/// began, with the usage that it gave, in every count, and under that epoch. A listing that failed is
/// not published.
pub proof fn law_listing_is_published_in_its_epoch(
    live: LiveUsage,
    bucket: Seq<char>,
    epoch: u64,
    usage: BucketUsage,
    listed: Result<BucketUsage, Seq<char>>,
)
    ensures
        ({
            let entry = live_refresh::published(live, bucket, epoch, usage);
            let in_epoch = live.epochs.contains_key(bucket) && live.epochs[bucket] == epoch;
            &&& entry is Some <==> in_epoch
            &&& entry is Some ==> entry->0.usage == usage && entry->0.epoch == epoch
            &&& live_refresh::publishes(live, bucket, epoch, listed) <==> listed is Ok && in_epoch
        }),
{
}

/// What a request does that has waited for so many listings. It gives up after four. Until then it is
/// answered by a cached recount of the epoch of its bucket, in every count. Without one it waits for a
/// listing of that epoch, and a bucket that is not tracked gets no recount.
pub proof fn law_request_waits_four_times(
    live: LiveUsage,
    bucket: Seq<char>,
    attempts: usize,
    cached: Option<LiveEntry>,
)
    ensures
        ({
            let step = live_refresh::next_step(live, bucket, attempts, cached);
            let known = live.epochs.contains_key(bucket);
            let hit = known && cached is Some && cached->0.epoch == live.epochs[bucket];
            &&& attempts >= 4 ==> step == NextStep::Superseded
            &&& attempts < 4 && hit ==> step == NextStep::Answered(cached->0.usage)
            &&& attempts < 4 && known && !hit ==> step == (NextStep::Waits {
                epoch: live.epochs[bucket],
            })
            &&& attempts < 4 && !known ==> step == NextStep::Superseded
        }),
{
}

/// What a request is told is what was decided: a usage with all its counts, the epoch to wait for, or
/// the error that names its bucket.
pub proof fn law_request_is_told_what_was_decided(
    r: CoalesceStep,
    bucket: Seq<char>,
    step: NextStep,
)
    requires
        live_refresh::takes_step(r, bucket, step),
    ensures
        step matches NextStep::Answered(usage) ==> (r matches CoalesceStep::Done(Ok(told)) && told@
            == usage),
        step matches NextStep::Waits { epoch } ==> r == (CoalesceStep::Refresh { epoch }),
        step is Superseded ==> (r matches CoalesceStep::Done(
            Err(LiveUsageError::Superseded { bucket: named }),
        ) && named@ == bucket),
{
}

/// How a recount in the background goes on. One that finds its bucket claimed ends; otherwise it
/// claims the bucket. With the claim it goes on as long as the claim is its own, first to have the
/// bucket tracked, and then to ask for the recount. In the end it frees the bucket.
pub proof fn law_refresh_goes_on_while_it_owns_its_bucket(
    live: LiveUsage,
    bucket: Seq<char>,
    owner: u64,
)
    ensures
        ({
            let owned = live.in_flight.contains_key(bucket) && live.in_flight[bucket] == owner;
            let free = !live.in_flight.contains_key(bucket);
            let begun = live_refresh::refresh_advanced(live, bucket, RefreshPhase::Claim);
            let claimed = live_refresh::refresh_advanced(
                live,
                bucket,
                RefreshPhase::Claimed { owner },
            );
            let noted = live_refresh::refresh_advanced(
                live,
                bucket,
                RefreshPhase::Track { owner },
            );
            let confirmed = live_refresh::refresh_advanced(
                live,
                bucket,
                RefreshPhase::Confirm { owner },
            );
            let asked = live_refresh::refresh_advanced(
                live,
                bucket,
                RefreshPhase::Refresh { owner },
            );
            let ended = live_refresh::refresh_advanced(live, bucket, RefreshPhase::Ended);
            &&& free ==> begun.1 == (RefreshPhase::Claimed { owner: live.next_owner_id })
            &&& free ==> begun.0.in_flight == live.in_flight.insert(bucket, live.next_owner_id)
            &&& !free ==> begun.1 == RefreshPhase::Ended && begun.0.in_flight == live.in_flight
            &&& begun.0.epochs == live.epochs
            &&& begun.0.next_owner_id == live.numbered().next_owner_id
            &&& claimed.0 == live
            &&& owned ==> claimed.1 == (RefreshPhase::Track { owner })
            &&& !owned ==> claimed.1 == RefreshPhase::Ended
            &&& noted.0.epochs.contains_key(bucket)
            &&& live.epochs.contains_key(bucket) ==> noted.0 == live
            &&& !live.epochs.contains_key(bucket) ==> noted.0.epochs == live.epochs.insert(
                bucket,
                0,
            )
            &&& noted.0.in_flight == live.in_flight
            &&& noted.0.next_owner_id == live.next_owner_id
            &&& noted.1 == (RefreshPhase::Confirm { owner })
            &&& owned ==> confirmed == (live, RefreshPhase::Refresh { owner })
            &&& !owned ==> confirmed.1 == RefreshPhase::Ended
            &&& free ==> confirmed.0.epochs == live.epochs.remove(bucket)
            &&& !free ==> confirmed.0.epochs == live.epochs
            &&& confirmed.0.in_flight == live.in_flight
            &&& confirmed.0.next_owner_id == live.next_owner_id
            &&& owned ==> asked.0.in_flight == live.in_flight.remove(bucket)
            &&& !owned ==> asked.0.in_flight == live.in_flight
            &&& asked.0.epochs == live.epochs
            &&& asked.0.next_owner_id == live.next_owner_id
            &&& asked.1 == RefreshPhase::Ended
            &&& ended == (live, RefreshPhase::Ended)
        }),
{
}

/// Once a recount was put into a response, what the response holds under the name of the bucket is the
/// recount itself, in every count and both distributions, and its size stands there too. The number of
/// buckets is that of the buckets with a usage. The other fields stay: the totals are recomputed
/// later.
pub proof fn law_response_holds_the_recount(info: DataUsage, bucket: Seq<char>, recount: BucketUsage)
    ensures
        ({
            let after = live_response::with_live_usage(info, bucket, recount);
            let shown = after.buckets_usage[bucket];
            &&& after.buckets_usage.contains_key(bucket)
            &&& shown.size == recount.size
            &&& shown.objects_count == recount.objects_count
            &&& shown.versions_count == recount.versions_count
            &&& shown.delete_markers_count == recount.delete_markers_count
            &&& shown.object_size_histogram == recount.object_size_histogram
            &&& shown.object_versions_histogram == recount.object_versions_histogram
            &&& shown == recount
            &&& after.bucket_sizes.contains_key(bucket)
            &&& after.bucket_sizes[bucket] == recount.size
            &&& after.buckets_usage.len() <= u64::MAX ==> after.buckets_count
                == after.buckets_usage.len()
            &&& after.last_update == info.last_update
            &&& after.objects_total_count == info.objects_total_count
            &&& after.versions_total_count == info.versions_total_count
            &&& after.delete_markers_total_count == info.delete_markers_total_count
            &&& after.objects_total_size == info.objects_total_size
            &&& after.replication_info == info.replication_info
            &&& after.disk_usage_status == info.disk_usage_status
        }),
{
}

/// What a recount replaced is put back as it was: the bucket has the usage and the size that were
/// kept, or none if there was none. The other buckets and fields stay, and the totals are those of
/// the buckets.
pub proof fn law_replaced_usage_is_put_back(
    info: DataUsage,
    bucket: Seq<char>,
    usage: Option<BucketUsage>,
    size: Option<u64>,
    other: Seq<char>,
)
    requires
        other != bucket,
    ensures
        ({
            let after = live_response::with_usage_restored(info, bucket, usage, size);
            &&& after.buckets_usage.contains_key(bucket) <==> usage is Some
            &&& usage is Some ==> after.buckets_usage[bucket] == usage->0
            &&& after.bucket_sizes.contains_key(bucket) <==> size is Some
            &&& size is Some ==> after.bucket_sizes[bucket] == size->0
            &&& after.buckets_usage.contains_key(other) <==> info.buckets_usage.contains_key(other)
            &&& after.buckets_usage[other] == info.buckets_usage[other]
            &&& after.bucket_sizes.contains_key(other) <==> info.bucket_sizes.contains_key(other)
            &&& after.bucket_sizes[other] == info.bucket_sizes[other]
            &&& after.last_update == info.last_update
            &&& after.replication_info == info.replication_info
            &&& after.disk_usage_status == info.disk_usage_status
            &&& after.with_totals() == after
            &&& after.with_buckets_counted() == after
        }),
{
}

/// A cached recount stands for the usage and the epoch that are in it.
pub proof fn law_cached_recount_shows_its_counts(entry: LiveBucketUsageEntry)
    ensures
        entry@.usage == entry.usage@,
        entry@.epoch == entry.epoch,
{
}

} // verus!
