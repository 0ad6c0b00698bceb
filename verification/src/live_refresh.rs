//! How a recount of a bucket is asked for, shared, published and repeated.

use crate::live;
use crate::live::{
    abandon_live_bucket_usage_epoch, claim_live_bucket_usage_refresh,
    current_live_bucket_usage_entry, ensure_live_bucket_usage_epoch,
    live_bucket_usage_epoch_if_tracked, live_bucket_usage_schedule_still_owned,
    release_live_bucket_usage_in_flight_if_owner, LiveBucketUsage, LiveBucketUsageEntry,
};
use crate::name_map;
use crate::usage::{BucketUsage, BucketUsageInfo};
use vstd::prelude::*;
use vstd::string::*;

verus! {

/// Why a recount was not published.
#[derive(Debug)]
pub enum LiveRefreshError {
    /// A write moved the bucket on, or a delete forgot it, while the recount was under way.
    Superseded,
    /// The listing itself failed.
    Failed(String),
}

impl LiveRefreshError {
    /// The error as a sentence.
    pub fn message(&self) -> (r: String)
        ensures
            r@ == match *self {
                LiveRefreshError::Superseded => "live usage refresh was superseded"@,
                LiveRefreshError::Failed(text) => text@,
            },
    {
        match self {
            LiveRefreshError::Superseded => "live usage refresh was superseded".to_owned(),
            LiveRefreshError::Failed(text) => text.clone(),
        }
    }
}

/// What is published of a listing that began at `epoch` and gave the usage: nothing if the bucket
/// has moved on.
pub open spec fn published(
    live: live::LiveUsage,
    bucket: Seq<char>,
    epoch: u64,
    usage: BucketUsage,
) -> Option<live::LiveEntry> {
    if live.epoch(bucket) == Some(epoch) {
        Some(live::LiveEntry { usage, epoch })
    } else {
        None
    }
}

/// Whether a recount is published: only if it succeeded, and the bucket is still in the epoch in
/// which it began.
pub open spec fn publishes<T, E>(
    live: live::LiveUsage,
    bucket: Seq<char>,
    epoch: u64,
    listed: Result<T, E>,
) -> bool {
    listed is Ok && live.epoch(bucket) == Some(epoch)
}

/// Turns the outcome of a listing that began at `epoch` into what is published.
pub fn publish_live_bucket_usage(
    live: &LiveBucketUsage,
    bucket: &str,
    epoch: u64,
    listed: Result<BucketUsageInfo, String>,
) -> (r: Result<LiveBucketUsageEntry, LiveRefreshError>)
    ensures
        match listed {
            Ok(usage) => match published(live@, bucket@, epoch, usage@) {
                Some(entry) => r is Ok && r->Ok_0@ == entry,
                None => r == Err::<LiveBucketUsageEntry, _>(LiveRefreshError::Superseded),
            },
            Err(text) => r == Err::<LiveBucketUsageEntry, _>(LiveRefreshError::Failed(text)),
        },
        r is Ok <==> publishes(live@, bucket@, epoch, listed),
{
    match listed {
        Ok(usage) => match live_bucket_usage_epoch_if_tracked(live, bucket) {
            Some(current) => if current == epoch {
                Ok(LiveBucketUsageEntry { usage, epoch })
            } else {
                Err(LiveRefreshError::Superseded)
            },
            None => Err(LiveRefreshError::Superseded),
        },
        Err(text) => Err(LiveRefreshError::Failed(text)),
    }
}

/// How a listing in the background came out, which needs a permit and has a time limit.
pub enum PermitOutcome {
    /// No permit is given out any more.
    Closed,
    /// The listing took too long.
    TimedOut,
    /// The listing came to its end.
    Listed(Result<BucketUsageInfo, String>),
}

/// The outcome of a listing in the background as that of a listing.
pub fn listing_under_permit(outcome: PermitOutcome) -> (r: Result<BucketUsageInfo, String>)
    ensures
        match outcome {
            PermitOutcome::Closed => r is Err && r->Err_0@
                == "live usage refresh semaphore closed"@,
            PermitOutcome::TimedOut => r is Err && r->Err_0@ == "live usage refresh timed out"@,
            PermitOutcome::Listed(listed) => r == listed,
        },
{
    match outcome {
        PermitOutcome::Closed => Err("live usage refresh semaphore closed".to_owned()),
        PermitOutcome::TimedOut => Err("live usage refresh timed out".to_owned()),
        PermitOutcome::Listed(listed) => listed,
    }
}

/// Why a request for a recount gets none.
#[derive(Debug)]
pub enum LiveUsageError {
    /// The bucket was forgotten, or writes came in between too often.
    Superseded { bucket: String },
    /// The listing failed.
    Failed(String),
}

impl LiveUsageError {
    /// The error as a sentence.
    pub fn message(&self) -> (r: String)
        ensures
            r@ == match *self {
                LiveUsageError::Superseded { bucket } => "live usage for "@ + bucket@
                    + " was superseded"@,
                LiveUsageError::Failed(text) => text@,
            },
    {
        match self {
            LiveUsageError::Superseded { bucket } => {
                let mut message = "live usage for ".to_owned();
                message.append(bucket.as_str());
                message.append(" was superseded");
                message
            },
            LiveUsageError::Failed(text) => text.clone(),
        }
    }
}

/// `e` says that the recount of `bucket` is superseded.
pub open spec fn says_superseded(e: LiveUsageError, bucket: Seq<char>) -> bool {
    e matches LiveUsageError::Superseded { bucket: named } && named@ == bucket
}

/// What a request for a recount does next.
pub enum CoalesceStep {
    /// It is answered.
    Done(Result<BucketUsageInfo, LiveUsageError>),
    /// It waits for a listing that belongs to the given epoch: the one that is under way, or else
    /// one that it begins.
    Refresh { epoch: u64 },
}

/// What becomes of a request for a recount when the listing that it waited for has ended.
pub enum CoalesceOutcome {
    /// It is answered.
    Done(Result<BucketUsageInfo, LiveUsageError>),
    /// It tries again.
    Retry {
        /// The epoch of an outdated recount that is to be taken out of the cache, see
        /// [`discard_superseded_live_cache_entry`].
        discard: Option<u64>,
    },
}

/// What a [`CoalesceStep`] stands for.
#[verifier::ext_equal]
pub enum NextStep {
    /// The request is answered with a usage.
    Answered(BucketUsage),
    /// The request is answered with the error that the recount is superseded.
    Superseded,
    /// The request waits for a listing that belongs to the epoch.
    Waits { epoch: u64 },
}

/// What a request does that has waited for so many listings, given what is cached. A cached recount
/// that still counts is the answer. Otherwise the request waits, as long as the bucket is tracked
/// and it has not waited too often.
pub open spec fn next_step(
    live: live::LiveUsage,
    bucket: Seq<char>,
    attempts: usize,
    cached: Option<live::LiveEntry>,
) -> NextStep {
    if attempts >= live::LIVE_USAGE_COALESCE_MAX_ATTEMPTS {
        NextStep::Superseded
    } else {
        match live::current_entry(live, bucket, cached) {
            Some(entry) => NextStep::Answered(entry.usage),
            None => match live.epoch(bucket) {
                Some(epoch) => NextStep::Waits { epoch },
                None => NextStep::Superseded,
            },
        }
    }
}

/// `r` is the given step of a request for a recount of `bucket`.
pub open spec fn takes_step(r: CoalesceStep, bucket: Seq<char>, step: NextStep) -> bool {
    match r {
        CoalesceStep::Done(Ok(usage)) => step == NextStep::Answered(usage@),
        CoalesceStep::Done(Err(e)) => step == NextStep::Superseded && says_superseded(e, bucket),
        CoalesceStep::Refresh { epoch } => step == NextStep::Waits { epoch },
    }
}

/// A request for a recount of a bucket. Requests for one bucket share one listing.
pub struct CoalesceRequest {
    bucket: String,
    attempts: usize,
}

impl CoalesceRequest {
    /// The bucket.
    pub closed spec fn bucket_name(&self) -> Seq<char> {
        self.bucket@
    }

    /// How many listings it has waited for.
    pub closed spec fn attempts_made(&self) -> usize {
        self.attempts
    }

    /// A request that has not yet waited for a listing.
    pub fn new(bucket: &str) -> (r: Self)
        ensures
            r.bucket_name() == bucket@,
            r.attempts_made() == 0,
    {
        CoalesceRequest { bucket: bucket.to_owned(), attempts: 0 }
    }

    /// Begins an attempt, given what is cached for the bucket. A cached recount that still counts
    /// is the answer. A bucket that is not tracked gets none: it is not tracked anew here, since it
    /// may just have been deleted.
    pub fn begin(&mut self, live: &LiveBucketUsage, cached: Option<LiveBucketUsageEntry>) -> (r:
        CoalesceStep)
        ensures
            final(self).bucket_name() == old(self).bucket_name(),
            ({
                let bucket = old(self).bucket_name();
                let step = next_step(
                    live@,
                    bucket,
                    old(self).attempts_made(),
                    name_map::optional(cached),
                );
                &&& takes_step(r, bucket, step)
                &&& final(self).attempts_made() == old(self).attempts_made() + if step is Waits {
                    1int
                } else {
                    0int
                }
            }),
    {
        if self.attempts >= live::LIVE_USAGE_COALESCE_MAX_ATTEMPTS {
            return CoalesceStep::Done(Err(LiveUsageError::Superseded { bucket: self.bucket.clone() }));
        }
        match current_live_bucket_usage_entry(live, self.bucket.as_str(), cached) {
            Some(entry) => CoalesceStep::Done(Ok(entry.usage)),
            None => match live_bucket_usage_epoch_if_tracked(live, self.bucket.as_str()) {
                Some(epoch) => {
                    self.attempts = self.attempts + 1;
                    CoalesceStep::Refresh { epoch }
                },
                None => CoalesceStep::Done(
                    Err(LiveUsageError::Superseded { bucket: self.bucket.clone() }),
                ),
            },
        }
    }

    /// Ends an attempt with what the listing gave. A recount that is outdated by now is tried
    /// again, as long as the bucket is tracked.
    pub fn settle(
        &self,
        live: &LiveBucketUsage,
        result: Result<LiveBucketUsageEntry, LiveRefreshError>,
    ) -> (r: CoalesceOutcome)
        ensures
            ({
                let epoch = live@.epoch(self.bucket_name());
                match result {
                    Ok(entry) => if live::is_current(live@, self.bucket_name(), entry@) {
                        r matches CoalesceOutcome::Done(Ok(usage)) && usage@ == entry.usage@
                    } else {
                        r == (CoalesceOutcome::Retry { discard: Some(entry.epoch) })
                    },
                    Err(LiveRefreshError::Superseded) => if epoch is Some {
                        r == (CoalesceOutcome::Retry { discard: None })
                    } else {
                        r matches CoalesceOutcome::Done(Err(e)) && says_superseded(
                            e,
                            self.bucket_name(),
                        )
                    },
                    Err(LiveRefreshError::Failed(text)) => r == CoalesceOutcome::Done(
                        Err(LiveUsageError::Failed(text)),
                    ),
                }
            }),
    {
        match result {
            Ok(entry) => {
                let current = match live_bucket_usage_epoch_if_tracked(live, self.bucket.as_str()) {
                    Some(epoch) => epoch == entry.epoch,
                    None => false,
                };
                if current {
                    CoalesceOutcome::Done(Ok(entry.usage))
                } else {
                    CoalesceOutcome::Retry { discard: Some(entry.epoch) }
                }
            },
            Err(LiveRefreshError::Superseded) => {
                match live_bucket_usage_epoch_if_tracked(live, self.bucket.as_str()) {
                    Some(_) => CoalesceOutcome::Retry { discard: None },
                    None => CoalesceOutcome::Done(
                        Err(LiveUsageError::Superseded { bucket: self.bucket.clone() }),
                    ),
                }
            },
            Err(LiveRefreshError::Failed(text)) => CoalesceOutcome::Done(
                Err(LiveUsageError::Failed(text)),
            ),
        }
    }
}

/// How far a recount in the background has come.
#[derive(Clone, Copy, Debug, PartialEq, Eq, Structural)]
pub enum RefreshPhase {
    /// It is to claim its bucket.
    Claim,
    /// It has claimed its bucket and is to look whether it still owns it.
    Claimed { owner: u64 },
    /// It is to see to it that its bucket is tracked.
    Track { owner: u64 },
    /// Its bucket is tracked, and it is to look whether it still owns it.
    Confirm { owner: u64 },
    /// It asks for the recount.
    Refresh { owner: u64 },
    /// It has ended.
    Ended,
}

/// Where a recount in the background goes from `phase`, and what that makes of the state.
pub open spec fn refresh_advanced(
    live: live::LiveUsage,
    bucket: Seq<char>,
    phase: RefreshPhase,
) -> (live::LiveUsage, RefreshPhase) {
    match phase {
        RefreshPhase::Claim => (
            live.claimed(bucket),
            if live.owner(bucket) is Some {
                RefreshPhase::Ended
            } else {
                RefreshPhase::Claimed { owner: live.next_owner_id }
            },
        ),
        RefreshPhase::Claimed { owner } => if live.owner(bucket) == Some(owner) {
            (live, RefreshPhase::Track { owner })
        } else {
            (live, RefreshPhase::Ended)
        },
        RefreshPhase::Track { owner } => (live.tracking(bucket), RefreshPhase::Confirm { owner }),
        RefreshPhase::Confirm { owner } => if live.owner(bucket) == Some(owner) {
            (live, RefreshPhase::Refresh { owner })
        } else {
            (live.abandoned(bucket), RefreshPhase::Ended)
        },
        RefreshPhase::Refresh { owner } => (live.released(bucket, owner), RefreshPhase::Ended),
        RefreshPhase::Ended => (live, RefreshPhase::Ended),
    }
}

/// Takes a recount in the background one step further. Other tasks may change the state between
/// two steps.
///
/// A bucket that is already claimed is not recounted a second time. One that was forgotten after it
/// was claimed is given up; if it came to be tracked again on behalf of this recount alone, that is
/// undone. From [`RefreshPhase::Refresh`] the caller goes on when its request has been answered.
pub fn advance_live_bucket_usage_refresh(
    live: &mut LiveBucketUsage,
    bucket: &str,
    phase: RefreshPhase,
) -> (r: RefreshPhase)
    ensures
        (final(live)@, r) == refresh_advanced(old(live)@, bucket@, phase),
{
    match phase {
        RefreshPhase::Claim => match claim_live_bucket_usage_refresh(live, bucket) {
            Some(owner) => RefreshPhase::Claimed { owner },
            None => RefreshPhase::Ended,
        },
        RefreshPhase::Claimed { owner } => {
            if live_bucket_usage_schedule_still_owned(live, bucket, owner) {
                RefreshPhase::Track { owner }
            } else {
                RefreshPhase::Ended
            }
        },
        RefreshPhase::Track { owner } => {
            ensure_live_bucket_usage_epoch(live, bucket);
            RefreshPhase::Confirm { owner }
        },
        RefreshPhase::Confirm { owner } => {
            if live_bucket_usage_schedule_still_owned(live, bucket, owner) {
                RefreshPhase::Refresh { owner }
            } else {
                abandon_live_bucket_usage_epoch(live, bucket);
                RefreshPhase::Ended
            }
        },
        RefreshPhase::Refresh { owner } => {
            release_live_bucket_usage_in_flight_if_owner(live, bucket, owner);
            RefreshPhase::Ended
        },
        RefreshPhase::Ended => RefreshPhase::Ended,
    }
}

} // verus!
