use bucket_usage::live::{
    bump_live_bucket_usage_epoch, cached_live_bucket_usage_if_current, claim_live_bucket_usage_refresh,
    current_live_bucket_usage_entry, discard_superseded_live_cache_entry, ensure_live_bucket_usage_epoch,
    forget_live_bucket_usage, invalidate_live_bucket_usage_cache, live_bucket_usage_epoch,
    live_bucket_usage_epoch_if_tracked, live_bucket_usage_schedule_still_owned, next_live_bucket_usage_owner_id,
    release_live_bucket_usage_in_flight_if_owner, LiveBucketUsage, LiveBucketUsageEntry,
    LIVE_BUCKET_USAGE_MAX_ENTRIES, LIVE_BUCKET_USAGE_TTL_SECS, LIVE_USAGE_COALESCE_MAX_ATTEMPTS,
    LIVE_USAGE_REFRESH_PERMITS, LIVE_USAGE_REFRESH_TIMEOUT_SECS,
};
use bucket_usage::live_refresh::{
    advance_live_bucket_usage_refresh, listing_under_permit, publish_live_bucket_usage, CoalesceOutcome,
    CoalesceRequest, CoalesceStep, LiveRefreshError, LiveUsageError, PermitOutcome, RefreshPhase,
};
use bucket_usage::live_response::{
    apply_cached_live_bucket_usage, apply_live_bucket_usage_to_response, apply_refreshed_bucket_usage,
    needs_versioned_refresh, settle_cached_live_bucket_usage, versioned_refresh_candidates, BucketVersioning,
};
use bucket_usage::memory::{
    get_bucket_usage_memory, record_bucket_object_delete_memory, record_bucket_object_write_memory,
    UsageMemoryCache,
};
use bucket_usage::memory_sync::{apply_bucket_usage_memory_overlay, replace_bucket_usage_memory_from_info};
use bucket_usage::time::Timestamp;
use bucket_usage::usage::{BucketUsageInfo, DataUsageInfo};
use std::collections::HashMap;
use std::time::Duration;

fn secs_before(now: Timestamp, secs: i128) -> Timestamp {
    Timestamp { nanos: now.nanos - secs * 1_000_000_000 }
}

fn counted(objects_count: u64, size: u64) -> BucketUsageInfo {
    BucketUsageInfo { objects_count, size, ..Default::default() }
}

fn data_usage_info_for_test(bucket: &str, objects_count: u64, size: u64, last_update: Timestamp) -> DataUsageInfo {
    let mut info = DataUsageInfo { last_update: Some(last_update), ..Default::default() };
    info.buckets_usage.insert(
        bucket.to_string(),
        BucketUsageInfo { objects_count, versions_count: objects_count, size, ..Default::default() },
    );
    info.bucket_sizes.insert(bucket.to_string(), size);
    info.buckets_count = info.buckets_usage.len() as u64;
    info.calculate_totals();
    info
}

fn shown(info: &DataUsageInfo, bucket: &str) -> Option<(u64, u64)> {
    info.buckets_usage.get(bucket).map(|usage| (usage.objects_count, usage.size))
}

/// The epochs together with a cache that keeps everything.
struct Live {
    live: LiveBucketUsage,
    cached: HashMap<String, LiveBucketUsageEntry>,
}

impl Live {
    fn new() -> Self {
        Live { live: LiveBucketUsage::new(), cached: HashMap::new() }
    }

    fn invalidate(&mut self, bucket: &str) {
        invalidate_live_bucket_usage_cache(&mut self.live, bucket);
        self.cached.remove(bucket);
    }

    fn forget(&mut self, bucket: &str) {
        self.invalidate(bucket);
        forget_live_bucket_usage(&mut self.live, bucket);
    }

    fn epoch(&self, bucket: &str) -> Option<u64> {
        live_bucket_usage_epoch_if_tracked(&self.live, bucket)
    }

    fn current(&self, bucket: &str) -> Option<(u64, u64)> {
        cached_live_bucket_usage_if_current(&self.live, bucket, self.cached.get(bucket).cloned())
            .map(|usage| (usage.objects_count, usage.size))
    }

    fn is_in_flight(&self, bucket: &str) -> bool {
        (0..100).any(|owner| live_bucket_usage_schedule_still_owned(&self.live, bucket, owner))
    }

    fn put_back(&mut self, bucket: &str, removed: Option<LiveBucketUsageEntry>, superseded_epoch: u64) {
        if let Some(entry) = discard_superseded_live_cache_entry(&self.live, bucket, removed, superseded_epoch) {
            self.cached.insert(bucket.to_string(), entry);
        }
    }

    fn discard(&mut self, bucket: &str, superseded_epoch: u64) {
        let removed = self.cached.remove(bucket);
        self.put_back(bucket, removed, superseded_epoch);
    }

    fn coalesce(
        &mut self,
        bucket: &str,
        mut init: impl FnMut(&mut Live) -> Result<BucketUsageInfo, String>,
    ) -> Result<BucketUsageInfo, LiveUsageError> {
        let mut request = CoalesceRequest::new(bucket);
        loop {
            let epoch = match request.begin(&self.live, self.cached.get(bucket).cloned()) {
                CoalesceStep::Done(result) => return result,
                CoalesceStep::Refresh { epoch } => epoch,
            };
            let result = match self.cached.get(bucket).cloned() {
                Some(entry) => Ok(entry),
                None => {
                    let listed = init(self);
                    let published = publish_live_bucket_usage(&self.live, bucket, epoch, listed);
                    if let Ok(entry) = &published {
                        self.cached.insert(bucket.to_string(), entry.clone());
                    }
                    published
                }
            };
            match request.settle(&self.live, result) {
                CoalesceOutcome::Done(result) => return result,
                CoalesceOutcome::Retry { discard } => {
                    if let Some(epoch) = discard {
                        self.discard(bucket, epoch);
                    }
                }
            }
        }
    }

    fn seed(&mut self, bucket: &str, objects_count: u64, size: u64) {
        let usage = self.coalesce(bucket, |_| Ok(counted(objects_count, size))).expect("seed live cache");
        assert_eq!((usage.objects_count, usage.size), (objects_count, size));
    }

    /// Applies a cached recount, with something happening before it is looked at once more. The
    /// result says whether a recount is scheduled.
    fn apply_during(&mut self, info: &mut DataUsageInfo, bucket: &str, meanwhile: impl FnOnce(&mut Live)) -> bool {
        let entry = current_live_bucket_usage_entry(&self.live, bucket, self.cached.get(bucket).cloned());
        let replaced = apply_cached_live_bucket_usage(info, bucket, entry);
        meanwhile(self);
        settle_cached_live_bucket_usage(&self.live, info, bucket, replaced)
    }

    fn apply(&mut self, info: &mut DataUsageInfo, bucket: &str) -> bool {
        self.apply_during(info, bucket, |_| {})
    }

    fn step(&mut self, bucket: &str, phase: RefreshPhase) -> RefreshPhase {
        advance_live_bucket_usage_refresh(&mut self.live, bucket, phase)
    }

    /// Runs a scheduled recount from the given phase to its end.
    fn run(
        &mut self,
        bucket: &str,
        mut phase: RefreshPhase,
        mut init: impl FnMut(&mut Live) -> Result<BucketUsageInfo, String>,
    ) {
        while phase != RefreshPhase::Ended {
            if matches!(phase, RefreshPhase::Refresh { .. }) {
                let _ = self.coalesce(bucket, &mut init);
            }
            phase = self.step(bucket, phase);
        }
    }
}

#[test]
fn live_bucket_usage_refreshes_are_coalesced_and_cached_until_invalidated() {
    const BUCKET: &str = "coalesced-live-usage-test";
    let mut live = Live::new();
    live.invalidate(BUCKET);
    let mut calls = 0;

    for _ in 0..8 {
        let usage = live
            .coalesce(BUCKET, |_| {
                calls += 1;
                Ok(counted(7, 42))
            })
            .expect("coalesced refresh should succeed");
        assert_eq!((usage.objects_count, usage.size), (7, 42));
    }
    assert_eq!(calls, 1);

    let cached = live
        .coalesce(BUCKET, |_| {
            calls += 1;
            Ok(BucketUsageInfo::default())
        })
        .expect("a later refresh within TTL should reuse the cached live result");
    assert_eq!((cached.objects_count, cached.size), (7, 42));
    assert_eq!(calls, 1);

    live.invalidate(BUCKET);
    live.coalesce(BUCKET, |_| {
        calls += 1;
        Ok(counted(1, 2))
    })
    .expect("a refresh after invalidate should recompute");
    assert_eq!(calls, 2);
}

#[test]
fn apply_cached_or_schedule_returns_immediately_on_cache_miss() {
    const BUCKET: &str = "live-schedule-miss-test";
    let mut live = Live::new();
    live.invalidate(BUCKET);

    let mut response = DataUsageInfo::default();
    assert!(live.apply(&mut response, BUCKET));
    assert!(
        !response.buckets_usage.contains_key(BUCKET),
        "cache miss must not block the response on the live recount"
    );

    live.run(BUCKET, RefreshPhase::Claim, |_| Ok(counted(9, 99)));
    assert!(live.current(BUCKET).is_some(), "background live refresh should populate the TTL cache");

    let mut next_response = DataUsageInfo::default();
    assert!(
        !live.apply(&mut next_response, BUCKET),
        "cache hit must not schedule another live recount"
    );
    assert_eq!(shown(&next_response, BUCKET), Some((9, 99)));
}

#[test]
fn write_memory_invalidates_live_bucket_usage_cache() {
    const BUCKET: &str = "live-invalidate-on-write-test";
    let mut live = Live::new();
    let mut memory = UsageMemoryCache::new();
    live.invalidate(BUCKET);
    live.seed(BUCKET, 3, 30);
    assert!(live.current(BUCKET).is_some());

    let persisted = data_usage_info_for_test(BUCKET, 3, 30, secs_before(Timestamp::now(), 10));
    replace_bucket_usage_memory_from_info(&mut memory, &persisted);
    record_bucket_object_write_memory(&mut memory, &mut live.live, BUCKET, None, 5);

    assert!(
        live.current(BUCKET).is_none(),
        "write-path memory updates must drop sticky live usage so dirty overlay can win"
    );
}

#[test]
fn invalidate_during_in_flight_refresh_does_not_poison_ttl_cache() {
    const BUCKET: &str = "live-invalidate-inflight-test";
    let mut live = Live::new();
    live.invalidate(BUCKET);

    let mut response = DataUsageInfo::default();
    assert!(live.apply(&mut response, BUCKET));
    let mut calls = 0;
    live.run(BUCKET, RefreshPhase::Claim, |live| {
        calls += 1;
        if calls == 1 {
            live.invalidate(BUCKET);
            Ok(counted(1, 10))
        } else {
            Err("stop retry after superseded refresh".to_string())
        }
    });
    assert_eq!(calls, 2);
    assert!(
        live.current(BUCKET).is_none(),
        "a refresh that finished after invalidate must not become a usable TTL hit"
    );
    assert!(
        !live.cached.contains_key(BUCKET),
        "superseded init must not leave a stale epoch entry in the TTL cache"
    );

    let mut next_response = data_usage_info_for_test(BUCKET, 5, 50, Timestamp::now());
    live.apply(&mut next_response, BUCKET);
    assert_eq!(
        shown(&next_response, BUCKET),
        Some((5, 50)),
        "admin response must keep scanner/overlay counts when live cache is superseded"
    );
}

#[test]
fn coalesce_retries_after_invalidate_and_publishes_fresh_epoch() {
    const BUCKET: &str = "live-coalesce-superseded-retry-test";
    let mut live = Live::new();
    live.invalidate(BUCKET);

    let mut calls = 0;
    let usage = live
        .coalesce(BUCKET, |live| {
            calls += 1;
            if calls == 1 {
                live.invalidate(BUCKET);
                Ok(counted(1, 10))
            } else {
                Ok(counted(2, 20))
            }
        })
        .expect("coalesce must retry after supersede and publish the fresh epoch");
    assert_eq!((usage.objects_count, usage.size), (2, 20));
    assert_eq!(calls, 2);
    assert_eq!(live.current(BUCKET), Some((2, 20)));
}

#[test]
fn coalesce_after_forget_without_ensure_does_not_resurrect_epoch() {
    const BUCKET: &str = "live-coalesce-forget-no-ensure-test";
    let mut live = Live::new();
    live.forget(BUCKET);

    let mut init_calls = 0;
    let result = live.coalesce(BUCKET, |_| {
        init_calls += 1;
        Ok(counted(1, 10))
    });

    assert!(
        result.is_err(),
        "coalesce must fail for a forgotten bucket when nobody ensured its epoch first"
    );
    assert_eq!(init_calls, 0, "init must never run for an untracked/forgotten bucket");
    assert!(
        live.epoch(BUCKET).is_none(),
        "epoch must remain untracked; resurrecting it here would leak an unbounded map entry"
    );
    assert!(
        live.current(BUCKET).is_none(),
        "no usable TTL entry must exist for a forgotten bucket"
    );
}

#[test]
fn discard_superseded_live_cache_entry_does_not_wipe_newer_epoch() {
    const BUCKET: &str = "live-discard-cas-test";
    let mut live = Live::new();
    live.invalidate(BUCKET);
    live.seed(BUCKET, 2, 20);
    let winner_epoch = live_bucket_usage_epoch(&live.live, BUCKET);
    assert!(live.current(BUCKET).is_some());

    live.discard(BUCKET, winner_epoch.wrapping_sub(1));
    let still_cached = live
        .current(BUCKET)
        .expect("newer winner must survive discard of an older superseded epoch");
    assert_eq!(still_cached, (2, 20));

    live.discard(BUCKET, winner_epoch);
    assert!(
        live.current(BUCKET).is_none(),
        "discard matching the cached epoch must drop the entry"
    );
}

#[test]
fn dirty_memory_overlay_wins_over_cached_live_hit() {
    const BUCKET: &str = "live-dirty-overlay-wins-test";
    let mut live = Live::new();
    let mut memory = UsageMemoryCache::new();
    live.invalidate(BUCKET);
    live.seed(BUCKET, 1, 10);

    let persisted = data_usage_info_for_test(BUCKET, 1, 10, secs_before(Timestamp::now(), 10));
    replace_bucket_usage_memory_from_info(&mut memory, &persisted);
    record_bucket_object_write_memory(&mut memory, &mut live.live, BUCKET, None, 5);
    live.cached.remove(BUCKET);
    assert!(live.current(BUCKET).is_none());

    live.seed(BUCKET, 1, 10);

    let mut response = persisted.clone();
    assert!(!live.apply(&mut response, BUCKET), "must use cached live hit");
    assert_eq!(shown(&response, BUCKET), Some((1, 10)), "live hit applied before overlay");

    apply_bucket_usage_memory_overlay(&memory, &mut response);
    assert_eq!(
        shown(&response, BUCKET),
        Some((2, 15)),
        "dirty write-path overlay must win over TTL live snapshot"
    );
}

#[test]
fn live_usage_ttl_outlives_the_refresh_that_produces_it() {
    assert!(
        Duration::from_secs(LIVE_BUCKET_USAGE_TTL_SECS) >= Duration::from_secs(LIVE_USAGE_REFRESH_TIMEOUT_SECS),
        "live TTL ({LIVE_BUCKET_USAGE_TTL_SECS}s) must be >= the refresh bound ({LIVE_USAGE_REFRESH_TIMEOUT_SECS}s)"
    );
}

#[test]
fn delete_memory_and_backend_remove_invalidate_live_cache() {
    const BUCKET: &str = "live-invalidate-on-delete-test";
    let mut live = Live::new();
    let mut memory = UsageMemoryCache::new();
    live.invalidate(BUCKET);
    live.seed(BUCKET, 4, 40);
    assert!(live.current(BUCKET).is_some());

    let persisted = data_usage_info_for_test(BUCKET, 4, 40, secs_before(Timestamp::now(), 10));
    replace_bucket_usage_memory_from_info(&mut memory, &persisted);
    record_bucket_object_delete_memory(&mut memory, &mut live.live, BUCKET, 40, true);
    assert!(
        live.current(BUCKET).is_none(),
        "delete-path memory updates must drop sticky live usage"
    );
    live.cached.remove(BUCKET);

    live.seed(BUCKET, 1, 1);
    assert!(live.current(BUCKET).is_some());

    live.forget(BUCKET);
    assert!(live.current(BUCKET).is_none());
    assert!(
        live.epoch(BUCKET).is_none(),
        "deleted buckets must drop epoch tracking to bound map growth"
    );
}

#[test]
fn apply_cached_live_restores_prior_counts_when_invalidate_races() {
    const BUCKET: &str = "live-apply-delete-race-test";
    let mut live = Live::new();
    live.invalidate(BUCKET);
    live.seed(BUCKET, 9, 90);

    let mut response = data_usage_info_for_test(BUCKET, 5, 50, Timestamp::now());
    let schedule = live.apply_during(&mut response, BUCKET, |live| live.invalidate(BUCKET));
    assert_eq!(
        shown(&response, BUCKET),
        Some((5, 50)),
        "invalidate during apply must restore scanner/overlay counts via the real apply helper"
    );
    assert_eq!(response.bucket_sizes.get(BUCKET), Some(&50));
    assert_eq!((response.buckets_count, response.objects_total_count, response.objects_total_size), (1, 5, 50));
    assert!(schedule);
}

#[test]
fn forget_during_inflight_refresh_does_not_resurrect_epoch() {
    const BUCKET: &str = "live-forget-no-epoch-resurrect-test";
    let mut live = Live::new();
    live.forget(BUCKET);

    let mut response = DataUsageInfo::default();
    assert!(live.apply(&mut response, BUCKET));
    let mut entered = false;
    live.run(BUCKET, RefreshPhase::Claim, |live| {
        entered = true;
        live.forget(BUCKET);
        Ok(counted(1, 10))
    });
    assert!(entered, "background refresh must enter init before forget");
    assert!(!live.cached.contains_key(BUCKET));
    assert!(
        live.epoch(BUCKET).is_none(),
        "forget must leave no epoch tracking after the fenced refresh exits"
    );
    assert!(!live.is_in_flight(BUCKET));
    assert!(live.current(BUCKET).is_none());
}

#[test]
fn apply_forget_during_hit_restore_does_not_schedule_or_resurrect_epoch() {
    const BUCKET: &str = "live-apply-forget-no-resurrect-test";
    let mut live = Live::new();
    live.forget(BUCKET);
    ensure_live_bucket_usage_epoch(&mut live.live, BUCKET);
    live.seed(BUCKET, 9, 90);

    let mut response = data_usage_info_for_test(BUCKET, 5, 50, Timestamp::now());
    let schedule = live.apply_during(&mut response, BUCKET, |live| live.forget(BUCKET));
    assert_eq!(
        shown(&response, BUCKET),
        Some((5, 50)),
        "forget during apply must restore scanner/overlay counts"
    );
    assert!(!schedule, "forget after apply hit must not schedule a refresh that runs init");
    assert!(live.epoch(BUCKET).is_none());
    assert!(live.current(BUCKET).is_none());
}

#[test]
fn forget_between_still_owned_and_ensure_does_not_resurrect_epoch() {
    const BUCKET: &str = "live-forget-pre-ensure-test";
    let mut live = Live::new();
    live.forget(BUCKET);

    let claimed = live.step(BUCKET, RefreshPhase::Claim);
    let owned = live.step(BUCKET, claimed);
    assert!(
        matches!(owned, RefreshPhase::Track { .. }),
        "schedule must pause after still_owned check and before ensure"
    );
    live.forget(BUCKET);

    let mut init_calls = 0;
    live.run(BUCKET, owned, |_| {
        init_calls += 1;
        Ok(counted(1, 10))
    });
    assert!(
        live.epoch(BUCKET).is_none(),
        "forget between still_owned and ensure must leave the epoch untracked"
    );
    assert!(
        !live.cached.contains_key(BUCKET),
        "forget between still_owned and ensure must not leave a TTL publish"
    );
    assert!(!live.is_in_flight(BUCKET), "fenced schedule must not leave a stale in-flight entry");
    assert!(
        live.current(BUCKET).is_none(),
        "no usable TTL entry must survive the fenced ensure resurrection"
    );
    assert_eq!(
        init_calls, 0,
        "init must not run (or publish) once the post-ensure still_owned check fails"
    );
}

#[test]
fn in_flight_owner_remove_does_not_clear_newer_schedule() {
    const BUCKET: &str = "live-inflight-owner-token-test";
    let mut live = Live::new();
    live.forget(BUCKET);

    let claimed = live.step(BUCKET, RefreshPhase::Claim);
    let first = live.step(BUCKET, claimed);
    assert!(
        matches!(first, RefreshPhase::Track { .. }),
        "first schedule must reach pre-ensure hook"
    );
    live.forget(BUCKET);

    let mut init_calls = 0;
    let mut second = RefreshPhase::Claim;
    while !matches!(second, RefreshPhase::Refresh { .. }) {
        assert_ne!(second, RefreshPhase::Ended);
        second = live.step(BUCKET, second);
    }
    live.run(BUCKET, first, |_| {
        init_calls += 1;
        Ok(counted(1, 1))
    });
    assert!(
        live.is_in_flight(BUCKET),
        "second schedule must own in-flight after forget fenced the first"
    );

    live.run(BUCKET, second, |_| {
        init_calls += 1;
        Ok(counted(1, 1))
    });
    assert!(!live.is_in_flight(BUCKET));
    assert!(
        live.current(BUCKET).is_some(),
        "fenced first schedule must finish without clearing the second owner"
    );
    assert_eq!(init_calls, 1);
}

#[test]
fn discard_superseded_live_cache_entry_race_keeps_newer_winner() {
    const BUCKET: &str = "live-discard-toctou-race-test";
    let mut live = Live::new();
    live.invalidate(BUCKET);
    live.seed(BUCKET, 2, 20);
    let stale_epoch = live_bucket_usage_epoch(&live.live, BUCKET);

    let removed = live.cached.remove(BUCKET);
    live.invalidate(BUCKET);
    live.seed(BUCKET, 3, 30);
    live.put_back(BUCKET, removed, stale_epoch);

    let winner = live.current(BUCKET).expect("newer winner must survive discard TOCTOU race");
    assert_eq!(winner, (3, 30));
}

#[test]
fn concurrent_apply_cache_miss_schedules_single_in_flight_refresh() {
    const BUCKET: &str = "live-schedule-inflight-dedupe-test";
    let mut live = Live::new();
    live.forget(BUCKET);

    let mut init_calls = 0;
    let mut first = RefreshPhase::Claim;
    while !matches!(first, RefreshPhase::Refresh { .. }) {
        first = live.step(BUCKET, first);
    }
    for _ in 1..4 {
        let mut response = DataUsageInfo::default();
        assert!(live.apply(&mut response, BUCKET));
        live.run(BUCKET, RefreshPhase::Claim, |_| {
            init_calls += 1;
            Ok(counted(4, 40))
        });
    }
    assert!(live.is_in_flight(BUCKET));
    live.run(BUCKET, first, |_| {
        init_calls += 1;
        Ok(counted(4, 40))
    });
    assert_eq!(
        init_calls, 1,
        "in-flight dedupe must allow only one background init for concurrent cache misses"
    );
    assert!(live.current(BUCKET).is_some(), "single refresh should populate the TTL cache");
    assert!(!live.is_in_flight(BUCKET));
}

#[test]
fn duplicate_claims_leave_the_running_recount_its_slot() {
    let mut live = LiveBucketUsage::new();
    assert_eq!(claim_live_bucket_usage_refresh(&mut live, "b"), Some(1));
    for _ in 0..3 {
        assert_eq!(claim_live_bucket_usage_refresh(&mut live, "b"), None);
        assert!(live_bucket_usage_schedule_still_owned(&live, "b", 1));
    }
    release_live_bucket_usage_in_flight_if_owner(&mut live, "b", 2);
    assert!(live_bucket_usage_schedule_still_owned(&live, "b", 1));
    release_live_bucket_usage_in_flight_if_owner(&mut live, "b", 1);
    assert!(!live_bucket_usage_schedule_still_owned(&live, "b", 1));
    assert_eq!(claim_live_bucket_usage_refresh(&mut live, "b"), Some(5));
}

#[test]
fn claims_before_the_first_recount_has_begun_do_not_stop_it() {
    let mut live = Live::new();
    for steps_before in 1..=4 {
        live.forget("b");
        let mut first = RefreshPhase::Claim;
        for _ in 0..steps_before {
            first = live.step("b", first);
        }
        let mut init_calls = 0;
        for _ in 0..3 {
            live.run("b", RefreshPhase::Claim, |_| {
                init_calls += 1;
                Ok(counted(1, 1))
            });
        }
        assert_eq!(init_calls, 0);
        live.run("b", first, |_| {
            init_calls += 1;
            Ok(counted(1, 1))
        });
        assert_eq!(init_calls, 1);
        assert!(!live.is_in_flight("b"));
        assert_eq!(live.current("b"), Some((1, 1)));

        live.invalidate("b");
        live.run("b", RefreshPhase::Claim, |_| {
            init_calls += 1;
            Ok(counted(2, 2))
        });
        assert_eq!(init_calls, 2, "a later cache miss can be scheduled again");
        assert_eq!(live.current("b"), Some((2, 2)));
    }
}

#[test]
fn apply_live_bucket_usage_to_multiple_buckets_then_calculate_totals_once() {
    let mut response = DataUsageInfo::default();
    apply_live_bucket_usage_to_response(
        &mut response,
        "bucket-a",
        &BucketUsageInfo { objects_count: 2, versions_count: 2, size: 20, ..Default::default() },
    );
    apply_live_bucket_usage_to_response(
        &mut response,
        "bucket-b",
        &BucketUsageInfo { objects_count: 3, versions_count: 3, size: 30, ..Default::default() },
    );
    // Per-bucket apply must not recompute aggregates.
    assert_eq!(response.objects_total_count, 0);
    assert_eq!(response.objects_total_size, 0);

    response.calculate_totals();

    assert_eq!(response.buckets_count, 2);
    assert_eq!(response.objects_total_count, 5);
    assert_eq!(response.versions_total_count, 5);
    assert_eq!(response.objects_total_size, 50);
}

#[test]
fn live_usage_updates_response_without_replacing_quota_memory() {
    let mut memory = UsageMemoryCache::new();
    let persisted = data_usage_info_for_test("bucket-a", 100, 1_000, Timestamp::now());
    replace_bucket_usage_memory_from_info(&mut memory, &persisted);
    let mut response = persisted.clone();

    apply_live_bucket_usage_to_response(&mut response, "bucket-a", &BucketUsageInfo::default());

    assert_eq!(response.buckets_usage.get("bucket-a").map(|usage| usage.objects_count), Some(0));
    assert_eq!(get_bucket_usage_memory(&memory, "bucket-a"), Some(1_000));
}

#[test]
fn limits_of_recounts() {
    assert_eq!(LIVE_BUCKET_USAGE_TTL_SECS, 300);
    assert_eq!(LIVE_BUCKET_USAGE_MAX_ENTRIES, 1024);
    assert_eq!(LIVE_USAGE_REFRESH_PERMITS, 1);
    assert_eq!(LIVE_USAGE_REFRESH_TIMEOUT_SECS, 300);
    assert_eq!(LIVE_USAGE_COALESCE_MAX_ATTEMPTS, 4);
}

#[test]
fn owner_ids_count_up_from_one() {
    let mut live = LiveBucketUsage::new();
    assert_eq!(next_live_bucket_usage_owner_id(&mut live), 1);
    assert_eq!(next_live_bucket_usage_owner_id(&mut live), 2);
    assert_eq!(claim_live_bucket_usage_refresh(&mut live, "b"), Some(3));
    assert_eq!(claim_live_bucket_usage_refresh(&mut live, "b"), None);
    assert_eq!(claim_live_bucket_usage_refresh(&mut live, "c"), Some(5));
    assert_eq!(next_live_bucket_usage_owner_id(&mut live), 6);
}

#[test]
fn epochs_start_at_zero_and_count_up() {
    let mut live = LiveBucketUsage::new();
    assert_eq!(live_bucket_usage_epoch_if_tracked(&live, "b"), None);
    assert_eq!(live_bucket_usage_epoch(&live, "b"), 0);
    assert_eq!(ensure_live_bucket_usage_epoch(&mut live, "b"), 0);
    assert_eq!(live_bucket_usage_epoch_if_tracked(&live, "b"), Some(0));
    assert_eq!(bump_live_bucket_usage_epoch(&mut live, "b"), 1);
    assert_eq!(bump_live_bucket_usage_epoch(&mut live, "c"), 1);
    assert_eq!(ensure_live_bucket_usage_epoch(&mut live, "b"), 1);
    forget_live_bucket_usage(&mut live, "b");
    assert_eq!(live_bucket_usage_epoch_if_tracked(&live, "b"), None);
    assert_eq!(live_bucket_usage_epoch_if_tracked(&live, "c"), Some(1));
}

#[test]
fn coalesce_gives_up_when_writes_never_cease() {
    let mut live = Live::new();
    live.invalidate("b");
    let mut calls = 0;
    let error = live
        .coalesce("b", |live| {
            calls += 1;
            live.invalidate("b");
            Ok(counted(1, 1))
        })
        .err()
        .expect("every recount is superseded");
    assert_eq!(calls, 4);
    assert!(matches!(error, LiveUsageError::Superseded { .. }));
    assert_eq!(error.message(), "live usage for b was superseded");
}

#[test]
fn failed_listing_is_reported_and_not_repeated() {
    let mut live = Live::new();
    live.invalidate("b");
    let mut calls = 0;
    let error = live
        .coalesce("b", |_| {
            calls += 1;
            Err("disk is gone".to_string())
        })
        .err()
        .expect("the listing failed");
    assert_eq!(calls, 1);
    assert_eq!(error.message(), "disk is gone");
    assert!(live.cached.is_empty());
}

#[test]
fn outdated_entry_in_the_cache_is_taken_out() {
    let mut live = Live::new();
    live.invalidate("b");
    live.seed("b", 1, 1);
    // A write moves the bucket on, but the cached recount is still there.
    bump_live_bucket_usage_epoch(&mut live.live, "b");
    let usage = live.coalesce("b", |_| Ok(counted(2, 2))).expect("recount");
    assert_eq!(usage.objects_count, 2);
    assert_eq!(live.current("b"), Some((2, 2)));
}

#[test]
fn refresh_errors_read_as_sentences() {
    assert_eq!(LiveRefreshError::Superseded.message(), "live usage refresh was superseded");
    assert_eq!(LiveRefreshError::Failed("x".to_string()).message(), "x");
    let text = |outcome| listing_under_permit(outcome).err();
    assert_eq!(text(PermitOutcome::Closed).as_deref(), Some("live usage refresh semaphore closed"));
    assert_eq!(text(PermitOutcome::TimedOut).as_deref(), Some("live usage refresh timed out"));
    assert_eq!(text(PermitOutcome::Listed(Err("x".to_string()))).as_deref(), Some("x"));
    assert_eq!(
        listing_under_permit(PermitOutcome::Listed(Ok(counted(1, 2)))).ok().map(|u| (u.objects_count, u.size)),
        Some((1, 2))
    );
}

#[test]
fn restored_response_drops_a_bucket_that_it_did_not_have() {
    let mut live = Live::new();
    live.invalidate("b");
    live.seed("b", 9, 90);
    let mut response = data_usage_info_for_test("a", 5, 50, Timestamp::now());
    live.apply_during(&mut response, "b", |live| live.invalidate("b"));
    assert_eq!(shown(&response, "b"), None);
    assert_eq!(response.bucket_sizes.get("b"), None);
    assert_eq!(shown(&response, "a"), Some((5, 50)));
    assert_eq!((response.buckets_count, response.objects_total_count), (1, 5));
}

#[test]
fn refreshed_usage_is_counted_in_the_totals() {
    let mut response = data_usage_info_for_test("a", 5, 50, Timestamp::now());
    apply_refreshed_bucket_usage(&mut response, "b", &counted(2, 20));
    assert_eq!(shown(&response, "b"), Some((2, 20)));
    assert_eq!(response.bucket_sizes.get("b"), Some(&20));
    assert_eq!((response.buckets_count, response.objects_total_count, response.objects_total_size), (2, 7, 70));
}

#[test]
fn versioned_refresh_covers_known_and_listed_buckets() {
    let mut info = data_usage_info_for_test("m", 1, 1, Timestamp::now());
    info.buckets_usage.insert("z".to_string(), counted(1, 1));
    let listed = vec!["b".to_string(), String::new(), "z".to_string(), "a".to_string(), "b".to_string()];
    assert_eq!(versioned_refresh_candidates(&info, &listed), vec!["a", "b", "m", "z"]);
    assert!(versioned_refresh_candidates(&DataUsageInfo::default(), &Vec::new()).is_empty());
}

#[test]
fn only_versioned_buckets_are_refreshed() {
    let versioning = |enabled, suspended| Some(BucketVersioning { enabled, suspended });
    assert!(needs_versioned_refresh(versioning(true, false)));
    assert!(needs_versioned_refresh(versioning(false, true)));
    assert!(!needs_versioned_refresh(versioning(false, false)));
    assert!(!needs_versioned_refresh(None));
}
