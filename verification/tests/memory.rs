use bucket_usage::live::LiveBucketUsage;
use bucket_usage::memory::{
    cached_bucket_usage_from_backend, cached_bucket_usage_now, clear_bucket_usage_memory,
    decrement_bucket_usage_memory, get_bucket_usage_memory, increment_bucket_usage_memory,
    record_bucket_delete_marker_memory, record_bucket_object_delete_memory,
    record_bucket_object_version_write_memory, record_bucket_object_write_memory,
    record_bucket_object_write_unknown_previous_memory, record_bucket_usage_change_at, UsageChange,
    UsageMemoryCache,
};
use bucket_usage::memory_sync::{
    apply_bucket_usage_memory_overlay, replace_bucket_usage_memory_from_authoritative,
    replace_bucket_usage_memory_from_authoritative_at, replace_bucket_usage_memory_from_info,
    replace_bucket_usage_memory_from_info_at,
};
use bucket_usage::memory_update::{
    ensure_bucket_usage_cached, finish_usage_cache_update, plan_usage_cache_update_at,
    retry_usage_cache_update, update_usage_cache_if_needed, CacheUpdate,
};
use bucket_usage::time::Timestamp;
use bucket_usage::usage::{bucket_usage_counts_match, BucketUsageInfo, DataUsageInfo};

fn secs_after(now: Timestamp, secs: i128) -> Timestamp {
    Timestamp { nanos: now.nanos + secs * 1_000_000_000 }
}

fn secs_before(now: Timestamp, secs: i128) -> Timestamp {
    secs_after(now, -secs)
}

fn data_usage_info_for_test(bucket: &str, objects_count: u64, size: u64, last_update: Timestamp) -> DataUsageInfo {
    let mut info = DataUsageInfo { last_update: Some(last_update), ..Default::default() };
    info.buckets_usage.insert(
        bucket.to_string(),
        BucketUsageInfo { objects_count, versions_count: objects_count, size, ..Default::default() },
    );
    info.bucket_sizes.insert(bucket.to_string(), size);
    info.buckets_count = info.buckets_usage.len() as u64;
    info.calculate_totals();
    info
}

fn counts(info: &DataUsageInfo) -> Option<(u64, u64)> {
    info.buckets_usage.get("bucket-a").map(|usage| (usage.objects_count, usage.size))
}

fn version_counts(info: &DataUsageInfo) -> Option<(u64, u64, u64)> {
    info.buckets_usage
        .get("bucket-a")
        .map(|usage| (usage.objects_count, usage.versions_count, usage.size))
}

fn marker_counts(info: &DataUsageInfo) -> Option<(u64, u64, u64, u64)> {
    info.buckets_usage
        .get("bucket-a")
        .map(|usage| (usage.objects_count, usage.versions_count, usage.delete_markers_count, usage.size))
}

#[test]
fn memory_overlay_reflects_recent_delete_before_scanner_persists() {
    let mut memory = UsageMemoryCache::new();
    let mut live = LiveBucketUsage::new();

    let persisted = data_usage_info_for_test("bucket-a", 1, 42, secs_before(Timestamp::now(), 10));
    replace_bucket_usage_memory_from_info(&mut memory, &persisted);
    record_bucket_object_delete_memory(&mut memory, &mut live, "bucket-a", 42, true);

    let mut response = persisted.clone();
    apply_bucket_usage_memory_overlay(&memory, &mut response);

    assert_eq!(response.objects_total_count, 0);
    assert_eq!(response.objects_total_size, 0);
    assert_eq!(counts(&response), Some((0, 0)));
}

#[test]
fn clear_bucket_usage_memory_prevents_deleted_bucket_overlay() {
    let mut memory = UsageMemoryCache::new();
    let mut live = LiveBucketUsage::new();

    let persisted = data_usage_info_for_test("bucket-a", 1, 42, secs_before(Timestamp::now(), 10));
    replace_bucket_usage_memory_from_info(&mut memory, &persisted);
    record_bucket_object_delete_memory(&mut memory, &mut live, "bucket-a", 42, true);
    clear_bucket_usage_memory(&mut memory, "bucket-a");

    let mut response = DataUsageInfo { last_update: Some(Timestamp::now()), ..Default::default() };
    apply_bucket_usage_memory_overlay(&memory, &mut response);

    assert_eq!(response.buckets_count, 0);
    assert_eq!(response.objects_total_count, 0);
    assert!(!response.buckets_usage.contains_key("bucket-a"));
    assert!(!response.bucket_sizes.contains_key("bucket-a"));
}

#[test]
fn memory_overlay_preserves_object_count_for_overwrite() {
    let mut memory = UsageMemoryCache::new();
    let mut live = LiveBucketUsage::new();

    let persisted = data_usage_info_for_test("bucket-a", 1, 10, secs_before(Timestamp::now(), 10));
    replace_bucket_usage_memory_from_info(&mut memory, &persisted);
    record_bucket_object_write_memory(&mut memory, &mut live, "bucket-a", Some(10), 20);

    let mut response = persisted.clone();
    apply_bucket_usage_memory_overlay(&memory, &mut response);

    assert_eq!(response.objects_total_count, 1);
    assert_eq!(response.objects_total_size, 20);
    assert_eq!(counts(&response), Some((1, 20)));
}

#[test]
fn memory_overlay_counts_versioned_overwrite_as_new_version() {
    let mut memory = UsageMemoryCache::new();
    let mut live = LiveBucketUsage::new();

    let persisted = data_usage_info_for_test("bucket-a", 1, 10, secs_before(Timestamp::now(), 10));
    replace_bucket_usage_memory_from_info(&mut memory, &persisted);
    record_bucket_object_version_write_memory(&mut memory, &mut live, "bucket-a", Some(10), 20);

    let mut response = persisted.clone();
    apply_bucket_usage_memory_overlay(&memory, &mut response);

    assert_eq!(response.objects_total_count, 1);
    assert_eq!(response.versions_total_count, 2);
    assert_eq!(response.objects_total_size, 30);
    assert_eq!(version_counts(&response), Some((1, 2, 30)));
}

#[test]
fn memory_overlay_unknown_previous_adds_size_only_for_unversioned_write() {
    let mut memory = UsageMemoryCache::new();
    let mut live = LiveBucketUsage::new();

    let persisted = data_usage_info_for_test("bucket-a", 1, 10, secs_before(Timestamp::now(), 10));
    replace_bucket_usage_memory_from_info(&mut memory, &persisted);
    record_bucket_object_write_unknown_previous_memory(&mut memory, &mut live, "bucket-a", 20, false);

    let mut response = persisted.clone();
    apply_bucket_usage_memory_overlay(&memory, &mut response);

    assert_eq!(response.objects_total_count, 1);
    assert_eq!(response.versions_total_count, 1);
    assert_eq!(response.objects_total_size, 30);
    assert_eq!(version_counts(&response), Some((1, 1, 30)));
}

#[test]
fn memory_overlay_unknown_previous_adds_size_and_version_for_versioned_write() {
    let mut memory = UsageMemoryCache::new();
    let mut live = LiveBucketUsage::new();

    let persisted = data_usage_info_for_test("bucket-a", 1, 10, secs_before(Timestamp::now(), 10));
    replace_bucket_usage_memory_from_info(&mut memory, &persisted);
    record_bucket_object_write_unknown_previous_memory(&mut memory, &mut live, "bucket-a", 20, true);

    let mut response = persisted.clone();
    apply_bucket_usage_memory_overlay(&memory, &mut response);

    assert_eq!(response.objects_total_count, 1);
    assert_eq!(response.versions_total_count, 2);
    assert_eq!(response.objects_total_size, 30);
    assert_eq!(version_counts(&response), Some((1, 2, 30)));
}

#[test]
fn memory_overlay_records_delete_marker_without_removing_versions() {
    let mut memory = UsageMemoryCache::new();
    let mut live = LiveBucketUsage::new();

    let persisted = data_usage_info_for_test("bucket-a", 2, 30, secs_before(Timestamp::now(), 10));
    replace_bucket_usage_memory_from_info(&mut memory, &persisted);
    record_bucket_delete_marker_memory(&mut memory, &mut live, "bucket-a");

    let mut response = persisted.clone();
    apply_bucket_usage_memory_overlay(&memory, &mut response);

    assert_eq!(response.objects_total_count, 2);
    assert_eq!(response.versions_total_count, 2);
    assert_eq!(response.delete_markers_total_count, 1);
    assert_eq!(response.objects_total_size, 30);
    assert_eq!(marker_counts(&response), Some((2, 2, 1, 30)));
}

#[test]
fn authoritative_versioned_refresh_replaces_stale_dirty_memory() {
    let mut memory = UsageMemoryCache::new();
    let mut live = LiveBucketUsage::new();

    let old_persisted = data_usage_info_for_test("bucket-a", 0, 0, secs_before(Timestamp::now(), 10));
    replace_bucket_usage_memory_from_info(&mut memory, &old_persisted);
    record_bucket_object_write_memory(&mut memory, &mut live, "bucket-a", None, 15);

    let authoritative = BucketUsageInfo {
        objects_count: 1,
        versions_count: 1,
        delete_markers_count: 1,
        size: 10,
        ..Default::default()
    };
    replace_bucket_usage_memory_from_authoritative(&mut memory, "bucket-a", authoritative.clone(), Timestamp::now());

    let mut response = old_persisted.clone();
    response.buckets_usage.insert("bucket-a".to_string(), authoritative);
    response.bucket_sizes.insert("bucket-a".to_string(), 10);
    response.calculate_totals();

    apply_bucket_usage_memory_overlay(&memory, &mut response);

    assert_eq!(response.objects_total_count, 1);
    assert_eq!(response.versions_total_count, 1);
    assert_eq!(response.delete_markers_total_count, 1);
    assert_eq!(response.objects_total_size, 10);
    assert_eq!(marker_counts(&response), Some((1, 1, 1, 10)));
}

#[test]
fn authoritative_versioned_refresh_preserves_newer_dirty_memory() {
    let mut memory = UsageMemoryCache::new();
    let mut live = LiveBucketUsage::new();

    let old_persisted = data_usage_info_for_test("bucket-a", 0, 0, secs_before(Timestamp::now(), 10));
    replace_bucket_usage_memory_from_info(&mut memory, &old_persisted);
    let refresh_started = secs_before(Timestamp::now(), 1);
    record_bucket_object_write_memory(&mut memory, &mut live, "bucket-a", None, 15);

    replace_bucket_usage_memory_from_authoritative(
        &mut memory,
        "bucket-a",
        BucketUsageInfo {
            objects_count: 1,
            versions_count: 1,
            delete_markers_count: 1,
            size: 10,
            ..Default::default()
        },
        refresh_started,
    );

    let mut response = old_persisted.clone();
    apply_bucket_usage_memory_overlay(&memory, &mut response);

    assert_eq!(response.objects_total_count, 1);
    assert_eq!(response.versions_total_count, 1);
    assert_eq!(response.delete_markers_total_count, 0);
    assert_eq!(response.objects_total_size, 15);
    assert_eq!(marker_counts(&response), Some((1, 1, 0, 15)));
}

#[test]
fn scanner_sync_preserves_dirty_delete_marker_with_later_snapshot() {
    let mut memory = UsageMemoryCache::new();
    let mut live = LiveBucketUsage::new();

    let now = Timestamp::now();
    let old_persisted = data_usage_info_for_test("bucket-a", 2, 30, secs_before(now, 10));
    replace_bucket_usage_memory_from_info(&mut memory, &old_persisted);
    record_bucket_delete_marker_memory(&mut memory, &mut live, "bucket-a");

    let scanner_without_marker = data_usage_info_for_test("bucket-a", 2, 30, secs_after(now, 10));
    replace_bucket_usage_memory_from_info(&mut memory, &scanner_without_marker);

    let mut response = scanner_without_marker.clone();
    apply_bucket_usage_memory_overlay(&memory, &mut response);

    assert_eq!(response.objects_total_count, 2);
    assert_eq!(response.versions_total_count, 2);
    assert_eq!(response.delete_markers_total_count, 1);
    assert_eq!(marker_counts(&response), Some((2, 2, 1, 30)));
}

#[test]
fn memory_overlay_does_not_replace_newer_persisted_usage() {
    let mut memory = UsageMemoryCache::new();
    let mut live = LiveBucketUsage::new();

    let now = Timestamp::now();
    let old_persisted = data_usage_info_for_test("bucket-a", 1, 42, secs_before(now, 10));
    replace_bucket_usage_memory_from_info(&mut memory, &old_persisted);
    record_bucket_object_delete_memory(&mut memory, &mut live, "bucket-a", 42, true);

    let mut newer_persisted = data_usage_info_for_test("bucket-a", 2, 84, secs_after(now, 10));
    apply_bucket_usage_memory_overlay(&memory, &mut newer_persisted);

    assert_eq!(newer_persisted.objects_total_count, 2);
    assert_eq!(newer_persisted.objects_total_size, 84);
    assert_eq!(counts(&newer_persisted), Some((2, 84)));
}

#[test]
fn scanner_snapshot_can_reduce_object_layer_refreshed_memory_usage() {
    let mut memory = UsageMemoryCache::new();

    let now = Timestamp::now();
    replace_bucket_usage_memory_from_authoritative(
        &mut memory,
        "bucket-a",
        BucketUsageInfo { objects_count: 100, versions_count: 100, size: 1_000, ..Default::default() },
        now,
    );

    let scanner_decrease = data_usage_info_for_test("bucket-a", 60, 600, secs_after(now, 10));
    replace_bucket_usage_memory_from_info(&mut memory, &scanner_decrease);

    let mut response = scanner_decrease.clone();
    apply_bucket_usage_memory_overlay(&memory, &mut response);

    assert_eq!(response.objects_total_count, 60);
    assert_eq!(response.objects_total_size, 600);
    assert_eq!(counts(&response), Some((60, 600)));
}

#[test]
fn scanner_backend_snapshot_can_reduce_backend_memory_usage() {
    let mut memory = UsageMemoryCache::new();

    let now = Timestamp::now();
    let complete_snapshot = data_usage_info_for_test("bucket-a", 100, 1_000, now);
    replace_bucket_usage_memory_from_info(&mut memory, &complete_snapshot);

    let scanner_decrease = data_usage_info_for_test("bucket-a", 60, 600, secs_after(now, 10));
    replace_bucket_usage_memory_from_info(&mut memory, &scanner_decrease);

    let mut response = scanner_decrease.clone();
    apply_bucket_usage_memory_overlay(&memory, &mut response);

    assert_eq!(response.objects_total_count, 60);
    assert_eq!(response.objects_total_size, 600);
    assert_eq!(counts(&response), Some((60, 600)));
}

#[test]
fn authoritative_refresh_can_reduce_memory_usage() {
    let mut memory = UsageMemoryCache::new();

    let now = Timestamp::now();
    let complete_snapshot = data_usage_info_for_test("bucket-a", 100, 1_000, now);
    replace_bucket_usage_memory_from_info(&mut memory, &complete_snapshot);

    replace_bucket_usage_memory_from_authoritative(
        &mut memory,
        "bucket-a",
        BucketUsageInfo { objects_count: 60, versions_count: 60, size: 600, ..Default::default() },
        secs_after(now, 10),
    );

    let mut response = data_usage_info_for_test("bucket-a", 60, 600, secs_after(now, 10));
    apply_bucket_usage_memory_overlay(&memory, &mut response);

    assert_eq!(response.objects_total_count, 60);
    assert_eq!(response.objects_total_size, 600);
    assert_eq!(counts(&response), Some((60, 600)));
}

#[test]
fn scanner_sync_preserves_newer_memory_update() {
    let mut memory = UsageMemoryCache::new();
    let mut live = LiveBucketUsage::new();

    let now = Timestamp::now();
    let old_persisted = data_usage_info_for_test("bucket-a", 1, 42, secs_before(now, 10));
    replace_bucket_usage_memory_from_info(&mut memory, &old_persisted);
    record_bucket_object_delete_memory(&mut memory, &mut live, "bucket-a", 42, true);

    let scanner_snapshot = data_usage_info_for_test("bucket-a", 1, 42, secs_before(now, 5));
    replace_bucket_usage_memory_from_info(&mut memory, &scanner_snapshot);

    let mut response = scanner_snapshot.clone();
    apply_bucket_usage_memory_overlay(&memory, &mut response);

    assert_eq!(response.objects_total_count, 0);
    assert_eq!(response.objects_total_size, 0);
    assert_eq!(counts(&response), Some((0, 0)));
}

#[test]
fn scanner_sync_preserves_dirty_memory_update_with_later_partial_snapshot() {
    let mut memory = UsageMemoryCache::new();
    let mut live = LiveBucketUsage::new();

    let now = Timestamp::now();
    let old_persisted = data_usage_info_for_test("bucket-a", 900, 9_000, secs_before(now, 10));
    replace_bucket_usage_memory_from_info(&mut memory, &old_persisted);

    for _ in 0..100 {
        record_bucket_object_write_memory(&mut memory, &mut live, "bucket-a", None, 10);
    }

    let scanner_partial = data_usage_info_for_test("bucket-a", 950, 9_500, secs_after(now, 10));
    replace_bucket_usage_memory_from_info(&mut memory, &scanner_partial);

    let mut response = scanner_partial.clone();
    apply_bucket_usage_memory_overlay(&memory, &mut response);

    assert_eq!(response.objects_total_count, 1000);
    assert_eq!(response.objects_total_size, 10_000);
    assert_eq!(counts(&response), Some((1000, 10_000)));
}

/// A point in time some seconds after the Unix epoch.
fn at(secs: i128) -> Timestamp {
    Timestamp { nanos: secs * 1_000_000_000 }
}

fn usage_of(memory: &UsageMemoryCache) -> (u64, u64, u64, u64) {
    let cached = memory.get("bucket-a").expect("bucket-a is in memory");
    (
        cached.usage.size,
        cached.usage.objects_count,
        cached.usage.versions_count,
        cached.usage.delete_markers_count,
    )
}

fn after(changes: &[UsageChange]) -> (u64, u64, u64, u64) {
    let mut memory = UsageMemoryCache::new();
    let mut live = LiveBucketUsage::new();
    for change in changes {
        record_bucket_usage_change_at(&mut memory, &mut live, "bucket-a", *change, at(1));
    }
    usage_of(&memory)
}

#[test]
fn each_change_counts_what_it_is_known_to_do() {
    let write = |previous_current_size, new_size, creates_new_version| UsageChange::Write {
        previous_current_size,
        new_size,
        creates_new_version,
    };
    let delete = |deleted_size, removed_current_object| UsageChange::Delete { deleted_size, removed_current_object };
    assert_eq!(after(&[write(None, 5, false)]), (5, 1, 1, 0));
    assert_eq!(after(&[write(None, 5, true)]), (5, 1, 1, 0));
    assert_eq!(after(&[write(None, 5, false), write(Some(5), 3, false)]), (3, 1, 1, 0));
    assert_eq!(after(&[write(None, 5, true), write(Some(5), 3, true)]), (8, 1, 2, 0));
    assert_eq!(after(&[write(None, 5, false), write(Some(9), 3, false)]), (3, 1, 1, 0));
    assert_eq!(after(&[write(None, 5, false), delete(2, false)]), (3, 1, 1, 0));
    assert_eq!(after(&[delete(2, true)]), (0, 0, 0, 0));
    assert_eq!(after(&[UsageChange::DeleteMarker]), (0, 0, 0, 1));
    assert_eq!(after(&[write(None, u64::MAX, false), write(None, 1, false)]), (u64::MAX, 2, 2, 0));
}

#[test]
fn delete_undoes_a_write() {
    for creates_new_version in [false, true] {
        let write = UsageChange::Write { previous_current_size: None, new_size: 7, creates_new_version };
        let delete = UsageChange::Delete { deleted_size: 7, removed_current_object: true };
        let start = UsageChange::Write { previous_current_size: None, new_size: 3, creates_new_version: false };
        assert_eq!(after(&[start, write, delete]), after(&[start]));
    }
}

#[test]
fn change_of_one_bucket_leaves_the_rest_alone() {
    let mut memory = UsageMemoryCache::new();
    let mut live = LiveBucketUsage::new();
    let mut usage = BucketUsageInfo { size: 5, replica_size: 7, ..Default::default() };
    usage.object_size_histogram.insert("x".to_string(), 3);
    memory.insert("bucket-a".to_string(), cached_bucket_usage_now(usage.clone(), at(1)));
    memory.insert("bucket-b".to_string(), cached_bucket_usage_now(usage, at(1)));
    record_bucket_usage_change_at(
        &mut memory,
        &mut live,
        "bucket-a",
        UsageChange::WriteUnknownPrevious { new_size: 2, creates_new_version: true },
        at(2),
    );
    assert_eq!(usage_of(&memory), (7, 0, 1, 0));
    let changed = memory.get("bucket-a").expect("bucket-a");
    assert_eq!((changed.usage.replica_size, changed.usage.object_size_histogram.get("x")), (7, Some(&3)));
    let other = memory.get("bucket-b").expect("bucket-b");
    assert_eq!((other.usage.size, other.dirty, other.refreshed_at), (5, false, at(1)));
}

#[test]
fn increments_and_decrements_count_objects() {
    let mut memory = UsageMemoryCache::new();
    let mut live = LiveBucketUsage::new();
    increment_bucket_usage_memory(&mut memory, &mut live, "bucket-a", 10);
    increment_bucket_usage_memory(&mut memory, &mut live, "bucket-a", 0);
    assert_eq!(usage_of(&memory), (10, 2, 2, 0));
    decrement_bucket_usage_memory(&mut memory, &mut live, "bucket-a", 0);
    assert_eq!(usage_of(&memory), (10, 2, 2, 0));
    decrement_bucket_usage_memory(&mut memory, &mut live, "bucket-a", 4);
    assert_eq!(usage_of(&memory), (6, 1, 1, 0));
    assert_eq!(get_bucket_usage_memory(&memory, "bucket-a"), Some(6));
    assert_eq!(get_bucket_usage_memory(&memory, "bucket-b"), None);
}

#[test]
fn recorded_entry_is_dirty_and_of_the_time_of_the_request() {
    let mut memory = UsageMemoryCache::new();
    let mut live = LiveBucketUsage::new();
    let before = Timestamp::now();
    record_bucket_delete_marker_memory(&mut memory, &mut live, "bucket-a");
    let later = Timestamp::now();
    let cached = memory.get("bucket-a").expect("bucket-a is in memory");
    assert!(cached.dirty);
    assert!(!cached.stale_snapshot_pending);
    assert_eq!(cached.refreshed_at, cached.usage_updated_at);
    assert!(before.nanos <= cached.refreshed_at.nanos && cached.refreshed_at.nanos <= later.nanos);
    assert!(before.nanos > at(1_600_000_000).nanos);
}

#[test]
fn snapshot_that_shows_the_same_counts_settles_a_change() {
    let mut memory = UsageMemoryCache::new();
    let mut live = LiveBucketUsage::new();
    record_bucket_usage_change_at(
        &mut memory,
        &mut live,
        "bucket-a",
        UsageChange::Write { previous_current_size: None, new_size: 5, creates_new_version: false },
        at(10),
    );
    replace_bucket_usage_memory_from_info_at(&mut memory, &data_usage_info_for_test("bucket-a", 0, 0, at(20)), at(21));
    let cached = memory.get("bucket-a").expect("kept");
    assert!(cached.dirty && cached.stale_snapshot_pending);
    assert_eq!(cached.usage_updated_at, at(10));

    replace_bucket_usage_memory_from_info_at(&mut memory, &data_usage_info_for_test("bucket-a", 1, 5, at(30)), at(31));
    let cached = memory.get("bucket-a").expect("taken over");
    assert!(!cached.dirty && !cached.stale_snapshot_pending);
    assert_eq!((cached.usage_updated_at, cached.refreshed_at), (at(30), at(31)));
}

#[test]
fn snapshot_without_a_bucket_drops_it_only_if_nothing_was_changed() {
    let mut memory = UsageMemoryCache::new();
    let mut live = LiveBucketUsage::new();
    memory.insert(
        "old".to_string(),
        cached_bucket_usage_from_backend(BucketUsageInfo::default(), at(10), at(10)),
    );
    memory.insert("new".to_string(), cached_bucket_usage_now(BucketUsageInfo::default(), at(30)));
    record_bucket_usage_change_at(&mut memory, &mut live, "changed", UsageChange::DeleteMarker, at(10));
    let empty = DataUsageInfo { last_update: Some(at(20)), ..Default::default() };
    replace_bucket_usage_memory_from_info_at(&mut memory, &empty, at(21));
    assert!(!memory.contains_key("old"));
    assert!(memory.contains_key("new"));
    assert!(memory.get("changed").expect("kept").stale_snapshot_pending);
    assert!(!memory.get("new").expect("kept").stale_snapshot_pending);
}

#[test]
fn taking_over_a_snapshot_twice_changes_nothing() {
    let mut memory = UsageMemoryCache::new();
    let mut live = LiveBucketUsage::new();
    record_bucket_usage_change_at(&mut memory, &mut live, "changed", UsageChange::DeleteMarker, at(10));
    let info = data_usage_info_for_test("bucket-a", 1, 5, at(20));
    replace_bucket_usage_memory_from_info_at(&mut memory, &info, at(21));
    let state = |memory: &UsageMemoryCache| {
        ["bucket-a", "changed"].map(|bucket| {
            let cached = memory.get(bucket).expect("in memory");
            (cached.usage.size, cached.dirty, cached.stale_snapshot_pending, cached.usage_updated_at)
        })
    };
    let once = state(&memory);
    replace_bucket_usage_memory_from_info_at(&mut memory, &info, at(21));
    assert_eq!(state(&memory), once);
    assert_eq!(memory.len(), 2);
}

#[test]
fn overlay_covers_a_snapshot_without_a_time() {
    let mut memory = UsageMemoryCache::new();
    memory.insert(
        "bucket-a".to_string(),
        cached_bucket_usage_from_backend(
            BucketUsageInfo { objects_count: 3, size: 30, ..Default::default() },
            at(10),
            at(10),
        ),
    );
    let mut response = DataUsageInfo::default();
    apply_bucket_usage_memory_overlay(&memory, &mut response);
    assert_eq!(counts(&response), Some((3, 30)));
    assert_eq!((response.buckets_count, response.objects_total_count), (1, 3));
    assert_eq!(response.bucket_sizes.get("bucket-a"), Some(&30));

    let mut again = response.clone();
    apply_bucket_usage_memory_overlay(&memory, &mut again);
    assert_eq!(counts(&again), counts(&response));
    assert_eq!(again.objects_total_count, response.objects_total_count);
}

#[test]
fn overlay_without_newer_entries_leaves_totals_alone() {
    let mut memory = UsageMemoryCache::new();
    memory.insert(
        "bucket-a".to_string(),
        cached_bucket_usage_from_backend(BucketUsageInfo::default(), at(10), at(10)),
    );
    let mut response = data_usage_info_for_test("bucket-a", 2, 20, at(10));
    response.objects_total_count = 77;
    apply_bucket_usage_memory_overlay(&memory, &mut response);
    assert_eq!(counts(&response), Some((2, 20)));
    assert_eq!(response.objects_total_count, 77);
}

#[test]
fn recount_goes_before_what_is_as_old() {
    let mut memory = UsageMemoryCache::new();
    let usage = |size| BucketUsageInfo { size, ..Default::default() };
    replace_bucket_usage_memory_from_authoritative_at(&mut memory, "bucket-a", usage(1), at(10), at(11));
    replace_bucket_usage_memory_from_authoritative_at(&mut memory, "bucket-a", usage(2), at(10), at(12));
    assert_eq!(get_bucket_usage_memory(&memory, "bucket-a"), Some(2));
    replace_bucket_usage_memory_from_authoritative_at(&mut memory, "bucket-a", usage(3), at(9), at(13));
    assert_eq!(get_bucket_usage_memory(&memory, "bucket-a"), Some(2));
}

#[test]
fn clearing_the_empty_name_does_nothing() {
    let mut memory = UsageMemoryCache::new();
    memory.insert(String::new(), cached_bucket_usage_now(BucketUsageInfo::default(), at(1)));
    clear_bucket_usage_memory(&mut memory, "");
    assert_eq!(memory.len(), 1);
}

#[test]
fn counts_match_regardless_of_histograms() {
    let mut left = BucketUsageInfo { size: 1, objects_count: 2, versions_count: 3, ..Default::default() };
    let right = left.clone();
    left.object_size_histogram.insert("x".to_string(), 1);
    left.replica_size = 9;
    assert!(bucket_usage_counts_match(&left, &right));
    left.delete_markers_count = 1;
    assert!(!bucket_usage_counts_match(&left, &right));
}

/// A memory whose oldest entry was written at the given time.
fn written_at(secs: i128) -> UsageMemoryCache {
    let mut memory = UsageMemoryCache::new();
    for (bucket, offset) in [("a", 5), ("b", 0), ("c", 3)] {
        memory.insert(
            bucket.to_string(),
            cached_bucket_usage_now(BucketUsageInfo::default(), at(secs + offset)),
        );
    }
    memory
}

#[test]
fn memory_is_loaded_anew_when_it_is_old() {
    let plan = |age: i128, loading: bool| {
        let mut updating = loading;
        let update = plan_usage_cache_update_at(&written_at(1_000), &mut updating, at(1_000 + age));
        (update, updating)
    };
    assert_eq!(plan(-100, false), (CacheUpdate::Skip, false));
    assert_eq!(plan(0, false), (CacheUpdate::Skip, false));
    assert_eq!(plan(29, true), (CacheUpdate::Skip, true));
    assert_eq!(plan(30, false), (CacheUpdate::LoadInBackground, true));
    assert_eq!(plan(59, true), (CacheUpdate::Skip, true));
    assert_eq!(plan(60, false), (CacheUpdate::Load, true));
    assert_eq!(plan(60, true), (CacheUpdate::Wait { millis: 1, retry: 1 }, true));
}

#[test]
fn empty_memory_is_loaded_at_once() {
    let memory = UsageMemoryCache::new();
    let mut updating = false;
    assert_eq!(update_usage_cache_if_needed(&memory, &mut updating), CacheUpdate::Load);
    assert!(updating);
    assert!(!ensure_bucket_usage_cached(&memory, "a"));
    assert!(ensure_bucket_usage_cached(&written_at(0), "a"));
}

#[test]
fn waiting_doubles_and_ends() {
    let mut updating = true;
    let mut waits = Vec::new();
    let mut retry = 0;
    while let CacheUpdate::Wait { millis, retry: next } = retry_usage_cache_update(&mut updating, retry) {
        waits.push(millis);
        retry = next;
    }
    assert_eq!(waits, vec![1, 2, 4, 8, 16, 32, 64, 128, 256, 512]);
    assert!(updating);
    let mut idle = false;
    assert_eq!(retry_usage_cache_update(&mut idle, 3), CacheUpdate::Load);
    assert!(idle);
}

#[test]
fn update_ends_with_or_without_a_snapshot() {
    let mut memory = UsageMemoryCache::new();
    let mut updating = true;
    finish_usage_cache_update(&mut memory, &mut updating, None);
    assert!(!updating && memory.is_empty());
    updating = true;
    finish_usage_cache_update(&mut memory, &mut updating, Some(&data_usage_info_for_test("bucket-a", 1, 5, at(1))));
    assert!(!updating);
    assert_eq!(get_bucket_usage_memory(&memory, "bucket-a"), Some(5));
}
