use bucket_usage::backend::{
    after_fallback_tree_open, after_last_read, after_primary_read, after_tree_open, backup_path,
    complete_loaded_data_usage, data_compression_total_name_path, data_usage_bloom_name_path, data_usage_bucket,
    data_usage_cache_path, data_usage_obj_name_path, merge_bucket_usage_removal, record_replication_role,
    remove_bucket_usage_from_info, replicated_buckets, store_replaces_existing, LoadStep, LoadedSnapshot,
    ReadFault, TreeFault, TreeStep, DATA_USAGE_CACHE_NAME, DATA_USAGE_ROOT,
};
use bucket_usage::time::Timestamp;
use bucket_usage::usage::{BucketUsageInfo, DataUsageInfo};

fn data_usage_info_for_test(bucket: &str, objects_count: u64, size: u64, last_update: Timestamp) -> DataUsageInfo {
    let mut info = DataUsageInfo { last_update: Some(last_update), ..Default::default() };
    info.buckets_usage.insert(
        bucket.to_string(),
        BucketUsageInfo { objects_count, versions_count: objects_count, size, ..Default::default() },
    );
    info.bucket_sizes.insert(bucket.to_string(), size);
    info.buckets_count = info.buckets_usage.len() as u64;
    info.calculate_totals();
    info
}

#[test]
fn remove_bucket_usage_from_info_drops_bucket_and_recomputes_totals() {
    let last_update = Timestamp::now();
    let mut info = data_usage_info_for_test("bucket-a", 2, 84, last_update);
    info.buckets_usage.insert(
        "bucket-b".to_string(),
        BucketUsageInfo { objects_count: 3, versions_count: 3, size: 126, ..Default::default() },
    );
    info.bucket_sizes.insert("bucket-b".to_string(), 126);
    info.buckets_count = 2;
    info.calculate_totals();

    assert!(remove_bucket_usage_from_info(&mut info, "bucket-a"));

    assert_eq!(info.buckets_count, 1);
    assert_eq!(info.objects_total_count, 3);
    assert_eq!(info.objects_total_size, 126);
    assert_eq!(info.last_update, Some(last_update));
    assert!(!info.buckets_usage.contains_key("bucket-a"));
    assert!(!info.bucket_sizes.contains_key("bucket-a"));
    assert_eq!(
        info.buckets_usage.get("bucket-b").map(|usage| (usage.objects_count, usage.size)),
        Some((3, 126))
    );
}

#[test]
fn merge_bucket_usage_removal_preserves_current_snapshot() {
    let now = Timestamp::now();
    let ten_secs_before = Timestamp { nanos: now.nanos - 10_000_000_000 };
    let candidate = data_usage_info_for_test("bucket-a", 2, 84, ten_secs_before);
    let mut existing = data_usage_info_for_test("bucket-a", 4, 168, now);
    existing.buckets_usage.insert(
        "bucket-c".to_string(),
        BucketUsageInfo { objects_count: 5, versions_count: 5, size: 210, ..Default::default() },
    );
    existing.bucket_sizes.insert("bucket-c".to_string(), 210);
    existing.buckets_count = 2;
    existing.calculate_totals();

    let merged = merge_bucket_usage_removal(candidate, Some(existing), "bucket-a")
        .expect("bucket-a should be removed from the current snapshot");

    assert_eq!(merged.last_update, Some(now));
    assert_eq!(merged.buckets_count, 1);
    assert_eq!(merged.objects_total_count, 5);
    assert_eq!(merged.objects_total_size, 210);
    assert!(!merged.buckets_usage.contains_key("bucket-a"));
    assert_eq!(
        merged.buckets_usage.get("bucket-c").map(|usage| (usage.objects_count, usage.size)),
        Some((5, 210))
    );
}

fn at(secs: i128) -> Timestamp {
    Timestamp { nanos: secs * 1_000_000_000 }
}

#[test]
fn removal_of_an_unknown_or_nameless_bucket_changes_nothing() {
    let mut info = data_usage_info_for_test("bucket-a", 2, 84, at(1));
    info.objects_total_count = 77;
    assert!(!remove_bucket_usage_from_info(&mut info, "bucket-b"));
    assert!(!remove_bucket_usage_from_info(&mut info, ""));
    assert_eq!(info.objects_total_count, 77);
    assert!(merge_bucket_usage_removal(info, None, "bucket-b").is_none());
}

#[test]
fn removal_of_a_mere_size_counts() {
    let mut info = DataUsageInfo::default();
    info.bucket_sizes.insert("bucket-a".to_string(), 5);
    assert!(remove_bucket_usage_from_info(&mut info, "bucket-a"));
    assert!(info.bucket_sizes.is_empty());
}

#[test]
fn removal_takes_the_candidate_if_the_stored_snapshot_is_older() {
    let candidate = || data_usage_info_for_test("bucket-a", 2, 84, at(20));
    let older = data_usage_info_for_test("bucket-a", 4, 168, at(10));
    let merged = merge_bucket_usage_removal(candidate(), Some(older), "bucket-a").expect("removed");
    assert_eq!(merged.last_update, Some(at(20)));
    let merged = merge_bucket_usage_removal(candidate(), None, "bucket-a").expect("removed");
    assert_eq!(merged.last_update, Some(at(20)));
    let timeless = DataUsageInfo { last_update: None, ..data_usage_info_for_test("bucket-a", 4, 168, at(0)) };
    let merged = merge_bucket_usage_removal(candidate(), Some(timeless), "bucket-a").expect("removed");
    assert_eq!(merged.last_update, Some(at(20)));
}

#[test]
fn only_newer_snapshots_are_stored() {
    let info = |last_update| DataUsageInfo { last_update, ..Default::default() };
    let replaces = |new, stored| store_replaces_existing(&info(new), Some(&info(stored)));
    assert!(replaces(Some(at(2)), Some(at(1))));
    assert!(!replaces(Some(at(1)), Some(at(1))));
    assert!(!replaces(Some(at(1)), Some(at(2))));
    assert!(replaces(None, Some(at(1))));
    assert!(replaces(Some(at(1)), None));
    assert!(store_replaces_existing(&info(Some(at(1))), None));
}

#[test]
fn loading_falls_back_to_the_backup() {
    assert!(matches!(after_primary_read("p", Ok(vec![1, 2])), LoadStep::Decode(data) if data == vec![1, 2]));
    for fault in [ReadFault::NotFound, ReadFault::Other("x".to_string())] {
        assert!(matches!(after_primary_read("p", Err(fault)), LoadStep::ReadBackup(path) if path == "p.bkp"));
    }
    assert!(matches!(after_last_read(Ok(vec![3])), LoadStep::Decode(data) if data == vec![3]));
    assert!(matches!(after_last_read(Err(ReadFault::NotFound)), LoadStep::Empty));
    assert!(matches!(after_last_read(Err(ReadFault::Other("x".to_string()))), LoadStep::Fail(text) if text == "x"));
}

#[test]
fn snapshot_with_sizes_only_is_completed() {
    let mut info = DataUsageInfo::default();
    info.bucket_sizes.insert("a".to_string(), 5);
    info.bucket_sizes.insert("b".to_string(), 7);
    complete_loaded_data_usage(&mut info);
    assert_eq!(info.buckets_usage.len(), 2);
    assert_eq!(info.buckets_usage.get("a").map(|u| (u.size, u.objects_count)), Some((5, 0)));
    assert_eq!(info.buckets_usage.get("b").map(|u| u.size), Some(7));
    assert_eq!(info.bucket_sizes.len(), 2);
}

#[test]
fn snapshot_with_usage_only_is_completed() {
    let mut info = data_usage_info_for_test("a", 1, 5, at(1));
    info.bucket_sizes.clear();
    complete_loaded_data_usage(&mut info);
    assert_eq!(info.bucket_sizes.get("a"), Some(&5));
    info.bucket_sizes.insert("a".to_string(), 6);
    complete_loaded_data_usage(&mut info);
    assert_eq!(info.bucket_sizes.get("a"), Some(&6));
    let mut empty = DataUsageInfo::default();
    complete_loaded_data_usage(&mut empty);
    assert!(empty.buckets_usage.is_empty() && empty.bucket_sizes.is_empty());
}

#[test]
fn replication_counts_move_under_their_role() {
    let mut info = DataUsageInfo::default();
    info.buckets_usage.insert(
        "r".to_string(),
        BucketUsageInfo {
            replication_pending_size_v1: 1,
            replication_failed_size_v1: 2,
            replicated_size_v1: 3,
            replication_pending_count_v1: 4,
            replication_failed_count_v1: 5,
            ..Default::default()
        },
    );
    info.buckets_usage.insert(
        "pending-size-only".to_string(),
        BucketUsageInfo { replication_pending_size_v1: 1, ..Default::default() },
    );
    info.buckets_usage.insert("f".to_string(), BucketUsageInfo { replication_failed_count_v1: 1, ..Default::default() });
    assert_eq!(replicated_buckets(&info), vec!["f", "r"]);

    record_replication_role(&mut info, "f", "");
    record_replication_role(&mut info, "pending-size-only", "role");
    record_replication_role(&mut info, "unknown", "role");
    assert!(info.replication_info.is_empty());
    record_replication_role(&mut info, "r", "role");
    let target = info.replication_info.get("role").expect("recorded");
    assert_eq!(
        (
            target.replication_pending_size,
            target.replication_failed_size,
            target.replicated_size,
            target.replication_pending_count,
            target.replication_failed_count,
        ),
        (1, 2, 3, 4, 5)
    );
    assert_eq!((target.replica_size, target.replicated_count), (0, 0));
}

#[test]
fn loaded_snapshot_looks_up_roles_in_name_order() {
    let mut info = DataUsageInfo::default();
    for (bucket, replicated_size_v1) in [("z", 3), ("a", 1), ("plain", 0)] {
        info.buckets_usage.insert(
            bucket.to_string(),
            BucketUsageInfo { size: 7, replicated_size_v1, ..Default::default() },
        );
    }
    let mut loaded = LoadedSnapshot::new(Ok(info)).expect("decoded");
    assert_eq!(loaded.next_bucket().as_deref(), Some("a"));
    loaded.record_role(Some("shared"));
    assert_eq!(loaded.next_bucket().as_deref(), Some("z"));
    loaded.record_role(Some("shared"));
    assert_eq!(loaded.next_bucket(), None);
    loaded.record_role(Some("ignored"));
    let info = loaded.finish();
    assert_eq!(info.replication_info.len(), 1);
    assert_eq!(info.replication_info.get("shared").map(|t| t.replicated_size), Some(3));
    assert_eq!(info.bucket_sizes.get("plain"), Some(&7));
}

#[test]
fn snapshot_that_cannot_be_decoded_fails_to_load() {
    let error = LoadedSnapshot::new(Err("bad json".to_string())).err();
    assert_eq!(error.as_deref(), Some("Failed to deserialize data usage info: bad json"));
}

#[test]
fn usage_tree_is_looked_for_in_two_places() {
    assert!(matches!(after_tree_open("t", Ok(())), TreeStep::Decode));
    for fault in [TreeFault::FileNotFound, TreeFault::VolumeNotFound] {
        assert!(matches!(after_tree_open("t", Err(fault)), TreeStep::Open(path) if path == "t"));
    }
    assert!(matches!(after_tree_open("t", Err(TreeFault::Other)), TreeStep::Empty));
    assert!(matches!(after_fallback_tree_open(Ok(())), TreeStep::Decode));
    assert!(matches!(after_fallback_tree_open(Err(TreeFault::FileNotFound)), TreeStep::Empty));
    assert!(matches!(after_fallback_tree_open(Err(TreeFault::Other)), TreeStep::Empty));
}

#[test]
fn places_of_usage_data() {
    assert_eq!(DATA_USAGE_ROOT, "/");
    assert_eq!(DATA_USAGE_CACHE_NAME, ".usage-cache.bin");
    assert_eq!(data_usage_bucket("meta", "buckets"), "meta/buckets");
    assert_eq!(data_usage_obj_name_path("buckets"), "buckets/.usage.json");
    assert_eq!(data_usage_bloom_name_path("buckets"), "buckets/.bloomcycle.bin");
    assert_eq!(data_compression_total_name_path("buckets"), "buckets/.compression.json");
    assert_eq!(backup_path("buckets/.usage.json"), "buckets/.usage.json.bkp");
}

#[test]
fn tree_paths_join_as_paths_do() {
    for (prefix, name) in [
        ("buckets", "a/.usage-cache.bin"),
        ("buckets/", "a"),
        ("buckets", "/a"),
        ("", "a"),
        ("buckets", ""),
        ("b\u{e9}", "\u{e9}"),
    ] {
        let expected = std::path::Path::new(prefix).join(name);
        assert_eq!(data_usage_cache_path(prefix, name), expected.to_string_lossy());
    }
}
