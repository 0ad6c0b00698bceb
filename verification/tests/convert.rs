use bucket_usage::convert::{
    bucket_usage_from_tree, cache_to_data_usage_info, BucketTree, ReplicationAllStats, ReplicationStats, TreeRoot,
    TreeUsage,
};
use bucket_usage::name_map::NameMap;
use bucket_usage::time::Timestamp;

fn tree(size: usize, objects: usize, versions: usize, delete_markers: usize) -> TreeUsage {
    let mut obj_sizes = NameMap::new();
    obj_sizes.insert("LESS_THAN_1024_B".to_string(), objects as u64);
    TreeUsage {
        size,
        objects,
        versions,
        delete_markers,
        obj_sizes,
        obj_versions: NameMap::new(),
        replication_stats: None,
    }
}

fn bucket(name: &str, flat: Option<TreeUsage>) -> BucketTree {
    BucketTree { name: name.to_string(), flat }
}

#[test]
fn tree_without_root_is_empty() {
    let info = cache_to_data_usage_info(
        Some(Timestamp { nanos: 1 }),
        None,
        &vec![bucket("a", Some(tree(1, 1, 1, 0)))],
    );
    assert_eq!(info.last_update, None);
    assert!(info.buckets_usage.is_empty());
    assert_eq!(info.buckets_count, 0);
}

#[test]
fn totals_are_those_of_the_tree() {
    let root = TreeRoot { flat: tree(100, 10, 12, 3), children: 5 };
    let buckets = vec![
        bucket("a", Some(tree(40, 4, 5, 1))),
        bucket("missing", None),
        bucket("b", Some(tree(60, 6, 7, 2))),
    ];
    let info = cache_to_data_usage_info(Some(Timestamp { nanos: 7 }), Some(root), &buckets);
    assert_eq!(info.last_update, Some(Timestamp { nanos: 7 }));
    assert_eq!(
        (
            info.objects_total_count,
            info.versions_total_count,
            info.delete_markers_total_count,
            info.objects_total_size,
            info.buckets_count,
        ),
        (10, 12, 3, 100, 5)
    );
    assert_eq!(info.buckets_usage.len(), 2);
    let a = info.buckets_usage.get("a").expect("a");
    assert_eq!((a.size, a.objects_count, a.versions_count, a.delete_markers_count), (40, 4, 5, 1));
    assert_eq!(a.object_size_histogram.get("LESS_THAN_1024_B"), Some(&4));
    assert!(info.bucket_sizes.is_empty());
}

#[test]
fn replication_counts_are_kept_per_target() {
    let mut targets = NameMap::new();
    targets.insert(
        "arn".to_string(),
        ReplicationStats {
            pending_size: 1,
            replicated_size: 2,
            failed_size: 3,
            pending_count: 4,
            failed_count: 5,
            replicated_count: 6,
        },
    );
    let flat = TreeUsage {
        replication_stats: Some(ReplicationAllStats { replica_size: 8, replica_count: 9, targets }),
        ..tree(1, 1, 1, 0)
    };
    let usage = bucket_usage_from_tree(&flat);
    assert_eq!((usage.replica_size, usage.replica_count), (8, 9));
    let target = usage.replication_info.get("arn").expect("arn");
    assert_eq!(
        (
            target.replication_pending_size,
            target.replicated_size,
            target.replication_failed_size,
            target.replication_pending_count,
            target.replication_failed_count,
            target.replicated_count,
            target.replica_size,
        ),
        (1, 2, 3, 4, 5, 6, 0)
    );
}
