use bucket_usage::name_map::{Duplicate, NameMap};
use bucket_usage::usage::{
    data_usage_info_updated_at, set_buckets_count_from_usage, sum_bucket_usages, BucketUsageInfo, DataUsageInfo,
};
use bucket_usage::time::Timestamp;

#[test]
fn names_are_kept_in_order_and_values_replaced() {
    let mut map: NameMap<u64> = NameMap::new();
    assert!(map.is_empty());
    for (name, value) in [("m", 1), ("a", 2), ("z", 3), ("b", 4)] {
        assert_eq!(map.insert(name.to_string(), value), None);
    }
    assert_eq!(map.insert("m".to_string(), 9), Some(1));
    assert_eq!(map.name_list(), vec!["a", "b", "m", "z"]);
    assert_eq!((0..map.len()).map(|i| *map.value_at(i)).collect::<Vec<_>>(), vec![2, 4, 9, 3]);
    assert_eq!(map.remove("b"), Some(4));
    assert_eq!(map.remove("b"), None);
    assert_eq!(map.get("b"), None);
    assert_eq!(map.get("z"), Some(&3));
    assert!(map.contains_key("a") && !map.contains_key("b"));
    let mut copy = map.duplicate();
    copy.insert("b".to_string(), 1);
    assert_eq!((map.len(), copy.len()), (3, 4));
    map.clear();
    assert_eq!(map.len(), 0);
}

#[test]
fn totals_stop_at_the_largest_count() {
    let mut info = DataUsageInfo::default();
    for (bucket, size) in [("a", u64::MAX), ("b", 2)] {
        info.buckets_usage.insert(
            bucket.to_string(),
            BucketUsageInfo { size, objects_count: 1, versions_count: 2, delete_markers_count: 3, ..Default::default() },
        );
    }
    let totals = sum_bucket_usages(&info.buckets_usage);
    assert_eq!((totals.objects, totals.versions, totals.delete_markers, totals.size), (2, 4, 6, u64::MAX));
    set_buckets_count_from_usage(&mut info);
    assert_eq!(info.buckets_count, 2);
}

#[test]
fn clock_readings_are_distances_from_the_epoch() {
    assert_eq!(Timestamp::from_reading(Ok(5)), Timestamp { nanos: 5 });
    assert_eq!(Timestamp::from_reading(Err(5)), Timestamp { nanos: -5 });
    assert_eq!(Timestamp::from_reading(Ok(u128::MAX)), Timestamp { nanos: i128::MAX });
    assert_eq!(Timestamp::from_reading(Err(u128::MAX)), Timestamp { nanos: -i128::MAX });
}

#[test]
fn snapshot_without_a_time_is_of_the_epoch() {
    let mut info = DataUsageInfo::default();
    assert_eq!(data_usage_info_updated_at(&info), Timestamp::unix_epoch());
    info.last_update = Some(Timestamp { nanos: -5 });
    assert_eq!(data_usage_info_updated_at(&info), Timestamp { nanos: -5 });
}
