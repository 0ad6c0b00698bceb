use bucket_usage::accumulator::{BucketUsageListing, ObjectInfo, VersionPage};
use bucket_usage::listing::{
    advance_version_listing_cursor, ensure_truncated_version_page_has_entries,
    record_version_listing_entry, ListingError, ListingFault, VersionSet,
};
use bucket_usage::name_map::NameMap;
use bucket_usage::text::{compare_names, list_marker_key, Standing};
use bucket_usage::usage::BucketUsageInfo;
use std::collections::VecDeque;

/// Distribution of versions per object, with the two intervals that the tests look at.
fn versions_histogram(observed: &[u64]) -> NameMap<u64> {
    let mut single = 0;
    let mut thousands = 0;
    for versions in observed {
        if *versions == 1 {
            single += 1;
        }
        if (1000..=10000).contains(versions) {
            thousands += 1;
        }
    }
    let mut histogram = NameMap::new();
    histogram.insert("SINGLE_VERSION".to_string(), single);
    histogram.insert("BETWEEN_1000_AND_10000".to_string(), thousands);
    histogram
}

fn entry(name: &str, size: i64, version: u128) -> ObjectInfo {
    ObjectInfo {
        name: name.to_string(),
        is_dir: false,
        delete_marker: false,
        size,
        version_id: Some(*uuid::Uuid::from_u128(version).as_bytes()),
    }
}

fn marker_entry(name: &str, version: u128) -> ObjectInfo {
    ObjectInfo { delete_marker: true, ..entry(name, 0, version) }
}

fn page(objects: Vec<ObjectInfo>) -> VersionPage {
    VersionPage {
        objects,
        is_truncated: false,
        next_marker: None,
        next_version_idmarker: None,
    }
}

/// What is observed of a listing: the sizes and the numbers of versions.
type Observed = (Vec<u64>, Vec<u64>);

fn count(
    bucket: &str,
    mut fetch: impl FnMut(Option<String>, Option<String>) -> VersionPage,
) -> Result<(BucketUsageInfo, Observed), ListingError> {
    let mut listing = BucketUsageListing::new(bucket);
    let mut sizes = Vec::new();
    let mut versions = Vec::new();
    loop {
        let (marker, version_marker) = listing.next_request();
        let outcome = listing.accept_page(fetch(marker, version_marker))?;
        sizes.extend(outcome.object_sizes);
        versions.extend(outcome.object_versions);
        if outcome.complete {
            break;
        }
    }
    versions.extend(listing.finish_last_object());
    let histogram = versions_histogram(&versions);
    Ok((listing.finish(NameMap::new(), histogram), (sizes, versions)))
}

fn count_one_page(objects: Vec<ObjectInfo>) -> Result<(BucketUsageInfo, Observed), ListingError> {
    let mut pages = VecDeque::from([page(objects)]);
    count("bucket-a", move |_, _| pages.pop_front().expect("one page"))
}

fn fault_of<T>(result: Result<T, ListingError>) -> Option<ListingFault> {
    result.err().map(|e| e.fault)
}

#[test]
fn compute_usage_preserves_same_object_across_1000_entry_page_boundary() {
    let first_page = VersionPage {
        is_truncated: true,
        next_marker: Some("object-a".to_string()),
        next_version_idmarker: Some(uuid::Uuid::from_u128(1000).to_string()),
        objects: (1..=1000_u128).map(|version| entry("object-a", 1, version)).collect(),
    };
    let second_page = page(vec![
        entry("object-a", 1, 1001),
        marker_entry("object-a", 1002),
        entry("object-b", 2, 1003),
    ]);
    let mut pages = VecDeque::from([first_page, second_page]);

    let (usage, _) = count("bucket-a", |marker, version_marker| {
        let page = pages.pop_front().expect("pagination must not request an unexpected page");
        if page.is_truncated {
            assert_eq!((marker, version_marker), (None, None));
        } else {
            let expected_version_marker = uuid::Uuid::from_u128(1000).to_string();
            assert_eq!(marker.as_deref(), Some("object-a"));
            assert_eq!(version_marker.as_deref(), Some(expected_version_marker.as_str()));
        }
        page
    })
    .expect("two-page usage aggregation should succeed");

    assert!(pages.is_empty());
    assert_eq!(usage.objects_count, 2);
    assert_eq!(usage.versions_count, 1002);
    assert_eq!(usage.delete_markers_count, 1);
    assert_eq!(usage.size, 1003);
    assert_eq!(usage.object_versions_histogram.get("SINGLE_VERSION"), Some(&1));
    assert_eq!(usage.object_versions_histogram.get("BETWEEN_1000_AND_10000"), Some(&1));
}

#[test]
fn version_listing_cursor_rejects_incomplete_or_non_advancing_pages() {
    let mut marker = Some("object-a".to_string());
    let mut version_marker = Some("version-a".to_string());

    assert!(
        advance_version_listing_cursor("bucket-a", &mut marker, &mut version_marker, None, Some("version-b".to_string()),)
            .is_err()
    );
    assert!(
        advance_version_listing_cursor("bucket-a", &mut marker, &mut version_marker, Some("object-a".to_string()), None,)
            .is_err()
    );
    assert!(
        advance_version_listing_cursor(
            "bucket-a",
            &mut marker,
            &mut version_marker,
            Some("object-a".to_string()),
            Some("version-a".to_string()),
        )
        .is_err()
    );
    assert!(ensure_truncated_version_page_has_entries("bucket-a", 0).is_err());
    ensure_truncated_version_page_has_entries("bucket-a", 1).expect("a truncated page with an entry can advance");

    let mut tagged_marker = Some("object-a[rustfs_cache:v2,id:old]".to_string());
    let mut tagged_version_marker = Some("version-a".to_string());
    assert!(
        advance_version_listing_cursor(
            "bucket-a",
            &mut tagged_marker,
            &mut tagged_version_marker,
            Some("object-a[rustfs_cache:v2,id:new]".to_string()),
            Some("version-a".to_string()),
        )
        .is_err(),
        "different cache tags for the same logical marker must not count as progress"
    );
}

#[test]
fn version_listing_rejects_replayed_and_out_of_order_entries() {
    let version_a = uuid::Uuid::from_u128(1);
    let version_b = uuid::Uuid::from_u128(2);
    let mut current_object = None;
    let mut current_versions = VersionSet::new();

    record_version_listing_entry(
        "bucket-a",
        &mut current_object,
        &mut current_versions,
        "object-b",
        Some(version_a.as_bytes()),
    )
    .expect("first version should be accepted");
    assert!(
        record_version_listing_entry(
            "bucket-a",
            &mut current_object,
            &mut current_versions,
            "object-b",
            Some(version_a.as_bytes()),
        )
        .is_err()
    );
    record_version_listing_entry(
        "bucket-a",
        &mut current_object,
        &mut current_versions,
        "object-c",
        Some(version_b.as_bytes()),
    )
    .expect("a lexicographically later object should reset version history");
    assert!(
        record_version_listing_entry(
            "bucket-a",
            &mut current_object,
            &mut current_versions,
            "object-a",
            Some(version_a.as_bytes()),
        )
        .is_err()
    );
}

#[test]
fn each_cursor_fault_is_told_apart() {
    let advance = |marker: Option<&str>, version: Option<&str>, next: Option<&str>, next_version: Option<&str>| {
        let mut marker = marker.map(str::to_string);
        let mut version = version.map(str::to_string);
        fault_of(advance_version_listing_cursor(
            "b",
            &mut marker,
            &mut version,
            next.map(str::to_string),
            next_version.map(str::to_string),
        ))
    };
    assert_eq!(advance(None, None, None, Some("v")), Some(ListingFault::MissingKeyMarker));
    assert_eq!(advance(None, None, Some(""), Some("v")), Some(ListingFault::MissingKeyMarker));
    assert_eq!(advance(None, None, Some("k"), None), Some(ListingFault::MissingVersionMarker));
    assert_eq!(advance(None, None, Some("k"), Some("")), Some(ListingFault::MissingVersionMarker));
    assert_eq!(advance(Some("k"), Some("v"), Some("k"), Some("v")), Some(ListingFault::RepeatedMarker));
    assert_eq!(advance(Some("k"), Some("v"), Some("j"), Some("v")), Some(ListingFault::RegressingMarker));
    assert_eq!(advance(Some("k"), Some("v"), Some("k"), Some("w")), None);
    assert_eq!(advance(Some("k"), Some("v"), Some("l"), Some("v")), None);
}

#[test]
fn cursor_never_goes_back_over_a_run() {
    let mut marker = None;
    let mut version_marker = None;
    let mut advance = |key: &str, version: &str| {
        fault_of(advance_version_listing_cursor(
            "b",
            &mut marker,
            &mut version_marker,
            Some(key.to_string()),
            Some(version.to_string()),
        ))
    };
    assert_eq!(advance("a", "1"), None);
    assert_eq!(advance("a[rustfs_cache:x]", "2"), None);
    assert_eq!(advance("b", "1"), None);
    assert_eq!(advance("a", "3"), Some(ListingFault::RegressingMarker));
    assert_eq!(advance("b[rustfs_cache:y]", "1"), Some(ListingFault::RepeatedMarker));
    assert_eq!(advance("c", "1"), None);
    assert_eq!(advance("b", "9"), Some(ListingFault::RegressingMarker));
}

#[test]
fn entries_are_accepted_exactly_if_ordered_and_distinct() {
    let names = ["a", "b"];
    let versions = [None, Some([1; 16])];
    let pairs: Vec<(&str, Option<[u8; 16]>)> =
        names.iter().flat_map(|n| versions.iter().map(move |v| (*n, *v))).collect();
    for first in &pairs {
        for second in &pairs {
            for third in &pairs {
                let run = [first, second, third];
                let mut current = None;
                let mut seen = VersionSet::new();
                let accepted = run.iter().all(|(name, version)| {
                    record_version_listing_entry("b", &mut current, &mut seen, name, version.as_ref()).is_ok()
                });
                let ordered = first.0 <= second.0 && second.0 <= third.0;
                let distinct = first != second && second != third && first != third;
                assert_eq!(accepted, ordered && distinct);
            }
        }
    }
}

#[test]
fn cursor_moves_to_the_next_markers() {
    let mut marker = None;
    let mut version_marker = None;
    advance_version_listing_cursor(
        "b",
        &mut marker,
        &mut version_marker,
        Some("k[rustfs_cache:v2,id:x]".to_string()),
        Some("v".to_string()),
    )
    .expect("first markers");
    assert_eq!(marker.as_deref(), Some("k[rustfs_cache:v2,id:x]"));
    assert_eq!(version_marker.as_deref(), Some("v"));
}

#[test]
fn listing_errors_read_as_sentences() {
    let message = |fault| ListingError { bucket: "b".to_string(), fault }.message();
    assert_eq!(
        message(ListingFault::EmptyTruncatedPage),
        "bucket b version listing returned an empty truncated page"
    );
    assert_eq!(
        message(ListingFault::OutOfOrderObject),
        "bucket b version listing returned an out-of-order object"
    );
    assert_eq!(
        message(ListingFault::RepeatedVersion),
        "bucket b version listing returned a repeated object version"
    );
    assert_eq!(
        message(ListingFault::MissingKeyMarker),
        "bucket b version listing was truncated without a key marker"
    );
    assert_eq!(
        message(ListingFault::MissingVersionMarker),
        "bucket b version listing was truncated without a version marker"
    );
    assert_eq!(
        message(ListingFault::RepeatedMarker),
        "bucket b version listing returned a repeated continuation marker"
    );
    assert_eq!(
        message(ListingFault::RegressingMarker),
        "bucket b version listing returned a regressing key marker"
    );
}

#[test]
fn null_version_is_listed_once() {
    let mut versions = VersionSet::new();
    assert!(versions.insert(None));
    assert!(!versions.insert(None));
    assert!(versions.insert(Some(&[0; 16])));
    assert!(!versions.insert(Some(&[0; 16])));
    let mut other = [0; 16];
    other[0] = 1;
    assert!(versions.insert(Some(&other)));
    other[0] = 0;
    other[15] = 1;
    assert!(versions.insert(Some(&other)));
    versions.clear();
    assert!(versions.insert(None));
}

#[test]
fn directories_are_passed_over_and_negative_sizes_count_as_nothing() {
    let mut directory = entry("z", 100, 1);
    directory.is_dir = true;
    let (usage, observed) =
        count_one_page(vec![directory, entry("a", -5, 1), entry("a", 7, 2)]).expect("count");
    assert_eq!(usage.objects_count, 1);
    assert_eq!(usage.versions_count, 2);
    assert_eq!(usage.size, 7);
    assert_eq!(observed, (vec![0, 7], vec![2]));
}

#[test]
fn object_with_delete_markers_only_is_no_object() {
    let (usage, observed) =
        count_one_page(vec![marker_entry("a", 1), marker_entry("a", 2), entry("b", 3, 1)]).expect("count");
    assert_eq!(usage.objects_count, 1);
    assert_eq!(usage.versions_count, 1);
    assert_eq!(usage.delete_markers_count, 2);
    assert_eq!(observed, (vec![3], vec![1]));
}

#[test]
fn faults_of_a_page_end_the_listing() {
    assert_eq!(
        fault_of(count_one_page(vec![entry("a", 1, 1), entry("a", 1, 1)])),
        Some(ListingFault::RepeatedVersion)
    );
    assert_eq!(
        fault_of(count_one_page(vec![entry("b", 1, 1), entry("a", 1, 1)])),
        Some(ListingFault::OutOfOrderObject)
    );
    let empty = count("bucket-a", |_, _| VersionPage { is_truncated: true, ..page(Vec::new()) });
    assert_eq!(fault_of(empty), Some(ListingFault::EmptyTruncatedPage));
    let stuck = count("bucket-a", |_, _| VersionPage {
        is_truncated: true,
        next_marker: Some("a".to_string()),
        next_version_idmarker: Some("v".to_string()),
        ..page(vec![ObjectInfo { is_dir: true, ..entry("a", 1, 1) }])
    });
    assert_eq!(fault_of(stuck), Some(ListingFault::RepeatedMarker));
}

#[test]
fn replay_across_pages_is_found() {
    let mut pages = VecDeque::from([
        VersionPage {
            is_truncated: true,
            next_marker: Some("a".to_string()),
            next_version_idmarker: Some("v".to_string()),
            ..page(vec![entry("a", 1, 1)])
        },
        page(vec![entry("a", 1, 1)]),
    ]);
    let result = count("bucket-a", |_, _| pages.pop_front().expect("two pages"));
    assert_eq!(fault_of(result), Some(ListingFault::RepeatedVersion));
}

#[test]
fn page_boundaries_make_no_difference() {
    let objects = || {
        vec![
            entry("a", 1, 1),
            entry("a", 2, 2),
            marker_entry("b", 1),
            entry("b", 4, 2),
            entry("c", 8, 1),
        ]
    };
    let (whole, observed) = count_one_page(objects()).expect("one page");
    for cut in 1..5 {
        let mut first = objects();
        let second = first.split_off(cut);
        let mut pages = VecDeque::from([
            VersionPage {
                is_truncated: true,
                next_marker: Some("m".to_string()),
                next_version_idmarker: Some("v".to_string()),
                ..page(first)
            },
            page(second),
        ]);
        let (usage, seen) = count("bucket-a", |_, _| pages.pop_front().expect("two pages")).expect("two pages");
        assert_eq!(usage.objects_count, whole.objects_count);
        assert_eq!(usage.versions_count, whole.versions_count);
        assert_eq!(usage.delete_markers_count, whole.delete_markers_count);
        assert_eq!(usage.size, whole.size);
        assert_eq!(seen, observed);
    }
    assert_eq!(
        (whole.objects_count, whole.versions_count, whole.delete_markers_count, whole.size),
        (3, 4, 1, 15)
    );
    assert_eq!(observed, (vec![1, 2, 4, 8], vec![2, 1, 1]));
}

#[test]
fn observations_of_many_pages_add_up_to_the_counts() {
    let truncated = |objects, version: &str| VersionPage {
        is_truncated: true,
        next_marker: Some("m".to_string()),
        next_version_idmarker: Some(version.to_string()),
        ..page(objects)
    };
    let mut pages = VecDeque::from([
        truncated(vec![entry("a", 1, 1)], "1"),
        truncated(vec![entry("a", 2, 2), entry("b", 4, 1)], "2"),
        truncated(vec![marker_entry("b", 2)], "3"),
        page(vec![entry("b", 8, 3)]),
    ]);
    let (usage, (sizes, versions)) = count("bucket-a", |_, _| pages.pop_front().expect("four pages")).expect("count");
    assert_eq!((sizes.as_slice(), versions.as_slice()), ([1, 2, 4, 8].as_slice(), [2, 2].as_slice()));
    assert_eq!(sizes.len() as u64, usage.versions_count);
    assert_eq!(sizes.iter().sum::<u64>(), usage.size);
    assert_eq!(versions.len() as u64, usage.objects_count);
    assert_eq!(versions.iter().sum::<u64>(), usage.versions_count);
}

#[test]
fn names_are_ordered_by_their_bytes() {
    assert_eq!(compare_names("a", "b"), Standing::Before);
    assert_eq!(compare_names("b", "a"), Standing::After);
    assert_eq!(compare_names("a", "a"), Standing::Same);
    assert_eq!(compare_names("a", "aa"), Standing::Before);
    assert_eq!(compare_names("", "a"), Standing::Before);
    for (a, b) in [("z", "\u{e9}"), ("\u{ffff}", "\u{10000}"), ("a\u{7f}", "a\u{80}"), ("B", "a")] {
        let expected = if a < b { Standing::Before } else { Standing::After };
        assert_eq!(compare_names(a, b), expected);
    }
}

#[test]
fn marker_key_ends_at_the_cache_tag() {
    assert_eq!(list_marker_key("object-a"), "object-a");
    assert_eq!(list_marker_key("object-a[rustfs_cache:v2,id:old]"), "object-a");
    assert_eq!(list_marker_key("[rustfs_cache:v2]"), "");
    assert_eq!(list_marker_key("a[rustfs_cach"), "a[rustfs_cach");
    assert_eq!(list_marker_key("a[rustfs_cache:1][rustfs_cache:2]"), "a");
    assert_eq!(list_marker_key("\u{e9}[rustfs_cache:v2]"), "\u{e9}");
}
