//! Usage snapshots of single disks, and what they come to together.

use crate::name_map;
use crate::name_map::{Duplicate, NameMap};
use crate::time::Timestamp;
use crate::usage;
use crate::usage::{
    duplicate_statuses, sum_bucket_usages, BucketUsage, BucketUsageInfo, DataUsage, DataUsageInfo,
    DiskUsage, DiskUsageStatus,
};
use vstd::prelude::*;
use vstd::string::*;

verus! {

/// Which disk a snapshot is of.
#[derive(Debug)]
pub struct LocalUsageSnapshotMeta {
    pub disk_id: String,
    pub pool_index: Option<usize>,
    pub set_index: Option<usize>,
    pub disk_index: Option<usize>,
}

/// Where a disk stands in the store.
#[derive(Debug)]
pub struct DiskPlace {
    pub disk_id: String,
    pub pool_index: usize,
    pub set_index: usize,
    pub disk_index: usize,
}

impl LocalUsageSnapshotMeta {
    /// Fills in what the snapshot does not say of its disk.
    pub fn complete(&mut self, place: &DiskPlace)
        ensures
            final(self).disk_id@ == if old(self).disk_id@.len() == 0 {
                place.disk_id@
            } else {
                old(self).disk_id@
            },
            final(self).pool_index == if old(self).pool_index is None {
                Some(place.pool_index)
            } else {
                old(self).pool_index
            },
            final(self).set_index == if old(self).set_index is None {
                Some(place.set_index)
            } else {
                old(self).set_index
            },
            final(self).disk_index == if old(self).disk_index is None {
                Some(place.disk_index)
            } else {
                old(self).disk_index
            },
    {
        if self.disk_id.as_str().unicode_len() == 0 {
            self.disk_id = place.disk_id.clone();
        }
        if self.pool_index.is_none() {
            self.pool_index = Some(place.pool_index);
        }
        if self.set_index.is_none() {
            self.set_index = Some(place.set_index);
        }
        if self.disk_index.is_none() {
            self.disk_index = Some(place.disk_index);
        }
    }
}

/// The usage of what is stored on one disk.
pub struct LocalUsageSnapshot {
    pub meta: LocalUsageSnapshotMeta,
    pub last_update: Option<Timestamp>,
    pub buckets_usage: NameMap<BucketUsageInfo>,
    pub buckets_count: u64,
    pub objects_total_count: u64,
    pub versions_total_count: u64,
    pub delete_markers_total_count: u64,
    pub objects_total_size: u64,
}

impl LocalUsageSnapshot {
    /// The snapshot of an empty disk.
    pub fn new(meta: LocalUsageSnapshotMeta) -> (r: Self)
        ensures
            r.meta == meta,
            r.last_update is None,
            r.buckets_usage@ == Map::<Seq<char>, BucketUsage>::empty(),
            r.buckets_count == 0,
            r.objects_total_count == 0,
            r.versions_total_count == 0,
            r.delete_markers_total_count == 0,
            r.objects_total_size == 0,
    {
        LocalUsageSnapshot {
            meta,
            last_update: None,
            buckets_usage: NameMap::new(),
            buckets_count: 0,
            objects_total_count: 0,
            versions_total_count: 0,
            delete_markers_total_count: 0,
            objects_total_size: 0,
        }
    }

    /// Recomputes the totals from the buckets.
    pub fn recompute_totals(&mut self)
        ensures
            final(self).meta == old(self).meta,
            final(self).last_update == old(self).last_update,
            final(self).buckets_usage == old(self).buckets_usage,
            final(self).buckets_count == usage::saturate(old(self).buckets_usage@.len()),
            final(self).objects_total_count == usage::saturate(
                usage::total_objects(old(self).buckets_usage@),
            ),
            final(self).versions_total_count == usage::saturate(
                usage::total_versions(old(self).buckets_usage@),
            ),
            final(self).delete_markers_total_count == usage::saturate(
                usage::total_delete_markers(old(self).buckets_usage@),
            ),
            final(self).objects_total_size == usage::saturate(
                usage::total_size(old(self).buckets_usage@),
            ),
    {
        let totals = sum_bucket_usages(&self.buckets_usage);
        let n = self.buckets_usage.len();
        self.buckets_count = n as u64;
        self.objects_total_count = totals.objects;
        self.versions_total_count = totals.versions;
        self.delete_markers_total_count = totals.delete_markers;
        self.objects_total_size = totals.size;
    }
}

/// The later of two times, where there are any.
pub open spec fn later(latest: Option<Timestamp>, update: Option<Timestamp>) -> Option<Timestamp> {
    match (latest, update) {
        (Some(a), Some(b)) => if b.nanos > a.nanos {
            update
        } else {
            latest
        },
        (None, _) => update,
        (_, None) => latest,
    }
}

/// The usage of buckets on two disks together.
pub open spec fn merged_buckets(
    a: Map<Seq<char>, BucketUsage>,
    b: Map<Seq<char>, BucketUsage>,
) -> Map<Seq<char>, BucketUsage> {
    Map::new(
        |k: Seq<char>| a.contains_key(k) || b.contains_key(k),
        |k: Seq<char>|
            if !b.contains_key(k) {
                a[k]
            } else if !a.contains_key(k) {
                b[k]
            } else {
                usage::merged_usage(a[k], b[k])
            },
    )
}

/// The sizes of buckets.
pub open spec fn sizes(buckets: Map<Seq<char>, BucketUsage>) -> Map<Seq<char>, u64> {
    Map::new(|k: Seq<char>| buckets.contains_key(k), |k: Seq<char>| buckets[k].size)
}

/// The usage of some disks with that of one more, which holds the given buckets.
pub open spec fn with_snapshot(info: DataUsage, buckets: Map<Seq<char>, BucketUsage>) -> DataUsage {
    DataUsage {
        objects_total_count: usage::saturate(
            (info.objects_total_count + usage::saturate(usage::total_objects(buckets))) as nat,
        ),
        versions_total_count: usage::saturate(
            (info.versions_total_count + usage::saturate(usage::total_versions(buckets))) as nat,
        ),
        delete_markers_total_count: usage::saturate(
            (info.delete_markers_total_count + usage::saturate(
                usage::total_delete_markers(buckets),
            )) as nat,
        ),
        objects_total_size: usage::saturate(
            (info.objects_total_size + usage::saturate(usage::total_size(buckets))) as nat,
        ),
        buckets_usage: merged_buckets(info.buckets_usage, buckets),
        bucket_sizes: usage::merged_counts(info.bucket_sizes, sizes(buckets)),
        ..info
    }
}

/// Adds the snapshot of one more disk.
pub fn merge_snapshot(
    aggregated: &mut DataUsageInfo,
    snapshot: LocalUsageSnapshot,
    latest_update: &mut Option<Timestamp>,
)
    ensures
        final(aggregated)@ == with_snapshot(old(aggregated)@, snapshot.buckets_usage@),
        *final(latest_update) == later(*old(latest_update), snapshot.last_update),
{
    let mut snapshot = snapshot;
    match snapshot.last_update {
        Some(update) => {
            let is_later = match *latest_update {
                Some(current) => update.nanos > current.nanos,
                None => true,
            };
            if is_later {
                *latest_update = Some(update);
            }
        },
        None => {},
    }
    snapshot.recompute_totals();
    let ghost info = aggregated@;
    let ghost buckets = snapshot.buckets_usage@;
    aggregated.objects_total_count = aggregated.objects_total_count.saturating_add(
        snapshot.objects_total_count,
    );
    aggregated.versions_total_count = aggregated.versions_total_count.saturating_add(
        snapshot.versions_total_count,
    );
    aggregated.delete_markers_total_count = aggregated.delete_markers_total_count.saturating_add(
        snapshot.delete_markers_total_count,
    );
    aggregated.objects_total_size = aggregated.objects_total_size.saturating_add(
        snapshot.objects_total_size,
    );
    let ghost counted = aggregated@;
    let n = snapshot.buckets_usage.len();
    let ghost names = snapshot.buckets_usage.names();
    proof {
        assert(merged_buckets(info.buckets_usage, Map::empty()) =~= info.buckets_usage);
        assert(usage::merged_counts(info.bucket_sizes, sizes(Map::empty())) =~= info.bucket_sizes);
    }
    let mut i: usize = 0;
    while i < n
        invariant
            i <= n,
            buckets == snapshot.buckets_usage@,
            n == buckets.len(),
            names == snapshot.buckets_usage.names(),
            name_map::lists_names(names, buckets),
            aggregated@ == (DataUsage {
                buckets_usage: merged_buckets(
                    info.buckets_usage,
                    name_map::first_entries(buckets, names, i as nat),
                ),
                bucket_sizes: usage::merged_counts(
                    info.bucket_sizes,
                    sizes(name_map::first_entries(buckets, names, i as nat)),
                ),
                ..counted
            }),
        decreases n - i,
    {
        let ghost done = name_map::first_entries(buckets, names, i as nat);
        let ghost next = name_map::first_entries(buckets, names, (i + 1) as nat);
        let bucket = snapshot.buckets_usage.name_at(i);
        let usage = snapshot.buckets_usage.value_at(i);
        proof {
            name_map::lemma_first_entries(buckets, names, i as nat);
        }
        let merged = match aggregated.buckets_usage.get(bucket.as_str()) {
            Some(existing) => {
                let mut merged = existing.duplicate();
                merged.merge(usage);
                merged
            },
            None => usage.duplicate(),
        };
        aggregated.buckets_usage.insert(bucket.clone(), merged);
        let size = match aggregated.bucket_sizes.get(bucket.as_str()) {
            Some(size) => size.saturating_add(usage.size),
            None => usage.size,
        };
        aggregated.bucket_sizes.insert(bucket.clone(), size);
        proof {
            assert(aggregated@.buckets_usage =~= merged_buckets(info.buckets_usage, next));
            assert(aggregated@.bucket_sizes =~= usage::merged_counts(
                info.bucket_sizes,
                sizes(next),
            ));
        }
        i = i + 1;
    }
    proof {
        name_map::lemma_first_entries(buckets, names, n as nat);
    }
}

/// The name by which a disk is known again: its endpoint and its root.
pub open spec fn key_of(endpoint: Seq<char>, root: Seq<char>) -> Seq<char> {
    endpoint + "|"@ + root
}

/// The name by which a disk is known again: its endpoint and its root.
pub fn disk_key(endpoint: &str, root: &str) -> (r: String)
    ensures
        r@ == key_of(endpoint@, root@),
{
    let mut key = endpoint.to_owned();
    key.append("|");
    key.append(root);
    key
}

/// What a [`SnapshotAggregation`] stands for.
#[verifier::ext_equal]
pub struct Aggregation {
    pub info: DataUsage,
    pub latest_update: Option<Timestamp>,
    pub statuses: Seq<DiskUsage>,
    /// The keys of the disks that were admitted.
    pub processed: Set<Seq<char>>,
}

/// The usage of the disks that were seen so far.
pub struct SnapshotAggregation {
    aggregated: DataUsageInfo,
    latest_update: Option<Timestamp>,
    statuses: Vec<DiskUsageStatus>,
    processed: NameMap<u64>,
}

impl View for SnapshotAggregation {
    type V = Aggregation;

    closed spec fn view(&self) -> Aggregation {
        Aggregation {
            info: self.aggregated@,
            latest_update: self.latest_update,
            statuses: usage::disk_states(self.statuses@),
            processed: self.processed@.dom(),
        }
    }
}

/// The state of a disk, given its snapshot or that there is none.
pub open spec fn disk_state(
    place: DiskPlace,
    snapshot: Result<Option<LocalUsageSnapshot>, String>,
) -> DiskUsage {
    let found = snapshot is Ok && snapshot->Ok_0 is Some;
    DiskUsage {
        disk_id: place.disk_id@,
        pool_index: Some(place.pool_index),
        set_index: Some(place.set_index),
        disk_index: Some(place.disk_index),
        last_update: if found {
            snapshot->Ok_0->0.last_update
        } else {
            None
        },
        snapshot_exists: found,
    }
}

/// No disk seen yet.
pub open spec fn no_disks() -> Aggregation {
    Aggregation {
        info: usage::no_data_usage(),
        latest_update: None,
        statuses: Seq::empty(),
        processed: Set::empty(),
    }
}

impl Aggregation {
    /// Whether a disk counts: it is a local one, it has an identity, and none with its key was
    /// admitted before.
    pub open spec fn admits(self, is_local: bool, has_id: bool, key: Seq<char>) -> bool {
        is_local && has_id && !self.processed.contains(key)
    }

    /// The same state after a disk was looked at.
    pub open spec fn having_seen(self, is_local: bool, has_id: bool, key: Seq<char>) -> Aggregation {
        Aggregation {
            processed: if is_local && has_id {
                self.processed.insert(key)
            } else {
                self.processed
            },
            ..self
        }
    }

    /// The same state with a disk counted. Only a snapshot that was read adds to the usage.
    pub open spec fn with_disk(
        self,
        place: DiskPlace,
        snapshot: Result<Option<LocalUsageSnapshot>, String>,
    ) -> Aggregation {
        Aggregation {
            info: match snapshot {
                Ok(Some(s)) => with_snapshot(self.info, s.buckets_usage@),
                _ => self.info,
            },
            latest_update: match snapshot {
                Ok(Some(s)) => later(self.latest_update, s.last_update),
                _ => self.latest_update,
            },
            statuses: self.statuses.push(disk_state(place, snapshot)),
            ..self
        }
    }

    /// The usage of all disks together.
    pub open spec fn total(self) -> DataUsage {
        DataUsage {
            last_update: self.latest_update,
            disk_usage_status: self.statuses,
            ..self.info
        }.with_buckets_counted()
    }
}

impl SnapshotAggregation {
    /// No disk seen yet.
    pub fn new() -> (r: Self)
        ensures
            r@ == no_disks(),
    {
        let r = SnapshotAggregation {
            aggregated: DataUsageInfo::default(),
            latest_update: None,
            statuses: Vec::new(),
            processed: NameMap::new(),
        };
        assert(r@.statuses =~= Seq::empty());
        assert(r@.processed =~= Set::empty());
        r
    }

    /// Whether the disk counts: it is a local one, it has an identity, and none with its endpoint
    /// and root was admitted before.
    pub fn admit_disk(
        &mut self,
        is_local: bool,
        has_id: bool,
        endpoint: &str,
        root: &str,
    ) -> (r: bool)
        ensures
            r == old(self)@.admits(is_local, has_id, key_of(endpoint@, root@)),
            final(self)@ == old(self)@.having_seen(is_local, has_id, key_of(endpoint@, root@)),
    {
        if !is_local || !has_id {
            return false;
        }
        let seen = self.processed.insert(disk_key(endpoint, root), 0);
        proof {
            assert(self@.processed =~= old(self)@.processed.insert(key_of(endpoint@, root@)));
        }
        seen.is_none()
    }

    /// Counts a disk, with the snapshot that was read of it, if there is one. A snapshot that could
    /// not be read does not count. The result says whether it is to be removed, so that the next
    /// scan makes a new one.
    pub fn record_disk(
        &mut self,
        place: DiskPlace,
        snapshot: Result<Option<LocalUsageSnapshot>, String>,
    ) -> (r: bool)
        ensures
            r == snapshot is Err,
            final(self)@ == old(self)@.with_disk(place, snapshot),
    {
        let mut status = DiskUsageStatus {
            disk_id: place.disk_id.clone(),
            pool_index: Some(place.pool_index),
            set_index: Some(place.set_index),
            disk_index: Some(place.disk_index),
            last_update: None,
            snapshot_exists: false,
        };
        let unreadable = snapshot.is_err();
        match snapshot {
            Ok(Some(found)) => {
                let mut found = found;
                status.last_update = found.last_update;
                status.snapshot_exists = true;
                found.meta.complete(&place);
                merge_snapshot(&mut self.aggregated, found, &mut self.latest_update);
            },
            _ => {},
        }
        self.statuses.push(status);
        proof {
            assert(self@.statuses =~= old(self)@.statuses.push(disk_state(place, snapshot)));
        }
        unreadable
    }

    /// The states of the disks, and their usage together.
    pub fn finish(self) -> (r: (Vec<DiskUsageStatus>, DataUsageInfo))
        ensures
            usage::disk_states(r.0@) == self@.statuses,
            r.1@ == self@.total(),
    {
        let mut aggregated = self.aggregated;
        let n = aggregated.buckets_usage.len();
        aggregated.buckets_count = n as u64;
        aggregated.last_update = self.latest_update;
        aggregated.disk_usage_status = duplicate_statuses(&self.statuses);
        (self.statuses, aggregated)
    }
}

} // verus!
