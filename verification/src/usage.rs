//! Usage counts of buckets and of the whole store.

use crate::name_map;
use crate::name_map::{Duplicate, NameMap};
use crate::time::Timestamp;
use vstd::prelude::*;

verus! {

/// The largest count that can be kept; a larger one is kept as this.
pub open spec fn saturate(n: nat) -> u64 {
    if n > u64::MAX {
        u64::MAX
    } else {
        n as u64
    }
}

/// Replication counts of one target.
#[derive(Clone, Copy, Debug, PartialEq, Eq, Structural)]
pub struct BucketTargetUsageInfo {
    pub replication_pending_size: u64,
    pub replication_failed_size: u64,
    pub replicated_size: u64,
    pub replica_size: u64,
    pub replication_pending_count: u64,
    pub replication_failed_count: u64,
    pub replicated_count: u64,
}

impl View for BucketTargetUsageInfo {
    type V = BucketTargetUsageInfo;

    open spec fn view(&self) -> BucketTargetUsageInfo {
        *self
    }
}

impl Duplicate for BucketTargetUsageInfo {
    fn duplicate(&self) -> (r: Self) {
        *self
    }
}

/// Replication counts that are all zero.
pub open spec fn no_target_usage() -> BucketTargetUsageInfo {
    BucketTargetUsageInfo {
        replication_pending_size: 0,
        replication_failed_size: 0,
        replicated_size: 0,
        replica_size: 0,
        replication_pending_count: 0,
        replication_failed_count: 0,
        replicated_count: 0,
    }
}

impl Default for BucketTargetUsageInfo {
    fn default() -> (r: Self)
        ensures
            r == no_target_usage(),
    {
        BucketTargetUsageInfo {
            replication_pending_size: 0,
            replication_failed_size: 0,
            replicated_size: 0,
            replica_size: 0,
            replication_pending_count: 0,
            replication_failed_count: 0,
            replicated_count: 0,
        }
    }
}

/// Two sets of replication counts taken together.
pub open spec fn merged_target(
    a: BucketTargetUsageInfo,
    b: BucketTargetUsageInfo,
) -> BucketTargetUsageInfo {
    BucketTargetUsageInfo {
        replication_pending_size: saturate(
            (a.replication_pending_size + b.replication_pending_size) as nat,
        ),
        replication_failed_size: saturate(
            (a.replication_failed_size + b.replication_failed_size) as nat,
        ),
        replicated_size: saturate((a.replicated_size + b.replicated_size) as nat),
        replica_size: saturate((a.replica_size + b.replica_size) as nat),
        replication_pending_count: saturate(
            (a.replication_pending_count + b.replication_pending_count) as nat,
        ),
        replication_failed_count: saturate(
            (a.replication_failed_count + b.replication_failed_count) as nat,
        ),
        replicated_count: saturate((a.replicated_count + b.replicated_count) as nat),
    }
}

impl BucketTargetUsageInfo {
    /// Both sets of counts taken together.
    pub fn merged_with(&self, other: &BucketTargetUsageInfo) -> (r: BucketTargetUsageInfo)
        ensures
            r == merged_target(*self, *other),
    {
        BucketTargetUsageInfo {
            replication_pending_size: self.replication_pending_size.saturating_add(
                other.replication_pending_size,
            ),
            replication_failed_size: self.replication_failed_size.saturating_add(
                other.replication_failed_size,
            ),
            replicated_size: self.replicated_size.saturating_add(other.replicated_size),
            replica_size: self.replica_size.saturating_add(other.replica_size),
            replication_pending_count: self.replication_pending_count.saturating_add(
                other.replication_pending_count,
            ),
            replication_failed_count: self.replication_failed_count.saturating_add(
                other.replication_failed_count,
            ),
            replicated_count: self.replicated_count.saturating_add(other.replicated_count),
        }
    }
}

/// What a [`BucketUsageInfo`] stands for.
#[verifier::ext_equal]
pub struct BucketUsage {
    pub size: u64,
    pub objects_count: u64,
    pub versions_count: u64,
    pub delete_markers_count: u64,
    pub object_size_histogram: Map<Seq<char>, u64>,
    pub object_versions_histogram: Map<Seq<char>, u64>,
    pub replica_size: u64,
    pub replica_count: u64,
    pub replication_info: Map<Seq<char>, BucketTargetUsageInfo>,
    pub replication_pending_size_v1: u64,
    pub replication_failed_size_v1: u64,
    pub replicated_size_v1: u64,
    pub replication_pending_count_v1: u64,
    pub replication_failed_count_v1: u64,
}

/// The usage of a bucket that holds nothing.
pub open spec fn no_bucket_usage() -> BucketUsage {
    BucketUsage {
        size: 0,
        objects_count: 0,
        versions_count: 0,
        delete_markers_count: 0,
        object_size_histogram: Map::empty(),
        object_versions_histogram: Map::empty(),
        replica_size: 0,
        replica_count: 0,
        replication_info: Map::empty(),
        replication_pending_size_v1: 0,
        replication_failed_size_v1: 0,
        replicated_size_v1: 0,
        replication_pending_count_v1: 0,
        replication_failed_count_v1: 0,
    }
}

/// Two count maps taken together: under each name the sum of what stands there.
pub open spec fn merged_counts(
    a: Map<Seq<char>, u64>,
    b: Map<Seq<char>, u64>,
) -> Map<Seq<char>, u64> {
    Map::new(
        |k: Seq<char>| a.contains_key(k) || b.contains_key(k),
        |k: Seq<char>|
            if !b.contains_key(k) {
                a[k]
            } else if !a.contains_key(k) {
                b[k]
            } else {
                saturate((a[k] + b[k]) as nat)
            },
    )
}

/// Two maps of replication counts taken together.
pub open spec fn merged_targets(
    a: Map<Seq<char>, BucketTargetUsageInfo>,
    b: Map<Seq<char>, BucketTargetUsageInfo>,
) -> Map<Seq<char>, BucketTargetUsageInfo> {
    Map::new(
        |k: Seq<char>| a.contains_key(k) || b.contains_key(k),
        |k: Seq<char>|
            if !b.contains_key(k) {
                a[k]
            } else if !a.contains_key(k) {
                b[k]
            } else {
                merged_target(a[k], b[k])
            },
    )
}

/// The usage of one bucket on two disks taken together.
pub open spec fn merged_usage(a: BucketUsage, b: BucketUsage) -> BucketUsage {
    BucketUsage {
        size: saturate((a.size + b.size) as nat),
        objects_count: saturate((a.objects_count + b.objects_count) as nat),
        versions_count: saturate((a.versions_count + b.versions_count) as nat),
        delete_markers_count: saturate((a.delete_markers_count + b.delete_markers_count) as nat),
        object_size_histogram: merged_counts(a.object_size_histogram, b.object_size_histogram),
        object_versions_histogram: merged_counts(
            a.object_versions_histogram,
            b.object_versions_histogram,
        ),
        replica_size: saturate((a.replica_size + b.replica_size) as nat),
        replica_count: saturate((a.replica_count + b.replica_count) as nat),
        replication_info: merged_targets(a.replication_info, b.replication_info),
        replication_pending_size_v1: saturate(
            (a.replication_pending_size_v1 + b.replication_pending_size_v1) as nat,
        ),
        replication_failed_size_v1: saturate(
            (a.replication_failed_size_v1 + b.replication_failed_size_v1) as nat,
        ),
        replicated_size_v1: saturate((a.replicated_size_v1 + b.replicated_size_v1) as nat),
        replication_pending_count_v1: saturate(
            (a.replication_pending_count_v1 + b.replication_pending_count_v1) as nat,
        ),
        replication_failed_count_v1: saturate(
            (a.replication_failed_count_v1 + b.replication_failed_count_v1) as nat,
        ),
    }
}

/// Adds the counts of `from` to those of `into`.
fn merge_counts(into: &mut NameMap<u64>, from: &NameMap<u64>)
    ensures
        final(into)@ == merged_counts(old(into)@, from@),
{
    let ghost start = into@;
    let n = from.len();
    let ghost names = from.names();
    proof {
        assert(merged_counts(start, Map::empty()) =~= start);
    }
    let mut i: usize = 0;
    while i < n
        invariant
            i <= n,
            n == from@.len(),
            names == from.names(),
            name_map::lists_names(names, from@),
            into@ == merged_counts(start, name_map::first_entries(from@, names, i as nat)),
        decreases n - i,
    {
        let ghost done = name_map::first_entries(from@, names, i as nat);
        let name = from.name_at(i);
        let add = *from.value_at(i);
        let current = match into.get(name.as_str()) {
            Some(count) => count.saturating_add(add),
            None => add,
        };
        into.insert(name.clone(), current);
        proof {
            name_map::lemma_first_entries(from@, names, i as nat);
            assert(into@ =~= merged_counts(start, done.insert(name@, add)));
        }
        i = i + 1;
    }
    proof {
        name_map::lemma_first_entries(from@, names, n as nat);
    }
}

/// Adds the replication counts of `from` to those of `into`.
fn merge_targets(
    into: &mut NameMap<BucketTargetUsageInfo>,
    from: &NameMap<BucketTargetUsageInfo>,
)
    ensures
        final(into)@ == merged_targets(old(into)@, from@),
{
    let ghost start = into@;
    let n = from.len();
    let ghost names = from.names();
    proof {
        assert(merged_targets(start, Map::empty()) =~= start);
    }
    let mut i: usize = 0;
    while i < n
        invariant
            i <= n,
            n == from@.len(),
            names == from.names(),
            name_map::lists_names(names, from@),
            into@ == merged_targets(start, name_map::first_entries(from@, names, i as nat)),
        decreases n - i,
    {
        let ghost done = name_map::first_entries(from@, names, i as nat);
        let name = from.name_at(i);
        let add = *from.value_at(i);
        let current = match into.get(name.as_str()) {
            Some(target) => target.merged_with(&add),
            None => add,
        };
        into.insert(name.clone(), current);
        proof {
            name_map::lemma_first_entries(from@, names, i as nat);
            assert(into@ =~= merged_targets(start, done.insert(name@, add)));
        }
        i = i + 1;
    }
    proof {
        name_map::lemma_first_entries(from@, names, n as nat);
    }
}

/// Usage counts of one bucket.
pub struct BucketUsageInfo {
    pub size: u64,
    pub objects_count: u64,
    pub versions_count: u64,
    pub delete_markers_count: u64,
    pub object_size_histogram: NameMap<u64>,
    pub object_versions_histogram: NameMap<u64>,
    pub replica_size: u64,
    pub replica_count: u64,
    pub replication_info: NameMap<BucketTargetUsageInfo>,
    /// Counts that older snapshots keep per bucket instead of per replication target.
    pub replication_pending_size_v1: u64,
    pub replication_failed_size_v1: u64,
    pub replicated_size_v1: u64,
    pub replication_pending_count_v1: u64,
    pub replication_failed_count_v1: u64,
}

impl View for BucketUsageInfo {
    type V = BucketUsage;

    open spec fn view(&self) -> BucketUsage {
        BucketUsage {
            size: self.size,
            objects_count: self.objects_count,
            versions_count: self.versions_count,
            delete_markers_count: self.delete_markers_count,
            object_size_histogram: self.object_size_histogram@,
            object_versions_histogram: self.object_versions_histogram@,
            replica_size: self.replica_size,
            replica_count: self.replica_count,
            replication_info: self.replication_info@,
            replication_pending_size_v1: self.replication_pending_size_v1,
            replication_failed_size_v1: self.replication_failed_size_v1,
            replicated_size_v1: self.replicated_size_v1,
            replication_pending_count_v1: self.replication_pending_count_v1,
            replication_failed_count_v1: self.replication_failed_count_v1,
        }
    }
}

impl Default for BucketUsageInfo {
    fn default() -> (r: Self)
        ensures
            r@ == no_bucket_usage(),
    {
        BucketUsageInfo {
            size: 0,
            objects_count: 0,
            versions_count: 0,
            delete_markers_count: 0,
            object_size_histogram: NameMap::new(),
            object_versions_histogram: NameMap::new(),
            replica_size: 0,
            replica_count: 0,
            replication_info: NameMap::new(),
            replication_pending_size_v1: 0,
            replication_failed_size_v1: 0,
            replicated_size_v1: 0,
            replication_pending_count_v1: 0,
            replication_failed_count_v1: 0,
        }
    }
}

impl Duplicate for BucketUsageInfo {
    fn duplicate(&self) -> (r: Self) {
        BucketUsageInfo {
            size: self.size,
            objects_count: self.objects_count,
            versions_count: self.versions_count,
            delete_markers_count: self.delete_markers_count,
            object_size_histogram: self.object_size_histogram.duplicate(),
            object_versions_histogram: self.object_versions_histogram.duplicate(),
            replica_size: self.replica_size,
            replica_count: self.replica_count,
            replication_info: self.replication_info.duplicate(),
            replication_pending_size_v1: self.replication_pending_size_v1,
            replication_failed_size_v1: self.replication_failed_size_v1,
            replicated_size_v1: self.replicated_size_v1,
            replication_pending_count_v1: self.replication_pending_count_v1,
            replication_failed_count_v1: self.replication_failed_count_v1,
        }
    }
}

impl Clone for BucketUsageInfo {
    fn clone(&self) -> (r: Self)
        ensures
            r@ == self@,
    {
        self.duplicate()
    }
}

impl BucketUsageInfo {
    /// Adds the counts that another disk holds for the same bucket.
    pub fn merge(&mut self, other: &BucketUsageInfo)
        ensures
            final(self)@ == merged_usage(old(self)@, other@),
    {
        self.size = self.size.saturating_add(other.size);
        self.objects_count = self.objects_count.saturating_add(other.objects_count);
        self.versions_count = self.versions_count.saturating_add(other.versions_count);
        self.delete_markers_count = self.delete_markers_count.saturating_add(
            other.delete_markers_count,
        );
        merge_counts(&mut self.object_size_histogram, &other.object_size_histogram);
        merge_counts(&mut self.object_versions_histogram, &other.object_versions_histogram);
        self.replica_size = self.replica_size.saturating_add(other.replica_size);
        self.replica_count = self.replica_count.saturating_add(other.replica_count);
        merge_targets(&mut self.replication_info, &other.replication_info);
        self.replication_pending_size_v1 = self.replication_pending_size_v1.saturating_add(
            other.replication_pending_size_v1,
        );
        self.replication_failed_size_v1 = self.replication_failed_size_v1.saturating_add(
            other.replication_failed_size_v1,
        );
        self.replicated_size_v1 = self.replicated_size_v1.saturating_add(other.replicated_size_v1);
        self.replication_pending_count_v1 = self.replication_pending_count_v1.saturating_add(
            other.replication_pending_count_v1,
        );
        self.replication_failed_count_v1 = self.replication_failed_count_v1.saturating_add(
            other.replication_failed_count_v1,
        );
    }
}

/// Whether the counts by which a snapshot is recognised agree.
pub open spec fn counts_match(a: BucketUsage, b: BucketUsage) -> bool {
    &&& a.size == b.size
    &&& a.objects_count == b.objects_count
    &&& a.versions_count == b.versions_count
    &&& a.delete_markers_count == b.delete_markers_count
}

/// Whether two usages agree in size and in the numbers of objects, versions and delete markers.
pub fn bucket_usage_counts_match(left: &BucketUsageInfo, right: &BucketUsageInfo) -> (r: bool)
    ensures
        r == counts_match(left@, right@),
{
    left.size == right.size && left.objects_count == right.objects_count && left.versions_count
        == right.versions_count && left.delete_markers_count == right.delete_markers_count
}

/// What a [`DiskUsageStatus`] stands for.
#[verifier::ext_equal]
pub struct DiskUsage {
    pub disk_id: Seq<char>,
    pub pool_index: Option<usize>,
    pub set_index: Option<usize>,
    pub disk_index: Option<usize>,
    pub last_update: Option<Timestamp>,
    pub snapshot_exists: bool,
}

/// Whether a disk has a usage snapshot, and of when.
#[derive(Debug)]
pub struct DiskUsageStatus {
    pub disk_id: String,
    pub pool_index: Option<usize>,
    pub set_index: Option<usize>,
    pub disk_index: Option<usize>,
    pub last_update: Option<Timestamp>,
    pub snapshot_exists: bool,
}

impl View for DiskUsageStatus {
    type V = DiskUsage;

    open spec fn view(&self) -> DiskUsage {
        DiskUsage {
            disk_id: self.disk_id@,
            pool_index: self.pool_index,
            set_index: self.set_index,
            disk_index: self.disk_index,
            last_update: self.last_update,
            snapshot_exists: self.snapshot_exists,
        }
    }
}

impl Duplicate for DiskUsageStatus {
    fn duplicate(&self) -> (r: Self) {
        DiskUsageStatus {
            disk_id: self.disk_id.clone(),
            pool_index: self.pool_index,
            set_index: self.set_index,
            disk_index: self.disk_index,
            last_update: self.last_update,
            snapshot_exists: self.snapshot_exists,
        }
    }
}

/// What a list of disk states stands for.
pub open spec fn disk_states(statuses: Seq<DiskUsageStatus>) -> Seq<DiskUsage> {
    Seq::new(statuses.len(), |i: int| statuses[i]@)
}

/// A copy of a list of disk states.
pub fn duplicate_statuses(statuses: &Vec<DiskUsageStatus>) -> (r: Vec<DiskUsageStatus>)
    ensures
        disk_states(r@) == disk_states(statuses@),
{
    let mut copy: Vec<DiskUsageStatus> = Vec::new();
    let mut i: usize = 0;
    while i < statuses.len()
        invariant
            i <= statuses@.len(),
            copy@.len() == i,
            forall|j: int| 0 <= j < i ==> (#[trigger] copy@[j])@ == statuses@[j]@,
        decreases statuses@.len() - i,
    {
        copy.push(statuses[i].duplicate());
        i = i + 1;
    }
    assert(disk_states(copy@) =~= disk_states(statuses@));
    copy
}

/// What a [`DataUsageInfo`] stands for.
#[verifier::ext_equal]
pub struct DataUsage {
    pub last_update: Option<Timestamp>,
    pub objects_total_count: u64,
    pub versions_total_count: u64,
    pub delete_markers_total_count: u64,
    pub objects_total_size: u64,
    pub replication_info: Map<Seq<char>, BucketTargetUsageInfo>,
    pub buckets_count: u64,
    pub buckets_usage: Map<Seq<char>, BucketUsage>,
    pub bucket_sizes: Map<Seq<char>, u64>,
    pub disk_usage_status: Seq<DiskUsage>,
}

/// The usage of an empty store, of which no snapshot was taken.
pub open spec fn no_data_usage() -> DataUsage {
    DataUsage {
        last_update: None,
        objects_total_count: 0,
        versions_total_count: 0,
        delete_markers_total_count: 0,
        objects_total_size: 0,
        replication_info: Map::empty(),
        buckets_count: 0,
        buckets_usage: Map::empty(),
        bucket_sizes: Map::empty(),
        disk_usage_status: Seq::empty(),
    }
}

/// The number of objects of all buckets together.
pub open spec fn total_objects(buckets: Map<Seq<char>, BucketUsage>) -> nat {
    name_map::sum_of(buckets, |u: BucketUsage| u.objects_count as nat)
}

/// The number of versions of all buckets together.
pub open spec fn total_versions(buckets: Map<Seq<char>, BucketUsage>) -> nat {
    name_map::sum_of(buckets, |u: BucketUsage| u.versions_count as nat)
}

/// The number of delete markers of all buckets together.
pub open spec fn total_delete_markers(buckets: Map<Seq<char>, BucketUsage>) -> nat {
    name_map::sum_of(buckets, |u: BucketUsage| u.delete_markers_count as nat)
}

/// The size of all buckets together.
pub open spec fn total_size(buckets: Map<Seq<char>, BucketUsage>) -> nat {
    name_map::sum_of(buckets, |u: BucketUsage| u.size as nat)
}

impl DataUsage {
    /// The same usage with its totals recomputed from its buckets.
    pub open spec fn with_totals(self) -> DataUsage {
        DataUsage {
            objects_total_count: saturate(total_objects(self.buckets_usage)),
            versions_total_count: saturate(total_versions(self.buckets_usage)),
            delete_markers_total_count: saturate(total_delete_markers(self.buckets_usage)),
            objects_total_size: saturate(total_size(self.buckets_usage)),
            ..self
        }
    }

    /// The same usage with the number of its buckets counted anew.
    pub open spec fn with_buckets_counted(self) -> DataUsage {
        DataUsage { buckets_count: saturate(self.buckets_usage.len()), ..self }
    }
}

/// Totals over the buckets of a map.
#[derive(Clone, Copy, Debug, PartialEq, Eq, Structural)]
pub struct UsageTotals {
    pub objects: u64,
    pub versions: u64,
    pub delete_markers: u64,
    pub size: u64,
}

/// Adds up the counts of all buckets.
pub fn sum_bucket_usages(buckets: &NameMap<BucketUsageInfo>) -> (r: UsageTotals)
    ensures
        buckets@.dom().finite(),
        r.objects == saturate(total_objects(buckets@)),
        r.versions == saturate(total_versions(buckets@)),
        r.delete_markers == saturate(total_delete_markers(buckets@)),
        r.size == saturate(total_size(buckets@)),
{
    let n = buckets.len();
    let ghost names = buckets.names();
    let mut totals = UsageTotals { objects: 0, versions: 0, delete_markers: 0, size: 0 };
    let mut i: usize = 0;
    while i < n
        invariant
            i <= n,
            n == buckets@.len(),
            names == buckets.names(),
            name_map::lists_names(names, buckets@),
            totals.objects == saturate(
                total_objects(name_map::first_entries(buckets@, names, i as nat)),
            ),
            totals.versions == saturate(
                total_versions(name_map::first_entries(buckets@, names, i as nat)),
            ),
            totals.delete_markers == saturate(
                total_delete_markers(name_map::first_entries(buckets@, names, i as nat)),
            ),
            totals.size == saturate(
                total_size(name_map::first_entries(buckets@, names, i as nat)),
            ),
        decreases n - i,
    {
        let usage = buckets.value_at(i);
        proof {
            let done = name_map::first_entries(buckets@, names, i as nat);
            name_map::lemma_first_entries(buckets@, names, i as nat);
            let k = names[i as int];
            name_map::lemma_sum_insert(
                done,
                |u: BucketUsage| u.objects_count as nat,
                k,
                usage@,
            );
            name_map::lemma_sum_insert(
                done,
                |u: BucketUsage| u.versions_count as nat,
                k,
                usage@,
            );
            name_map::lemma_sum_insert(
                done,
                |u: BucketUsage| u.delete_markers_count as nat,
                k,
                usage@,
            );
            name_map::lemma_sum_insert(done, |u: BucketUsage| u.size as nat, k, usage@);
        }
        totals = UsageTotals {
            objects: totals.objects.saturating_add(usage.objects_count),
            versions: totals.versions.saturating_add(usage.versions_count),
            delete_markers: totals.delete_markers.saturating_add(usage.delete_markers_count),
            size: totals.size.saturating_add(usage.size),
        };
        i = i + 1;
    }
    proof {
        name_map::lemma_first_entries(buckets@, names, n as nat);
    }
    totals
}

/// Usage counts of the whole store.
pub struct DataUsageInfo {
    /// When the snapshot was taken.
    pub last_update: Option<Timestamp>,
    pub objects_total_count: u64,
    pub versions_total_count: u64,
    pub delete_markers_total_count: u64,
    pub objects_total_size: u64,
    pub replication_info: NameMap<BucketTargetUsageInfo>,
    pub buckets_count: u64,
    pub buckets_usage: NameMap<BucketUsageInfo>,
    /// The sizes of the buckets alone, as older readers expect them.
    pub bucket_sizes: NameMap<u64>,
    pub disk_usage_status: Vec<DiskUsageStatus>,
}

impl View for DataUsageInfo {
    type V = DataUsage;

    open spec fn view(&self) -> DataUsage {
        DataUsage {
            last_update: self.last_update,
            objects_total_count: self.objects_total_count,
            versions_total_count: self.versions_total_count,
            delete_markers_total_count: self.delete_markers_total_count,
            objects_total_size: self.objects_total_size,
            replication_info: self.replication_info@,
            buckets_count: self.buckets_count,
            buckets_usage: self.buckets_usage@,
            bucket_sizes: self.bucket_sizes@,
            disk_usage_status: disk_states(self.disk_usage_status@),
        }
    }
}

impl Default for DataUsageInfo {
    fn default() -> (r: Self)
        ensures
            r@ == no_data_usage(),
    {
        let r = DataUsageInfo {
            last_update: None,
            objects_total_count: 0,
            versions_total_count: 0,
            delete_markers_total_count: 0,
            objects_total_size: 0,
            replication_info: NameMap::new(),
            buckets_count: 0,
            buckets_usage: NameMap::new(),
            bucket_sizes: NameMap::new(),
            disk_usage_status: Vec::new(),
        };
        assert(r@.disk_usage_status =~= Seq::empty());
        r
    }
}

impl Duplicate for DataUsageInfo {
    fn duplicate(&self) -> (r: Self) {
        DataUsageInfo {
            last_update: self.last_update,
            objects_total_count: self.objects_total_count,
            versions_total_count: self.versions_total_count,
            delete_markers_total_count: self.delete_markers_total_count,
            objects_total_size: self.objects_total_size,
            replication_info: self.replication_info.duplicate(),
            buckets_count: self.buckets_count,
            buckets_usage: self.buckets_usage.duplicate(),
            bucket_sizes: self.bucket_sizes.duplicate(),
            disk_usage_status: duplicate_statuses(&self.disk_usage_status),
        }
    }
}

impl Clone for DataUsageInfo {
    fn clone(&self) -> (r: Self)
        ensures
            r@ == self@,
    {
        self.duplicate()
    }
}

impl DataUsageInfo {
    /// Recomputes the totals from the buckets.
    pub fn calculate_totals(&mut self)
        ensures
            final(self)@ == old(self)@.with_totals(),
    {
        let totals = sum_bucket_usages(&self.buckets_usage);
        self.objects_total_count = totals.objects;
        self.versions_total_count = totals.versions;
        self.delete_markers_total_count = totals.delete_markers;
        self.objects_total_size = totals.size;
    }
}

/// When the snapshot was taken; one without a time counts as taken at the Unix epoch.
pub open spec fn updated_at(info: DataUsage) -> Timestamp {
    match info.last_update {
        Some(t) => t,
        None => Timestamp { nanos: 0 },
    }
}

/// When the snapshot was taken; one without a time counts as taken at the Unix epoch.
pub fn data_usage_info_updated_at(data_usage_info: &DataUsageInfo) -> (r: Timestamp)
    ensures
        r == updated_at(data_usage_info@),
{
    match data_usage_info.last_update {
        Some(t) => t,
        None => Timestamp::unix_epoch(),
    }
}

/// Counts the buckets anew.
pub fn set_buckets_count_from_usage(data_usage_info: &mut DataUsageInfo)
    ensures
        final(data_usage_info)@ == old(data_usage_info)@.with_buckets_counted(),
{
    let n = data_usage_info.buckets_usage.len();
    data_usage_info.buckets_count = n as u64;
}

} // verus!
