//! The usage of the store as the usage tree of a scanner shows it.

use crate::name_map;
use crate::name_map::{Duplicate, NameMap};
use crate::time::Timestamp;
use crate::usage;
use crate::usage::{BucketTargetUsageInfo, BucketUsage, BucketUsageInfo, DataUsage, DataUsageInfo};
use vstd::prelude::*;
use vstd::string::*;

verus! {

/// Replication counts of one target in a usage tree.
#[derive(Clone, Copy, Debug, PartialEq, Eq, Structural)]
pub struct ReplicationStats {
    pub pending_size: u64,
    pub replicated_size: u64,
    pub failed_size: u64,
    pub pending_count: u64,
    pub failed_count: u64,
    pub replicated_count: u64,
}

impl View for ReplicationStats {
    type V = ReplicationStats;

    open spec fn view(&self) -> ReplicationStats {
        *self
    }
}

/// What a [`ReplicationAllStats`] stands for.
#[verifier::ext_equal]
pub struct AllReplication {
    pub replica_size: u64,
    pub replica_count: u64,
    pub targets: Map<Seq<char>, ReplicationStats>,
}

/// Replication counts of a part of a usage tree.
pub struct ReplicationAllStats {
    pub replica_size: u64,
    pub replica_count: u64,
    /// The counts of each target, by its resource name.
    pub targets: NameMap<ReplicationStats>,
}

impl View for ReplicationAllStats {
    type V = AllReplication;

    open spec fn view(&self) -> AllReplication {
        AllReplication {
            replica_size: self.replica_size,
            replica_count: self.replica_count,
            targets: self.targets@,
        }
    }
}

/// What a [`TreeUsage`] stands for.
#[verifier::ext_equal]
pub struct SubtreeUsage {
    pub size: usize,
    pub objects: usize,
    pub versions: usize,
    pub delete_markers: usize,
    pub obj_sizes: Map<Seq<char>, u64>,
    pub obj_versions: Map<Seq<char>, u64>,
    pub replication_stats: Option<AllReplication>,
}

/// The usage of a whole part of a usage tree, with all that is below it.
pub struct TreeUsage {
    pub size: usize,
    pub objects: usize,
    pub versions: usize,
    pub delete_markers: usize,
    pub obj_sizes: NameMap<u64>,
    pub obj_versions: NameMap<u64>,
    pub replication_stats: Option<ReplicationAllStats>,
}

impl View for TreeUsage {
    type V = SubtreeUsage;

    open spec fn view(&self) -> SubtreeUsage {
        SubtreeUsage {
            size: self.size,
            objects: self.objects,
            versions: self.versions,
            delete_markers: self.delete_markers,
            obj_sizes: self.obj_sizes@,
            obj_versions: self.obj_versions@,
            replication_stats: match self.replication_stats {
                Some(stats) => Some(stats@),
                None => None,
            },
        }
    }
}

/// The counts of a target as they are kept for a bucket.
pub open spec fn as_target(stat: ReplicationStats) -> BucketTargetUsageInfo {
    BucketTargetUsageInfo {
        replication_pending_size: stat.pending_size,
        replicated_size: stat.replicated_size,
        replication_failed_size: stat.failed_size,
        replication_pending_count: stat.pending_count,
        replication_failed_count: stat.failed_count,
        replicated_count: stat.replicated_count,
        ..usage::no_target_usage()
    }
}

/// The counts of targets as they are kept for a bucket.
pub open spec fn as_targets(
    targets: Map<Seq<char>, ReplicationStats>,
) -> Map<Seq<char>, BucketTargetUsageInfo> {
    Map::new(|k: Seq<char>| targets.contains_key(k), |k: Seq<char>| as_target(targets[k]))
}

/// The usage of a bucket whose part of the tree comes to the given usage.
pub open spec fn as_bucket_usage(flat: SubtreeUsage) -> BucketUsage {
    let counted = BucketUsage {
        size: flat.size as u64,
        versions_count: flat.versions as u64,
        objects_count: flat.objects as u64,
        delete_markers_count: flat.delete_markers as u64,
        object_size_histogram: flat.obj_sizes,
        object_versions_histogram: flat.obj_versions,
        ..usage::no_bucket_usage()
    };
    match flat.replication_stats {
        Some(rs) => BucketUsage {
            replica_size: rs.replica_size,
            replica_count: rs.replica_count,
            replication_info: as_targets(rs.targets),
            ..counted
        },
        None => counted,
    }
}

/// The counts of targets as they are kept for a bucket.
fn targets_from_stats(targets: &NameMap<ReplicationStats>) -> (r: NameMap<BucketTargetUsageInfo>)
    ensures
        r@ == as_targets(targets@),
{
    let mut kept: NameMap<BucketTargetUsageInfo> = NameMap::new();
    let n = targets.len();
    let ghost names = targets.names();
    assert(as_targets(Map::empty()) =~= Map::empty());
    let mut i: usize = 0;
    while i < n
        invariant
            i <= n,
            n == targets@.len(),
            names == targets.names(),
            name_map::lists_names(names, targets@),
            kept@ == as_targets(name_map::first_entries(targets@, names, i as nat)),
        decreases n - i,
    {
        let ghost next = name_map::first_entries(targets@, names, (i + 1) as nat);
        let stat = targets.value_at(i);
        let mut target = BucketTargetUsageInfo::default();
        target.replication_pending_size = stat.pending_size;
        target.replicated_size = stat.replicated_size;
        target.replication_failed_size = stat.failed_size;
        target.replication_pending_count = stat.pending_count;
        target.replication_failed_count = stat.failed_count;
        target.replicated_count = stat.replicated_count;
        kept.insert(targets.name_at(i).clone(), target);
        assert(kept@ =~= as_targets(next));
        i = i + 1;
    }
    proof {
        name_map::lemma_first_entries(targets@, names, n as nat);
    }
    kept
}

/// The usage of a bucket whose part of the tree comes to the given usage.
pub fn bucket_usage_from_tree(flat: &TreeUsage) -> (r: BucketUsageInfo)
    ensures
        r@ == as_bucket_usage(flat@),
{
    let mut bui = BucketUsageInfo::default();
    bui.size = flat.size as u64;
    bui.versions_count = flat.versions as u64;
    bui.objects_count = flat.objects as u64;
    bui.delete_markers_count = flat.delete_markers as u64;
    bui.object_size_histogram = flat.obj_sizes.duplicate();
    bui.object_versions_histogram = flat.obj_versions.duplicate();
    match &flat.replication_stats {
        Some(rs) => {
            bui.replica_size = rs.replica_size;
            bui.replica_count = rs.replica_count;
            bui.replication_info = targets_from_stats(&rs.targets);
        },
        None => {},
    }
    bui
}

/// A bucket, and what its part of the tree comes to, if it has one.
pub struct BucketTree {
    pub name: String,
    pub flat: Option<TreeUsage>,
}

/// The usage of the buckets that have a part of the tree; the last counts of those with one name.
pub open spec fn tree_buckets(buckets: Seq<BucketTree>) -> Map<Seq<char>, BucketUsage>
    decreases buckets.len(),
{
    if buckets.len() == 0 {
        Map::empty()
    } else {
        let before = tree_buckets(buckets.drop_last());
        match buckets.last().flat {
            Some(flat) => before.insert(buckets.last().name@, as_bucket_usage(flat@)),
            None => before,
        }
    }
}

/// The root of a usage tree.
pub struct TreeRoot {
    /// What the whole tree comes to.
    pub flat: TreeUsage,
    /// How many parts are directly below the root.
    pub children: usize,
}

/// The usage of the store as a tree shows it: the totals of the tree, and the usage of each bucket
/// in it. A tree without the root counts as empty.
pub fn cache_to_data_usage_info(
    last_update: Option<Timestamp>,
    root: Option<TreeRoot>,
    buckets: &Vec<BucketTree>,
) -> (r: DataUsageInfo)
    ensures
        r@ == match root {
            Some(root) => DataUsage {
                last_update,
                objects_total_count: root.flat.objects as u64,
                versions_total_count: root.flat.versions as u64,
                delete_markers_total_count: root.flat.delete_markers as u64,
                objects_total_size: root.flat.size as u64,
                buckets_count: root.children as u64,
                buckets_usage: tree_buckets(buckets@),
                ..usage::no_data_usage()
            },
            None => usage::no_data_usage(),
        },
{
    let mut info = DataUsageInfo::default();
    let root = match root {
        Some(root) => root,
        None => {
            return info;
        },
    };
    let mut buckets_usage: NameMap<BucketUsageInfo> = NameMap::new();
    let mut i: usize = 0;
    while i < buckets.len()
        invariant
            i <= buckets@.len(),
            buckets_usage@ == tree_buckets(buckets@.take(i as int)),
        decreases buckets@.len() - i,
    {
        let bucket = &buckets[i];
        proof {
            assert(buckets@.take(i + 1).drop_last() =~= buckets@.take(i as int));
            assert(buckets@.take(i + 1).last() == buckets@[i as int]);
        }
        match &bucket.flat {
            Some(flat) => {
                buckets_usage.insert(bucket.name.clone(), bucket_usage_from_tree(flat));
            },
            None => {},
        }
        i = i + 1;
    }
    assert(buckets@.take(i as int) =~= buckets@);
    info.last_update = last_update;
    info.objects_total_count = root.flat.objects as u64;
    info.versions_total_count = root.flat.versions as u64;
    info.delete_markers_total_count = root.flat.delete_markers as u64;
    info.objects_total_size = root.flat.size as u64;
    info.buckets_count = root.children as u64;
    info.buckets_usage = buckets_usage;
    info
}

/// Whether or not a bucket has replication counts, its size, its numbers of objects, versions and
/// delete markers, and its distributions are those of its part of the tree.
pub proof fn law_bucket_has_the_counts_of_its_tree(flat: SubtreeUsage)
    ensures
        ({
            let u = as_bucket_usage(flat);
            &&& u.size == flat.size
            &&& u.objects_count == flat.objects
            &&& u.versions_count == flat.versions
            &&& u.delete_markers_count == flat.delete_markers
            &&& u.object_size_histogram == flat.obj_sizes
            &&& u.object_versions_histogram == flat.obj_versions
        }),
{
}

/// The replication counts of a bucket are those of its part of the tree: the replicas, and for each
/// target its six counts under its name. Without such counts there are none. What older writers kept
/// per bucket is never there.
pub proof fn law_bucket_has_the_replication_of_its_tree(flat: SubtreeUsage, target: Seq<char>)
    ensures
        ({
            let u = as_bucket_usage(flat);
            let kept = u.replication_info[target];
            &&& u.replication_pending_size_v1 == 0
            &&& u.replication_failed_size_v1 == 0
            &&& u.replicated_size_v1 == 0
            &&& u.replication_pending_count_v1 == 0
            &&& u.replication_failed_count_v1 == 0
            &&& flat.replication_stats matches Some(rs) ==> {
                let stat = rs.targets[target];
                &&& u.replica_size == rs.replica_size
                &&& u.replica_count == rs.replica_count
                &&& u.replication_info.contains_key(target) <==> rs.targets.contains_key(target)
                &&& rs.targets.contains_key(target) ==> {
                    &&& kept.replication_pending_size == stat.pending_size
                    &&& kept.replicated_size == stat.replicated_size
                    &&& kept.replication_failed_size == stat.failed_size
                    &&& kept.replication_pending_count == stat.pending_count
                    &&& kept.replication_failed_count == stat.failed_count
                    &&& kept.replicated_count == stat.replicated_count
                    &&& kept.replica_size == 0
                }
            }
            &&& flat.replication_stats is None ==> {
                &&& u.replica_size == 0
                &&& u.replica_count == 0
                &&& !u.replication_info.contains_key(target)
            }
        }),
{
}

/// Each bucket has the usage of its own part of the tree, if it has one, and the others keep theirs.
/// Of several with one name the last counts, and one without a part of the tree changes nothing.
pub proof fn law_each_bucket_has_its_own_tree(
    buckets: Seq<BucketTree>,
    bucket: BucketTree,
    other: Seq<char>,
)
    requires
        other != bucket.name@,
    ensures
        ({
            let before = tree_buckets(buckets);
            let after = tree_buckets(buckets.push(bucket));
            &&& bucket.flat is None ==> after == before
            &&& bucket.flat matches Some(flat) ==> {
                &&& after.contains_key(bucket.name@)
                &&& after[bucket.name@] == as_bucket_usage(flat@)
                &&& after.contains_key(other) <==> before.contains_key(other)
                &&& after[other] == before[other]
            }
        }),
        !tree_buckets(Seq::empty()).contains_key(other),
{
    assert(buckets.push(bucket).drop_last() =~= buckets);
}

/// A part of a tree stands for the counts that are in it.
pub proof fn law_tree_shows_its_counts(tree: TreeUsage)
    ensures
        tree@.size == tree.size,
        tree@.objects == tree.objects,
        tree@.versions == tree.versions,
        tree@.delete_markers == tree.delete_markers,
        tree@.obj_sizes == tree.obj_sizes@,
        tree@.obj_versions == tree.obj_versions@,
        tree.replication_stats is None ==> tree@.replication_stats is None,
        tree.replication_stats matches Some(stats) ==> {
            &&& tree@.replication_stats is Some
            &&& tree@.replication_stats->0.replica_size == stats.replica_size
            &&& tree@.replication_stats->0.replica_count == stats.replica_count
            &&& tree@.replication_stats->0.targets == stats.targets@
        },
{
}

} // verus!
