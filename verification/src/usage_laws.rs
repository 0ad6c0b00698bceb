//! What holds of usage counts and of their sums.

use crate::name_map;
use crate::time::Timestamp;
use crate::usage;
use crate::usage::{
    BucketTargetUsageInfo, BucketUsage, BucketUsageInfo, DataUsage, DataUsageInfo, DiskUsageStatus,
};
use vstd::prelude::*;

verus! {

/// `sum` is what `a` and `b` come to, or the largest count if they come to more than that.
pub open spec fn adds_up(a: u64, b: u64, sum: u64) -> bool {
    if a + b <= u64::MAX {
        sum == a + b
    } else {
        sum == u64::MAX
    }
}

/// What `m` holds under `k`, or zero if it holds nothing there.
pub open spec fn count_at(m: Map<Seq<char>, u64>, k: Seq<char>) -> u64 {
    if m.contains_key(k) {
        m[k]
    } else {
        0
    }
}

/// Under each name `sums` holds what `a` and `b` hold there together.
pub open spec fn counts_add_up(
    a: Map<Seq<char>, u64>,
    b: Map<Seq<char>, u64>,
    sums: Map<Seq<char>, u64>,
) -> bool {
    &&& forall|k: Seq<char>| #[trigger]
        sums.contains_key(k) <==> a.contains_key(k) || b.contains_key(k)
    &&& forall|k: Seq<char>| adds_up(count_at(a, k), count_at(b, k), #[trigger] count_at(sums, k))
}

/// Each of the seven counts of `sum` is what `a` and `b` have together.
pub open spec fn targets_add_up(
    a: BucketTargetUsageInfo,
    b: BucketTargetUsageInfo,
    sum: BucketTargetUsageInfo,
) -> bool {
    &&& adds_up(
        a.replication_pending_size,
        b.replication_pending_size,
        sum.replication_pending_size,
    )
    &&& adds_up(a.replication_failed_size, b.replication_failed_size, sum.replication_failed_size)
    &&& adds_up(a.replicated_size, b.replicated_size, sum.replicated_size)
    &&& adds_up(a.replica_size, b.replica_size, sum.replica_size)
    &&& adds_up(
        a.replication_pending_count,
        b.replication_pending_count,
        sum.replication_pending_count,
    )
    &&& adds_up(
        a.replication_failed_count,
        b.replication_failed_count,
        sum.replication_failed_count,
    )
    &&& adds_up(a.replicated_count, b.replicated_count, sum.replicated_count)
}

/// A count is kept as it is unless it is too large, and then as the largest that can be kept.
pub proof fn law_count_is_kept_up_to_the_limit(n: nat)
    ensures
        n <= u64::MAX ==> usage::saturate(n) == n,
        n > u64::MAX ==> usage::saturate(n) == u64::MAX,
{
}

/// Merging the replication counts of a target adds up each of them.
pub proof fn law_target_counts_add_up(a: BucketTargetUsageInfo, b: BucketTargetUsageInfo)
    ensures
        targets_add_up(a, b, usage::merged_target(a, b)),
{
}

/// Merging the usage of a bucket adds up each of its counts, each class of both distributions, and
/// the counts of each replication target; nothing that only one side has is lost or changed.
pub proof fn law_bucket_counts_add_up(a: BucketUsage, b: BucketUsage)
    ensures
        ({
            let sum = usage::merged_usage(a, b);
            &&& adds_up(a.size, b.size, sum.size)
            &&& adds_up(a.objects_count, b.objects_count, sum.objects_count)
            &&& adds_up(a.versions_count, b.versions_count, sum.versions_count)
            &&& adds_up(a.delete_markers_count, b.delete_markers_count, sum.delete_markers_count)
            &&& counts_add_up(
                a.object_size_histogram,
                b.object_size_histogram,
                sum.object_size_histogram,
            )
            &&& counts_add_up(
                a.object_versions_histogram,
                b.object_versions_histogram,
                sum.object_versions_histogram,
            )
            &&& adds_up(a.replica_size, b.replica_size, sum.replica_size)
            &&& adds_up(a.replica_count, b.replica_count, sum.replica_count)
            &&& adds_up(
                a.replication_pending_size_v1,
                b.replication_pending_size_v1,
                sum.replication_pending_size_v1,
            )
            &&& adds_up(
                a.replication_failed_size_v1,
                b.replication_failed_size_v1,
                sum.replication_failed_size_v1,
            )
            &&& adds_up(a.replicated_size_v1, b.replicated_size_v1, sum.replicated_size_v1)
            &&& adds_up(
                a.replication_pending_count_v1,
                b.replication_pending_count_v1,
                sum.replication_pending_count_v1,
            )
            &&& adds_up(
                a.replication_failed_count_v1,
                b.replication_failed_count_v1,
                sum.replication_failed_count_v1,
            )
        }),
{
}

/// Merging the usage of a bucket keeps every replication target of either side: one that both have
/// with its counts added up, one that only one has as it is.
pub proof fn law_bucket_targets_add_up(a: BucketUsage, b: BucketUsage, target: Seq<char>)
    ensures
        ({
            let x = a.replication_info;
            let y = b.replication_info;
            let sums = usage::merged_usage(a, b).replication_info;
            &&& sums.contains_key(target) <==> x.contains_key(target) || y.contains_key(target)
            &&& x.contains_key(target) && y.contains_key(target) ==> targets_add_up(
                x[target],
                y[target],
                sums[target],
            )
            &&& x.contains_key(target) && !y.contains_key(target) ==> sums[target] == x[target]
            &&& !x.contains_key(target) && y.contains_key(target) ==> sums[target] == y[target]
        }),
{
}

/// Merging with a bucket that holds nothing changes nothing, and so for a target.
pub proof fn law_nothing_adds_nothing(u: BucketUsage, target: BucketTargetUsageInfo)
    ensures
        usage::merged_usage(u, usage::no_bucket_usage()) == u,
        usage::merged_usage(usage::no_bucket_usage(), u) == u,
        usage::merged_target(target, usage::no_target_usage()) == target,
{
    let none = usage::no_bucket_usage();
    let x = usage::merged_usage(u, none);
    assert(x.object_size_histogram =~= u.object_size_histogram);
    assert(x.object_versions_histogram =~= u.object_versions_histogram);
    assert(x.replication_info =~= u.replication_info);
    let y = usage::merged_usage(none, u);
    assert(y.object_size_histogram =~= u.object_size_histogram);
    assert(y.object_versions_histogram =~= u.object_versions_histogram);
    assert(y.replication_info =~= u.replication_info);
}

/// A new bucket adds its own counts to the sums over all buckets, whatever it holds.
pub proof fn law_new_bucket_adds_its_counts(
    buckets: Map<Seq<char>, BucketUsage>,
    bucket: Seq<char>,
    u: BucketUsage,
)
    requires
        buckets.dom().finite(),
        !buckets.contains_key(bucket),
    ensures
        usage::total_objects(buckets.insert(bucket, u)) == usage::total_objects(buckets)
            + u.objects_count,
        usage::total_versions(buckets.insert(bucket, u)) == usage::total_versions(buckets)
            + u.versions_count,
        usage::total_delete_markers(buckets.insert(bucket, u)) == usage::total_delete_markers(
            buckets,
        ) + u.delete_markers_count,
        usage::total_size(buckets.insert(bucket, u)) == usage::total_size(buckets) + u.size,
        usage::total_objects(Map::empty()) == 0,
        usage::total_versions(Map::empty()) == 0,
        usage::total_delete_markers(Map::empty()) == 0,
        usage::total_size(Map::empty()) == 0,
{
    name_map::lemma_sum_insert(buckets, |v: BucketUsage| v.objects_count as nat, bucket, u);
    name_map::lemma_sum_insert(buckets, |v: BucketUsage| v.versions_count as nat, bucket, u);
    name_map::lemma_sum_insert(buckets, |v: BucketUsage| v.delete_markers_count as nat, bucket, u);
    name_map::lemma_sum_insert(buckets, |v: BucketUsage| v.size as nat, bucket, u);
}

/// The recomputed totals of the store grow by the counts of each bucket that is added, from zero
/// for a store without buckets.
pub proof fn law_totals_grow_with_buckets(info: DataUsage, bucket: Seq<char>, u: BucketUsage)
    requires
        info.buckets_usage.dom().finite(),
        !info.buckets_usage.contains_key(bucket),
    ensures
        ({
            let before = info.with_totals();
            let after = DataUsage {
                buckets_usage: info.buckets_usage.insert(bucket, u),
                ..info
            }.with_totals();
            &&& adds_up(before.objects_total_count, u.objects_count, after.objects_total_count)
            &&& adds_up(before.versions_total_count, u.versions_count, after.versions_total_count)
            &&& adds_up(
                before.delete_markers_total_count,
                u.delete_markers_count,
                after.delete_markers_total_count,
            )
            &&& adds_up(before.objects_total_size, u.size, after.objects_total_size)
        }),
        ({
            let none = DataUsage { buckets_usage: Map::empty(), ..info }.with_totals();
            &&& none.objects_total_count == 0
            &&& none.versions_total_count == 0
            &&& none.delete_markers_total_count == 0
            &&& none.objects_total_size == 0
        }),
{
    law_new_bucket_adds_its_counts(info.buckets_usage, bucket, u);
}

/// Recomputing the totals touches nothing else, and neither does counting the buckets.
pub proof fn law_recomputing_leaves_the_rest(info: DataUsage)
    ensures
        ({
            let after = info.with_totals();
            &&& after.last_update == info.last_update
            &&& after.replication_info == info.replication_info
            &&& after.buckets_count == info.buckets_count
            &&& after.buckets_usage == info.buckets_usage
            &&& after.bucket_sizes == info.bucket_sizes
            &&& after.disk_usage_status == info.disk_usage_status
        }),
        ({
            let after = info.with_buckets_counted();
            &&& after.last_update == info.last_update
            &&& after.objects_total_count == info.objects_total_count
            &&& after.versions_total_count == info.versions_total_count
            &&& after.delete_markers_total_count == info.delete_markers_total_count
            &&& after.objects_total_size == info.objects_total_size
            &&& after.replication_info == info.replication_info
            &&& after.buckets_usage == info.buckets_usage
            &&& after.bucket_sizes == info.bucket_sizes
            &&& after.disk_usage_status == info.disk_usage_status
        }),
{
}

/// The number of buckets is that of the buckets with a usage.
pub proof fn law_buckets_are_counted(info: DataUsage)
    ensures
        info.buckets_usage.len() <= u64::MAX ==> info.with_buckets_counted().buckets_count
            == info.buckets_usage.len(),
        info.buckets_usage.len() > u64::MAX ==> info.with_buckets_counted().buckets_count
            == u64::MAX,
{
}

/// A store of which nothing is known has no time, no counts, and no buckets.
pub proof fn law_empty_store_has_nothing()
    ensures
        ({
            let none = usage::no_data_usage();
            &&& none.last_update is None
            &&& none.objects_total_count == 0
            &&& none.versions_total_count == 0
            &&& none.delete_markers_total_count == 0
            &&& none.objects_total_size == 0
            &&& none.buckets_count == 0
            &&& none.disk_usage_status.len() == 0
            &&& forall|k: Seq<char>| !#[trigger] none.replication_info.contains_key(k)
            &&& forall|k: Seq<char>| !#[trigger] none.buckets_usage.contains_key(k)
            &&& forall|k: Seq<char>| !#[trigger] none.bucket_sizes.contains_key(k)
        }),
{
}

/// A snapshot is recognised by four counts: usages that differ in any of them do not match, and
/// usages that differ in nothing but distributions and replication counts do.
pub proof fn law_four_counts_decide_a_match(a: BucketUsage, b: BucketUsage)
    ensures
        a.size != b.size ==> !usage::counts_match(a, b),
        a.objects_count != b.objects_count ==> !usage::counts_match(a, b),
        a.versions_count != b.versions_count ==> !usage::counts_match(a, b),
        a.delete_markers_count != b.delete_markers_count ==> !usage::counts_match(a, b),
        usage::counts_match(
            a,
            BucketUsage {
                size: a.size,
                objects_count: a.objects_count,
                versions_count: a.versions_count,
                delete_markers_count: a.delete_markers_count,
                ..b
            },
        ),
{
}

/// The time of a snapshot is the one that it states; one that states none is taken to be of the
/// Unix epoch.
pub proof fn law_snapshot_time_is_the_stated_one(info: DataUsage, at: Timestamp)
    ensures
        info.last_update == Some(at) ==> usage::updated_at(info) == at,
        info.last_update is None ==> usage::updated_at(info).nanos == 0,
{
}

/// The usage that a [`BucketUsageInfo`] stands for has the counts that are in it.
pub proof fn law_bucket_usage_shows_its_counts(info: BucketUsageInfo)
    ensures
        info@.size == info.size,
        info@.objects_count == info.objects_count,
        info@.versions_count == info.versions_count,
        info@.delete_markers_count == info.delete_markers_count,
        info@.object_size_histogram == info.object_size_histogram@,
        info@.object_versions_histogram == info.object_versions_histogram@,
        info@.replica_size == info.replica_size,
        info@.replica_count == info.replica_count,
        info@.replication_info == info.replication_info@,
        info@.replication_pending_size_v1 == info.replication_pending_size_v1,
        info@.replication_failed_size_v1 == info.replication_failed_size_v1,
        info@.replicated_size_v1 == info.replicated_size_v1,
        info@.replication_pending_count_v1 == info.replication_pending_count_v1,
        info@.replication_failed_count_v1 == info.replication_failed_count_v1,
{
}

/// The usage that a [`DataUsageInfo`] stands for has the counts, the buckets and the disks that are
/// in it.
pub proof fn law_data_usage_shows_its_counts(info: DataUsageInfo)
    ensures
        info@.last_update == info.last_update,
        info@.objects_total_count == info.objects_total_count,
        info@.versions_total_count == info.versions_total_count,
        info@.delete_markers_total_count == info.delete_markers_total_count,
        info@.objects_total_size == info.objects_total_size,
        info@.replication_info == info.replication_info@,
        info@.buckets_count == info.buckets_count,
        info@.buckets_usage == info.buckets_usage@,
        info@.bucket_sizes == info.bucket_sizes@,
        info@.disk_usage_status.len() == info.disk_usage_status@.len(),
        forall|i: int|
            0 <= i < info.disk_usage_status@.len() ==> #[trigger] info@.disk_usage_status[i]
                == info.disk_usage_status@[i]@,
{
}

/// The state that a [`DiskUsageStatus`] stands for is the one that is in it.
pub proof fn law_disk_state_shows_what_is_known(status: DiskUsageStatus)
    ensures
        status@.disk_id == status.disk_id@,
        status@.pool_index == status.pool_index,
        status@.set_index == status.set_index,
        status@.disk_index == status.disk_index,
        status@.last_update == status.last_update,
        status@.snapshot_exists == status.snapshot_exists,
{
}

} // verus!
