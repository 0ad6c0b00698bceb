//! What holds of the usage of several disks together.

use crate::name_map;
use crate::snapshot;
use crate::snapshot::{Aggregation, DiskPlace, LocalUsageSnapshot};
use crate::time::Timestamp;
use crate::usage;
use crate::usage::{BucketUsage, DataUsage, DiskUsage};
use crate::usage_laws;
use vstd::prelude::*;

verus! {

/// A usage that agrees with itself: its totals are those of its buckets, and the sizes of the
/// buckets stand twice.
pub open spec fn agrees(info: DataUsage) -> bool {
    &&& info.buckets_usage.dom().finite()
    &&& info.with_totals() == info
    &&& info.bucket_sizes == snapshot::sizes(info.buckets_usage)
}

proof fn lemma_merged_finite(a: Map<Seq<char>, BucketUsage>, b: Map<Seq<char>, BucketUsage>)
    requires
        a.dom().finite(),
        b.dom().finite(),
    ensures
        snapshot::merged_buckets(a, b).dom().finite(),
{
    assert(snapshot::merged_buckets(a, b).dom() =~= a.dom().union(b.dom()));
}

/// A count that is added up when usages are merged comes to the same over the merged buckets.
proof fn lemma_merged_sum(
    a: Map<Seq<char>, BucketUsage>,
    b: Map<Seq<char>, BucketUsage>,
    f: spec_fn(BucketUsage) -> nat,
)
    requires
        a.dom().finite(),
        b.dom().finite(),
        forall|x: BucketUsage, y: BucketUsage| #[trigger]
            f(usage::merged_usage(x, y)) == usage::saturate(f(x) + f(y)),
    ensures
        usage::saturate(name_map::sum_of(snapshot::merged_buckets(a, b), f)) == usage::saturate(
            name_map::sum_of(a, f) + name_map::sum_of(b, f),
        ),
    decreases b.dom().len(),
{
    if b.dom().len() == 0 {
        assert(b.dom() =~= Set::empty());
        assert(snapshot::merged_buckets(a, b) =~= a);
    } else {
        let k = b.dom().choose();
        assert(b.contains_key(k));
        let fewer = b.remove(k);
        lemma_merged_sum(a, fewer, f);
        name_map::lemma_sum_remove(b, f, k);
        let all = snapshot::merged_buckets(a, b);
        let before = snapshot::merged_buckets(a, fewer);
        lemma_merged_finite(a, b);
        lemma_merged_finite(a, fewer);
        name_map::lemma_sum_remove(all, f, k);
        assert(all.remove(k) =~= before.remove(k));
        if a.contains_key(k) {
            name_map::lemma_sum_remove(before, f, k);
            assert(all[k] == usage::merged_usage(a[k], b[k]));
        } else {
            assert(before.remove(k) =~= before);
        }
    }
}

/// Adding up disks keeps the totals right: the totals of several snapshots, added one by one, are
/// those of the buckets that result, and so are the sizes. Nothing has to be recomputed in the end.
pub proof fn law_aggregate_agrees(info: DataUsage, buckets: Map<Seq<char>, BucketUsage>)
    requires
        buckets.dom().finite(),
    ensures
        agrees(usage::no_data_usage()),
        agrees(info) ==> agrees(snapshot::with_snapshot(info, buckets)),
{
    let none = usage::no_data_usage();
    assert(none.bucket_sizes =~= snapshot::sizes(none.buckets_usage));
    if agrees(info) {
        let after = snapshot::with_snapshot(info, buckets);
        lemma_merged_finite(info.buckets_usage, buckets);
        lemma_merged_sum(
            info.buckets_usage,
            buckets,
            |u: BucketUsage| u.objects_count as nat,
        );
        lemma_merged_sum(
            info.buckets_usage,
            buckets,
            |u: BucketUsage| u.versions_count as nat,
        );
        lemma_merged_sum(
            info.buckets_usage,
            buckets,
            |u: BucketUsage| u.delete_markers_count as nat,
        );
        lemma_merged_sum(info.buckets_usage, buckets, |u: BucketUsage| u.size as nat);
        assert(info.with_totals() == info);
        assert(after.with_totals() == after);
        assert(after.bucket_sizes =~= snapshot::sizes(after.buckets_usage));
    }
}

/// Two further usages of a bucket can be merged in either order.
pub proof fn law_usages_merge_in_any_order(u: BucketUsage, a: BucketUsage, b: BucketUsage)
    ensures
        usage::merged_usage(usage::merged_usage(u, a), b) == usage::merged_usage(
            usage::merged_usage(u, b),
            a,
        ),
        usage::merged_usage(a, b) == usage::merged_usage(b, a),
{
    let ab = usage::merged_usage(usage::merged_usage(u, a), b);
    let ba = usage::merged_usage(usage::merged_usage(u, b), a);
    assert(ab.object_size_histogram =~= ba.object_size_histogram);
    assert(ab.object_versions_histogram =~= ba.object_versions_histogram);
    assert(ab.replication_info =~= ba.replication_info);
    let x = usage::merged_usage(a, b);
    let y = usage::merged_usage(b, a);
    assert(x.object_size_histogram =~= y.object_size_histogram);
    assert(x.object_versions_histogram =~= y.object_versions_histogram);
    assert(x.replication_info =~= y.replication_info);
}

/// It makes no difference in which order two disks are counted.
pub proof fn law_disks_count_in_any_order(
    info: DataUsage,
    a: Map<Seq<char>, BucketUsage>,
    b: Map<Seq<char>, BucketUsage>,
)
    ensures
        snapshot::with_snapshot(snapshot::with_snapshot(info, a), b) == snapshot::with_snapshot(
            snapshot::with_snapshot(info, b),
            a,
        ),
{
    let ab = snapshot::with_snapshot(snapshot::with_snapshot(info, a), b);
    let ba = snapshot::with_snapshot(snapshot::with_snapshot(info, b), a);
    assert forall|k: Seq<char>| #[trigger] ab.buckets_usage.contains_key(k) implies ab.buckets_usage[k]
        == ba.buckets_usage[k] by {
        if a.contains_key(k) && b.contains_key(k) {
            law_usages_merge_in_any_order(info.buckets_usage[k], a[k], b[k]);
        }
    }
    assert(ab.buckets_usage =~= ba.buckets_usage);
    assert(ab.bucket_sizes =~= ba.bucket_sizes);
}

/// A disk that is looked at, and the snapshot that is read of it if it counts.
pub struct DiskSighting {
    pub is_local: bool,
    pub has_id: bool,
    pub endpoint: Seq<char>,
    pub root: Seq<char>,
    pub place: DiskPlace,
    pub snapshot: Result<Option<LocalUsageSnapshot>, String>,
}

impl DiskSighting {
    /// The name by which the disk is known again.
    pub open spec fn key(self) -> Seq<char> {
        snapshot::key_of(self.endpoint, self.root)
    }

    /// Whether the disk is a local one with an identity.
    pub open spec fn qualifies(self) -> bool {
        self.is_local && self.has_id
    }

    /// The snapshot of the disk, if there is one that can be read.
    pub open spec fn readable(self) -> Option<LocalUsageSnapshot> {
        match self.snapshot {
            Ok(found) => found,
            Err(_) => None,
        }
    }
}

/// The state after one more disk was looked at, and counted if it counts.
pub open spec fn after_disk(a: Aggregation, d: DiskSighting) -> Aggregation {
    let seen = a.having_seen(d.is_local, d.has_id, d.key());
    if a.admits(d.is_local, d.has_id, d.key()) {
        seen.with_disk(d.place, d.snapshot)
    } else {
        seen
    }
}

/// The state after all disks were looked at, one after the other.
pub open spec fn after_disks(disks: Seq<DiskSighting>) -> Aggregation
    decreases disks.len(),
{
    if disks.len() == 0 {
        snapshot::no_disks()
    } else {
        after_disk(after_disks(disks.drop_last()), disks.last())
    }
}

/// There is a local disk with an identity and the given key among the disks.
pub open spec fn has_key(disks: Seq<DiskSighting>, key: Seq<char>) -> bool {
    exists|i: int| 0 <= i < disks.len() && (#[trigger] disks[i]).qualifies() && disks[i].key() == key
}

/// The local disks with an identity, in order, of each key only the first.
pub open spec fn counted_disks(disks: Seq<DiskSighting>) -> Seq<DiskSighting>
    decreases disks.len(),
{
    if disks.len() == 0 {
        Seq::empty()
    } else {
        let before = counted_disks(disks.drop_last());
        if disks.last().qualifies() && !has_key(disks.drop_last(), disks.last().key()) {
            before.push(disks.last())
        } else {
            before
        }
    }
}

/// The states of disks.
pub open spec fn states_of(disks: Seq<DiskSighting>) -> Seq<DiskUsage> {
    Seq::new(disks.len(), |i: int| snapshot::disk_state(disks[i].place, disks[i].snapshot))
}

/// The usage of the snapshots that could be read, added up one by one.
pub open spec fn merged_disks(disks: Seq<DiskSighting>) -> DataUsage
    decreases disks.len(),
{
    if disks.len() == 0 {
        usage::no_data_usage()
    } else {
        let before = merged_disks(disks.drop_last());
        match disks.last().readable() {
            Some(s) => snapshot::with_snapshot(before, s.buckets_usage@),
            None => before,
        }
    }
}

/// When the snapshot of a disk was taken, if there is one that can be read and it says so.
pub open spec fn update_of(d: DiskSighting) -> Option<Timestamp> {
    match d.readable() {
        Some(s) => s.last_update,
        None => None,
    }
}

/// `latest` is the latest time at which a snapshot of the disks was taken, or `None` if no time is
/// known of any.
pub open spec fn is_latest(latest: Option<Timestamp>, disks: Seq<DiskSighting>) -> bool {
    match latest {
        Some(t) => {
            &&& exists|i: int| 0 <= i < disks.len() && update_of(#[trigger] disks[i]) == Some(t)
            &&& forall|i: int|
                0 <= i < disks.len() && update_of(#[trigger] disks[i]) is Some ==> update_of(
                    disks[i],
                )->0.nanos <= t.nanos
        },
        None => forall|i: int| 0 <= i < disks.len() ==> update_of(#[trigger] disks[i]) is None,
    }
}

proof fn lemma_processed(disks: Seq<DiskSighting>, key: Seq<char>)
    ensures
        after_disks(disks).processed.contains(key) <==> has_key(disks, key),
    decreases disks.len(),
{
    if disks.len() > 0 {
        let before = disks.drop_last();
        let d = disks.last();
        lemma_processed(before, key);
        if has_key(before, key) {
            let i = choose|i: int|
                0 <= i < before.len() && (#[trigger] before[i]).qualifies() && before[i].key() == key;
            assert(disks[i] == before[i]);
        }
        if d.qualifies() && d.key() == key {
            assert(disks[disks.len() - 1] == d);
        }
        if has_key(disks, key) {
            let i = choose|i: int|
                0 <= i < disks.len() && (#[trigger] disks[i]).qualifies() && disks[i].key() == key;
            if i < before.len() {
                assert(before[i] == disks[i]);
            }
        }
    }
}

proof fn lemma_latest(
    latest: Option<Timestamp>,
    disks: Seq<DiskSighting>,
    d: DiskSighting,
)
    requires
        is_latest(latest, disks),
    ensures
        is_latest(snapshot::later(latest, update_of(d)), disks.push(d)),
{
    let all = disks.push(d);
    let n = disks.len() as int;
    assert(all[n] == d);
    assert forall|i: int| 0 <= i < n implies all[i] == #[trigger] disks[i] by {}
    let next = snapshot::later(latest, update_of(d));
    if latest is Some {
        let i = choose|i: int| 0 <= i < disks.len() && update_of(#[trigger] disks[i]) == latest;
        assert(update_of(all[i]) == latest);
    }
    assert forall|i: int| 0 <= i < all.len() && update_of(#[trigger] all[i]) is Some implies next is Some
        && update_of(all[i])->0.nanos <= next->0.nanos by {
        if i < n {
            assert(all[i] == disks[i]);
        }
    }
}

/// A run over all disks counts each disk once: there is one state for each local disk with an
/// identity, in order, and only for the first with its endpoint and root. A state says that there
/// is a snapshot exactly where one was read. The usage is that of the snapshots that were read, and
/// its time is the latest of theirs.
pub proof fn law_each_disk_counts_once(disks: Seq<DiskSighting>)
    ensures
        ({
            let counted = counted_disks(disks);
            let total = after_disks(disks).total();
            &&& total.disk_usage_status == states_of(counted)
            &&& after_disks(disks).statuses == states_of(counted)
            &&& forall|i: int|
                0 <= i < counted.len() ==> ((#[trigger] states_of(counted)[i]).snapshot_exists
                    <==> counted[i].readable() is Some)
            &&& forall|i: int|
                0 <= i < counted.len() ==> (#[trigger] counted[i]).qualifies() && has_key(
                    disks,
                    counted[i].key(),
                )
            &&& forall|i: int, j: int|
                0 <= i < j < counted.len() ==> (#[trigger] counted[i]).key() != (
                #[trigger] counted[j]).key()
            &&& forall|key: Seq<char>| #[trigger]
                has_key(disks, key) ==> has_key(counted, key)
            &&& after_disks(disks).info == merged_disks(counted)
            &&& is_latest(total.last_update, counted)
        }),
    decreases disks.len(),
{
    let counted = counted_disks(disks);
    if disks.len() == 0 {
        assert(after_disks(disks).statuses =~= states_of(counted));
    } else {
        let before = disks.drop_last();
        let d = disks.last();
        let n = disks.len() - 1;
        let fewer = counted_disks(before);
        law_each_disk_counts_once(before);
        lemma_processed(before, d.key());
        assert forall|key: Seq<char>| #[trigger] has_key(before, key) implies has_key(disks, key) by {
            let i = choose|i: int|
                0 <= i < before.len() && (#[trigger] before[i]).qualifies() && before[i].key() == key;
            assert(disks[i] == before[i]);
        }
        if d.qualifies() && !has_key(before, d.key()) {
            assert(counted == fewer.push(d));
            assert(counted.drop_last() =~= fewer);
            assert(after_disks(disks).statuses =~= states_of(counted));
            lemma_latest(after_disks(before).latest_update, fewer, d);
            assert(disks[n] == d);
            assert(has_key(disks, d.key()));
            assert forall|i: int, j: int| 0 <= i < j < counted.len() implies (
            #[trigger] counted[i]).key() != (#[trigger] counted[j]).key() by {
                assert(counted[i] == fewer[i]);
                if j < fewer.len() {
                    assert(counted[j] == fewer[j]);
                }
            }
            assert forall|i: int| 0 <= i < counted.len() implies (#[trigger] counted[i]).qualifies()
                && has_key(disks, counted[i].key()) by {
                if i < fewer.len() {
                    assert(counted[i] == fewer[i]);
                }
            }
        }
        assert forall|key: Seq<char>| #[trigger] has_key(disks, key) implies has_key(counted, key) by {
            let i = choose|i: int|
                0 <= i < disks.len() && (#[trigger] disks[i]).qualifies() && disks[i].key() == key;
            if has_key(before, key) {
                let k = choose|k: int|
                    0 <= k < fewer.len() && (#[trigger] fewer[k]).qualifies() && fewer[k].key() == key;
                assert(counted[k] == fewer[k]);
            } else {
                if i < n {
                    assert(before[i] == disks[i]);
                }
                assert(counted.last() == d);
                assert(counted[counted.len() - 1] == d);
            }
        }
    }
}

/// The totals of a run over all disks are those of the buckets that result.
pub proof fn law_run_over_disks_agrees(disks: Seq<DiskSighting>)
    requires
        forall|i: int|
            0 <= i < disks.len() && (#[trigger] disks[i]).readable() is Some
                ==> disks[i].readable()->0.buckets_usage@.dom().finite(),
    ensures
        agrees(after_disks(disks).info),
    decreases disks.len(),
{
    law_aggregate_agrees(usage::no_data_usage(), Map::empty());
    if disks.len() > 0 {
        let before = disks.drop_last();
        let d = disks.last();
        assert forall|i: int|
            0 <= i < before.len() && (#[trigger] before[i]).readable()
                is Some implies before[i].readable()->0.buckets_usage@.dom().finite() by {
            assert(before[i] == disks[i]);
        }
        law_run_over_disks_agrees(before);
        assert(disks[disks.len() - 1] == d);
        if d.readable() is Some {
            law_aggregate_agrees(
                after_disks(before).info,
                d.readable()->0.buckets_usage@,
            );
        }
    }
}

/// A disk adds each of its buckets: one that was not there comes with its usage and its size, one that
/// only other disks have stays, and one that both have gets the counts of both.
pub proof fn law_disk_adds_each_bucket(
    info: DataUsage,
    buckets: Map<Seq<char>, BucketUsage>,
    bucket: Seq<char>,
)
    ensures
        ({
            let after = snapshot::with_snapshot(info, buckets);
            let had = info.buckets_usage.contains_key(bucket);
            let sized = info.bucket_sizes.contains_key(bucket);
            let brings = buckets.contains_key(bucket);
            &&& after.buckets_usage.contains_key(bucket) <==> had || brings
            &&& had && !brings ==> after.buckets_usage[bucket] == info.buckets_usage[bucket]
            &&& !had && brings ==> after.buckets_usage[bucket] == buckets[bucket]
            &&& had && brings ==> {
                let sum = after.buckets_usage[bucket];
                let a = info.buckets_usage[bucket];
                let b = buckets[bucket];
                &&& usage_laws::adds_up(a.size, b.size, sum.size)
                &&& usage_laws::adds_up(a.objects_count, b.objects_count, sum.objects_count)
                &&& usage_laws::adds_up(a.versions_count, b.versions_count, sum.versions_count)
                &&& usage_laws::adds_up(
                    a.delete_markers_count,
                    b.delete_markers_count,
                    sum.delete_markers_count,
                )
                &&& sum == usage::merged_usage(a, b)
            }
            &&& after.bucket_sizes.contains_key(bucket) <==> sized || brings
            &&& sized && !brings ==> after.bucket_sizes[bucket] == info.bucket_sizes[bucket]
            &&& !sized && brings ==> after.bucket_sizes[bucket] == buckets[bucket].size
            &&& sized && brings ==> usage_laws::adds_up(
                info.bucket_sizes[bucket],
                buckets[bucket].size,
                after.bucket_sizes[bucket],
            )
        }),
{
}

/// A disk adds its totals to those of the others, and touches neither the time, nor the replication
/// counts of the store, nor the number of buckets, nor the states of the disks.
pub proof fn law_disk_adds_its_totals(info: DataUsage, buckets: Map<Seq<char>, BucketUsage>)
    ensures
        ({
            let after = snapshot::with_snapshot(info, buckets);
            let own = DataUsage { buckets_usage: buckets, ..info }.with_totals();
            &&& usage_laws::adds_up(
                info.objects_total_count,
                own.objects_total_count,
                after.objects_total_count,
            )
            &&& usage_laws::adds_up(
                info.versions_total_count,
                own.versions_total_count,
                after.versions_total_count,
            )
            &&& usage_laws::adds_up(
                info.delete_markers_total_count,
                own.delete_markers_total_count,
                after.delete_markers_total_count,
            )
            &&& usage_laws::adds_up(
                info.objects_total_size,
                own.objects_total_size,
                after.objects_total_size,
            )
            &&& after.last_update == info.last_update
            &&& after.replication_info == info.replication_info
            &&& after.buckets_count == info.buckets_count
            &&& after.disk_usage_status == info.disk_usage_status
        }),
{
}

/// The sizes of buckets are those in their usage.
pub proof fn law_sizes_are_those_of_the_usage(
    buckets: Map<Seq<char>, BucketUsage>,
    bucket: Seq<char>,
)
    ensures
        snapshot::sizes(buckets).contains_key(bucket) <==> buckets.contains_key(bucket),
        buckets.contains_key(bucket) ==> snapshot::sizes(buckets)[bucket] == buckets[bucket].size,
{
}

/// The later of two times is one of them and not before the other; a time that is missing does not
/// matter.
pub proof fn law_later_time_is_kept(a: Option<Timestamp>, b: Option<Timestamp>)
    ensures
        ({
            let r = snapshot::later(a, b);
            &&& r == a || r == b
            &&& r is None <==> a is None && b is None
            &&& a is Some ==> r->0.nanos >= a->0.nanos
            &&& b is Some ==> r->0.nanos >= b->0.nanos
        }),
{
}

/// A disk is known by its endpoint and its root with a bar between them, so that two disks of one
/// endpoint are told apart by their roots, and two with one root by their endpoints.
pub proof fn law_disk_is_known_by_endpoint_and_root(
    endpoint: Seq<char>,
    root: Seq<char>,
    other: Seq<char>,
)
    ensures
        snapshot::key_of(endpoint, root) == endpoint + seq!['|'] + root,
        snapshot::key_of(endpoint, root) == snapshot::key_of(endpoint, other) <==> root == other,
        snapshot::key_of(endpoint, root) == snapshot::key_of(other, root) <==> endpoint == other,
{
    reveal_strlit("|");
    let key = snapshot::key_of(endpoint, root);
    assert(key =~= endpoint + seq!['|'] + root);
    let n = endpoint.len() as int;
    assert(key.skip(n + 1) =~= root);
    assert(key.take(n) =~= endpoint);
    let same_endpoint = snapshot::key_of(endpoint, other);
    assert(same_endpoint =~= endpoint + seq!['|'] + other);
    assert(same_endpoint.skip(n + 1) =~= other);
    let same_root = snapshot::key_of(other, root);
    assert(same_root =~= other + seq!['|'] + root);
    assert(same_root.len() == other.len() + 1 + root.len());
    assert(same_root.take(other.len() as int) =~= other);
}

/// The state of a disk names its place, and says that there is a snapshot, and of when, exactly if one
/// was read.
pub proof fn law_disk_state_names_its_place(
    place: DiskPlace,
    snapshot: Result<Option<LocalUsageSnapshot>, String>,
)
    ensures
        ({
            let state = snapshot::disk_state(place, snapshot);
            &&& state.disk_id == place.disk_id@
            &&& state.pool_index == Some(place.pool_index)
            &&& state.set_index == Some(place.set_index)
            &&& state.disk_index == Some(place.disk_index)
            &&& match snapshot {
                Ok(Some(found)) => state.snapshot_exists && state.last_update == found.last_update,
                Ok(None) => !state.snapshot_exists && state.last_update is None,
                Err(_) => !state.snapshot_exists && state.last_update is None,
            }
        }),
{
}

/// A local disk with an identity counts the first time, and not again. One that is not local or has no
/// identity never counts, and it makes no difference that it was looked at. Looking at a disk changes
/// nothing that was counted.
pub proof fn law_disk_is_admitted_once(
    a: Aggregation,
    is_local: bool,
    has_id: bool,
    key: Seq<char>,
    other: Seq<char>,
)
    requires
        other != key,
    ensures
        ({
            let seen = a.having_seen(is_local, has_id, key);
            &&& snapshot::no_disks().admits(true, true, key)
            &&& a.admits(is_local, has_id, key) ==> is_local && has_id && a.admits(true, true, key)
            &&& is_local && has_id && !a.processed.contains(key) ==> a.admits(
                is_local,
                has_id,
                key,
            )
            &&& a.processed.contains(key) ==> !a.admits(is_local, has_id, key)
            &&& is_local && has_id ==> !seen.admits(true, true, key)
            &&& !is_local || !has_id ==> seen == a
            &&& seen.admits(true, true, other) == a.admits(true, true, other)
            &&& seen.info == a.info
            &&& seen.latest_update == a.latest_update
            &&& seen.statuses == a.statuses
        }),
{
}

/// Counting a disk adds one state. Only a snapshot that was read adds to the usage, and its time counts
/// if it is the latest.
pub proof fn law_disk_counts_if_it_was_read(
    a: Aggregation,
    place: DiskPlace,
    snapshot: Result<Option<LocalUsageSnapshot>, String>,
)
    ensures
        ({
            let after = a.with_disk(place, snapshot);
            &&& after.statuses.len() == a.statuses.len() + 1
            &&& after.statuses.drop_last() == a.statuses
            &&& after.statuses.last() == snapshot::disk_state(place, snapshot)
            &&& after.processed == a.processed
            &&& match snapshot {
                Ok(Some(found)) => {
                    &&& after.info == snapshot::with_snapshot(a.info, found.buckets_usage@)
                    &&& after.latest_update == snapshot::later(a.latest_update, found.last_update)
                },
                Ok(None) => after.info == a.info && after.latest_update == a.latest_update,
                Err(_) => after.info == a.info && after.latest_update == a.latest_update,
            }
        }),
{
    let after = a.with_disk(place, snapshot);
    assert(after.statuses.drop_last() =~= a.statuses);
}

/// The usage of all disks has the totals and buckets that were added up, the latest time, and the
/// states of the disks. The number of buckets is that of the buckets with a usage.
pub proof fn law_total_is_what_was_added_up(a: Aggregation)
    ensures
        ({
            let total = a.total();
            &&& total.last_update == a.latest_update
            &&& total.disk_usage_status == a.statuses
            &&& total.buckets_usage == a.info.buckets_usage
            &&& total.bucket_sizes == a.info.bucket_sizes
            &&& total.replication_info == a.info.replication_info
            &&& total.objects_total_count == a.info.objects_total_count
            &&& total.versions_total_count == a.info.versions_total_count
            &&& total.delete_markers_total_count == a.info.delete_markers_total_count
            &&& total.objects_total_size == a.info.objects_total_size
            &&& total.buckets_usage.len() <= u64::MAX ==> total.buckets_count
                == total.buckets_usage.len()
        }),
        snapshot::no_disks().latest_update is None,
        snapshot::no_disks().statuses.len() == 0,
        snapshot::no_disks().info == usage::no_data_usage(),
{
}

} // verus!
