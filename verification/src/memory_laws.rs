//! What holds of the usage in memory over several requests and snapshots.

use crate::memory;
use crate::memory::{CachedBucketUsage, UsageChange, UsageMemory};
use crate::memory_sync;
use crate::memory_update;
use crate::memory_update::CacheUpdate;
use crate::time::Timestamp;
use crate::usage;
use crate::usage::{BucketUsage, DataUsage};
use crate::usage_laws;
use vstd::prelude::*;

verus! {

/// A snapshot does not undo what is newer than it.
pub proof fn law_newer_memory_survives_snapshot(
    m: UsageMemory,
    info: DataUsage,
    now: Timestamp,
    bucket: Seq<char>,
)
    requires
        m.contains_key(bucket),
        m[bucket].usage_updated_at.nanos > usage::updated_at(info).nanos,
    ensures
        memory_sync::synced(m, info, now).contains_key(bucket),
        memory_sync::synced(m, info, now)[bucket] == m[bucket],
{
}

/// A snapshot does not undo what requests have changed, however late it comes: the counts stay, be
/// it that they are kept, or that the snapshot shows the same.
pub proof fn law_changed_memory_survives_snapshot(
    m: UsageMemory,
    info: DataUsage,
    now: Timestamp,
    bucket: Seq<char>,
)
    requires
        m.contains_key(bucket),
        m[bucket].dirty,
    ensures
        memory_sync::synced(m, info, now).contains_key(bucket),
        usage::counts_match(memory_sync::synced(m, info, now)[bucket].usage, m[bucket].usage),
{
}

/// A snapshot replaces what requests have not changed since the last one, whether its counts are
/// larger or smaller.
pub proof fn law_snapshot_replaces_unchanged_memory(
    m: UsageMemory,
    info: DataUsage,
    now: Timestamp,
    bucket: Seq<char>,
)
    requires
        m.contains_key(bucket) ==> !m[bucket].dirty && m[bucket].usage_updated_at.nanos
            <= usage::updated_at(info).nanos,
    ensures
        ({
            let after = memory_sync::synced(m, info, now);
            if info.buckets_usage.contains_key(bucket) {
                after.contains_key(bucket) && after[bucket] == memory::from_backend(
                    info.buckets_usage[bucket],
                    usage::updated_at(info),
                    now,
                )
            } else {
                !after.contains_key(bucket)
            }
        }),
{
}

/// Loading a snapshot a second time changes nothing.
pub proof fn law_snapshot_is_taken_over_once(m: UsageMemory, info: DataUsage, now: Timestamp)
    ensures
        memory_sync::synced(memory_sync::synced(m, info, now), info, now) == memory_sync::synced(
            m,
            info,
            now,
        ),
{
    let once = memory_sync::synced(m, info, now);
    assert forall|k: Seq<char>| #[trigger]
        memory_sync::synced_entry(once, info, now, k) == memory_sync::synced_entry(
            m,
            info,
            now,
            k,
        ) by {
        assert(once.contains_key(k) <==> memory_sync::synced_entry(m, info, now, k) is Some);
    }
    assert(memory_sync::synced(once, info, now) =~= once);
}

/// What a request has changed is shown at once: in a snapshot that is older than the request, the
/// bucket has the changed counts.
pub proof fn law_change_is_shown_at_once(
    m: UsageMemory,
    info: DataUsage,
    bucket: Seq<char>,
    change: UsageChange,
    now: Timestamp,
)
    requires
        info.last_update matches Some(at) ==> at.nanos < now.nanos,
    ensures
        ({
            let shown = memory_sync::overlaid(info, memory::recorded(m, bucket, change, now));
            &&& shown.buckets_usage.contains_key(bucket)
            &&& shown.buckets_usage[bucket] == memory::changed_usage(
                memory::remembered_usage(m, bucket),
                change,
            )
            &&& shown.bucket_sizes.contains_key(bucket)
            &&& shown.bucket_sizes[bucket] == shown.buckets_usage[bucket].size
        }),
{
    let after = memory::recorded(m, bucket, change, now);
    assert(memory_sync::overridden(after, info.last_update, bucket));
}

/// What a request has changed is still shown when a snapshot comes later, whether the snapshot has
/// the change already or not.
pub proof fn law_change_is_shown_after_snapshot(
    m: UsageMemory,
    info: DataUsage,
    bucket: Seq<char>,
    change: UsageChange,
    now: Timestamp,
    loaded_at: Timestamp,
)
    ensures
        ({
            let changed = memory::recorded(m, bucket, change, now);
            let shown = memory_sync::overlaid(
                info,
                memory_sync::synced(changed, info, loaded_at),
            );
            &&& shown.buckets_usage.contains_key(bucket)
            &&& usage::counts_match(
                shown.buckets_usage[bucket],
                memory::changed_usage(memory::remembered_usage(m, bucket), change),
            )
        }),
{
    let changed = memory::recorded(m, bucket, change, now);
    let after = memory_sync::synced(changed, info, loaded_at);
    law_changed_memory_survives_snapshot(changed, info, loaded_at, bucket);
    if memory_sync::overrides(after[bucket], info.last_update) {
        assert(memory_sync::overridden(after, info.last_update, bucket));
    }
}

/// A snapshot that is as new as memory is shown as it is, unless memory is known to be ahead of it.
pub proof fn law_newer_snapshot_is_shown(m: UsageMemory, info: DataUsage, bucket: Seq<char>)
    requires
        m.contains_key(bucket) ==> !m[bucket].stale_snapshot_pending && info.last_update is Some
            && m[bucket].usage_updated_at.nanos <= info.last_update->0.nanos,
        info.buckets_usage.contains_key(bucket),
    ensures
        memory_sync::overlaid(info, m).buckets_usage.contains_key(bucket),
        memory_sync::overlaid(info, m).buckets_usage[bucket] == info.buckets_usage[bucket],
{
}

/// A bucket that was dropped from memory is shown only if the snapshot has it.
pub proof fn law_dropped_bucket_is_not_shown(m: UsageMemory, info: DataUsage, bucket: Seq<char>)
    requires
        !info.buckets_usage.contains_key(bucket),
    ensures
        !memory_sync::overlaid(info, m.remove(bucket)).buckets_usage.contains_key(bucket),
{
}

/// Putting memory over a snapshot a second time changes nothing.
pub proof fn law_overlay_is_applied_once(m: UsageMemory, info: DataUsage)
    ensures
        memory_sync::overlaid(memory_sync::overlaid(info, m), m) == memory_sync::overlaid(info, m),
{
    let once = memory_sync::overlaid(info, m);
    let twice = memory_sync::overlaid(once, m);
    assert(twice.buckets_usage =~= once.buckets_usage);
    assert(twice.bucket_sizes =~= once.bucket_sizes);
}

/// The totals of a snapshot that memory was put over are those of the buckets that it shows.
pub proof fn law_overlay_keeps_totals_right(m: UsageMemory, info: DataUsage)
    requires
        info.with_buckets_counted().with_totals() == info,
    ensures
        memory_sync::overlaid(info, m).with_buckets_counted().with_totals()
            == memory_sync::overlaid(info, m),
{
}

/// A request for one bucket leaves the others as they are.
pub proof fn law_change_concerns_one_bucket(
    m: UsageMemory,
    bucket: Seq<char>,
    change: UsageChange,
    now: Timestamp,
    other: Seq<char>,
)
    requires
        bucket != other,
    ensures
        ({
            let after = memory::recorded(m, bucket, change, now);
            &&& after.contains_key(other) <==> m.contains_key(other)
            &&& after[other] == m[other]
        }),
{
}

/// Deleting an object undoes the write that made it, as long as no count has reached its limit.
pub proof fn law_delete_undoes_write(u: BucketUsage, size: u64, creates_new_version: bool)
    requires
        u.size + size <= u64::MAX,
        u.objects_count < u64::MAX,
        u.versions_count < u64::MAX,
    ensures
        memory::changed_usage(
            memory::changed_usage(
                u,
                UsageChange::Write {
                    previous_current_size: None,
                    new_size: size,
                    creates_new_version,
                },
            ),
            UsageChange::Delete { deleted_size: size, removed_current_object: true },
        ) == u,
{
}

/// A write over an object leaves the number of objects as it is; so does one of which it is not
/// known what it replaced.
pub proof fn law_overwrite_counts_no_object(
    u: BucketUsage,
    previous: u64,
    new_size: u64,
    creates_new_version: bool,
)
    ensures
        memory::changed_usage(
            u,
            UsageChange::Write {
                previous_current_size: Some(previous),
                new_size,
                creates_new_version,
            },
        ).objects_count == u.objects_count,
        memory::changed_usage(
            u,
            UsageChange::WriteUnknownPrevious { new_size, creates_new_version },
        ).objects_count == u.objects_count,
{
}

/// No change of a request touches what it does not know of: the histograms and the replication
/// counts stay as the last snapshot had them.
pub proof fn law_change_leaves_histograms(u: BucketUsage, change: UsageChange)
    ensures
        ({
            let after = memory::changed_usage(u, change);
            after == BucketUsage {
                size: after.size,
                objects_count: after.objects_count,
                versions_count: after.versions_count,
                delete_markers_count: after.delete_markers_count,
                ..u
            }
        }),
{
}

/// A recount that began before a request does not undo what the request changed.
pub proof fn law_recount_keeps_later_change(
    m: UsageMemory,
    bucket: Seq<char>,
    change: UsageChange,
    now: Timestamp,
    recount: BucketUsage,
    refresh_started_at: Timestamp,
    loaded_at: Timestamp,
)
    requires
        refresh_started_at.nanos < now.nanos,
    ensures
        ({
            let changed = memory::recorded(m, bucket, change, now);
            memory_sync::with_authoritative(
                changed,
                bucket,
                recount,
                refresh_started_at,
                loaded_at,
            ) == changed
        }),
{
}

/// A write over an object without a new version changes the size of the bucket by the new size less
/// the previous one, whatever else the bucket holds, and changes no other count. A previous size
/// that is larger than that of the bucket leaves nothing but the new size.
pub proof fn law_overwrite_exchanges_sizes(u: BucketUsage, previous: u64, new_size: u64)
    ensures
        ({
            let after = memory::changed_usage(
                u,
                UsageChange::Write {
                    previous_current_size: Some(previous),
                    new_size,
                    creates_new_version: false,
                },
            );
            &&& previous <= u.size && u.size - previous + new_size <= u64::MAX ==> after.size
                + previous == u.size + new_size
            &&& previous <= u.size && u.size - previous + new_size > u64::MAX ==> after.size
                == u64::MAX
            &&& previous > u.size ==> after.size == new_size
            &&& after.objects_count == u.objects_count
            &&& after.versions_count == u.versions_count
            &&& after.delete_markers_count == u.delete_markers_count
            &&& after == BucketUsage { size: after.size, ..u }
        }),
{
}

/// A write where there was no object adds its size, one object and one version, and nothing else,
/// whether the bucket keeps versions or not.
pub proof fn law_first_write_counts_an_object(
    u: BucketUsage,
    new_size: u64,
    creates_new_version: bool,
)
    ensures
        ({
            let after = memory::changed_usage(
                u,
                UsageChange::Write { previous_current_size: None, new_size, creates_new_version },
            );
            &&& usage_laws::adds_up(u.size, new_size, after.size)
            &&& usage_laws::adds_up(u.objects_count, 1, after.objects_count)
            &&& usage_laws::adds_up(u.versions_count, 1, after.versions_count)
            &&& after.delete_markers_count == u.delete_markers_count
            &&& after == BucketUsage {
                size: after.size,
                objects_count: after.objects_count,
                versions_count: after.versions_count,
                ..u
            }
        }),
{
}

/// A new version of an object adds its size and one version, and nothing else: the previous version
/// stays.
pub proof fn law_new_version_is_added(u: BucketUsage, previous: u64, new_size: u64)
    ensures
        ({
            let after = memory::changed_usage(
                u,
                UsageChange::Write {
                    previous_current_size: Some(previous),
                    new_size,
                    creates_new_version: true,
                },
            );
            &&& usage_laws::adds_up(u.size, new_size, after.size)
            &&& usage_laws::adds_up(u.versions_count, 1, after.versions_count)
            &&& after.objects_count == u.objects_count
            &&& after.delete_markers_count == u.delete_markers_count
            &&& after == BucketUsage {
                size: after.size,
                versions_count: after.versions_count,
                ..u
            }
        }),
{
}

/// A write of which it is not known what it replaced adds its size, and one version exactly if it
/// creates one, and nothing else.
pub proof fn law_write_over_the_unknown_adds_what_is_certain(
    u: BucketUsage,
    new_size: u64,
    creates_new_version: bool,
)
    ensures
        ({
            let after = memory::changed_usage(
                u,
                UsageChange::WriteUnknownPrevious { new_size, creates_new_version },
            );
            &&& usage_laws::adds_up(u.size, new_size, after.size)
            &&& creates_new_version ==> usage_laws::adds_up(
                u.versions_count,
                1,
                after.versions_count,
            )
            &&& !creates_new_version ==> after.versions_count == u.versions_count
            &&& after.objects_count == u.objects_count
            &&& after.delete_markers_count == u.delete_markers_count
            &&& after == BucketUsage {
                size: after.size,
                versions_count: after.versions_count,
                ..u
            }
        }),
{
}

/// A delete takes its size off that of the bucket, and one object and one version exactly if the
/// current object went with it, and nothing else. No count falls below zero.
pub proof fn law_delete_takes_off_what_it_removed(
    u: BucketUsage,
    deleted_size: u64,
    removed_current_object: bool,
)
    ensures
        ({
            let after = memory::changed_usage(
                u,
                UsageChange::Delete { deleted_size, removed_current_object },
            );
            &&& deleted_size <= u.size ==> after.size + deleted_size == u.size
            &&& deleted_size > u.size ==> after.size == 0
            &&& removed_current_object && u.objects_count > 0 ==> after.objects_count + 1
                == u.objects_count
            &&& removed_current_object && u.versions_count > 0 ==> after.versions_count + 1
                == u.versions_count
            &&& !removed_current_object || u.objects_count == 0 ==> after.objects_count
                == u.objects_count
            &&& !removed_current_object || u.versions_count == 0 ==> after.versions_count
                == u.versions_count
            &&& after.delete_markers_count == u.delete_markers_count
            &&& after == BucketUsage {
                size: after.size,
                objects_count: after.objects_count,
                versions_count: after.versions_count,
                ..u
            }
        }),
{
}

/// A delete marker adds one delete marker and nothing else: the data that it hides is still there.
pub proof fn law_delete_marker_hides_no_data(u: BucketUsage)
    ensures
        ({
            let after = memory::changed_usage(u, UsageChange::DeleteMarker);
            &&& usage_laws::adds_up(u.delete_markers_count, 1, after.delete_markers_count)
            &&& after.size == u.size
            &&& after.objects_count == u.objects_count
            &&& after.versions_count == u.versions_count
            &&& after == BucketUsage { delete_markers_count: after.delete_markers_count, ..u }
        }),
{
}

/// A bucket that shrinks by some data loses that much of its size, one object and one version. One
/// that shrinks by nothing stays as it is.
pub proof fn law_shrinking_bucket_loses_an_object(u: BucketUsage, size: u64)
    ensures
        memory::changed_usage(u, memory::shrinkage(0)) == u,
        ({
            let after = memory::changed_usage(u, memory::shrinkage(size));
            &&& size <= u.size ==> after.size + size == u.size
            &&& size > u.size ==> after.size == 0
            &&& size > 0 && u.objects_count > 0 ==> after.objects_count + 1 == u.objects_count
            &&& size > 0 && u.versions_count > 0 ==> after.versions_count + 1 == u.versions_count
            &&& u.objects_count == 0 ==> after.objects_count == 0
            &&& u.versions_count == 0 ==> after.versions_count == 0
            &&& after.delete_markers_count == u.delete_markers_count
        }),
{
}

/// A request is recorded as of its own time, and marked as ahead of the snapshots. It changes the
/// counts that are in memory, or, if there are none, those of a bucket that holds nothing.
pub proof fn law_request_is_recorded_as_of_now(
    m: UsageMemory,
    bucket: Seq<char>,
    change: UsageChange,
    now: Timestamp,
)
    ensures
        ({
            let after = memory::recorded(m, bucket, change, now);
            &&& after.contains_key(bucket)
            &&& after[bucket].refreshed_at == now
            &&& after[bucket].usage_updated_at == now
            &&& after[bucket].dirty
            &&& !after[bucket].stale_snapshot_pending
            &&& m.contains_key(bucket) ==> after[bucket].usage == memory::changed_usage(
                m[bucket].usage,
                change,
            )
            &&& !m.contains_key(bucket) ==> after[bucket].usage == memory::changed_usage(
                usage::no_bucket_usage(),
                change,
            )
        }),
{
}

/// What is taken over from a snapshot or a recount keeps its counts and its own time, and counts as
/// unchanged.
pub proof fn law_loaded_usage_is_unchanged(
    u: BucketUsage,
    updated_at: Timestamp,
    now: Timestamp,
)
    ensures
        ({
            let entry = memory::from_backend(u, updated_at, now);
            &&& entry.usage == u
            &&& entry.usage_updated_at == updated_at
            &&& entry.refreshed_at == now
            &&& !entry.dirty
            &&& !entry.stale_snapshot_pending
        }),
{
}

/// What becomes of a bucket in memory when a snapshot with a time is loaded. What is later than the
/// snapshot stays. What requests have changed stays too, marked as ahead of a snapshot, unless the
/// snapshot has the same four counts. Everything else is replaced by what the snapshot has, as of the
/// time of the snapshot, or goes if the snapshot has nothing of the bucket.
pub proof fn law_snapshot_is_taken_over(
    m: UsageMemory,
    info: DataUsage,
    now: Timestamp,
    bucket: Seq<char>,
    at: Timestamp,
)
    requires
        info.last_update == Some(at),
    ensures
        ({
            let after = memory_sync::synced(m, info, now);
            let listed = info.buckets_usage.contains_key(bucket);
            let shown = info.buckets_usage[bucket];
            let was = m[bucket];
            let later = m.contains_key(bucket) && was.usage_updated_at.nanos > at.nanos;
            let same_counts = listed && was.usage.size == shown.size && was.usage.objects_count
                == shown.objects_count && was.usage.versions_count == shown.versions_count
                && was.usage.delete_markers_count == shown.delete_markers_count;
            let ahead = m.contains_key(bucket) && !later && was.dirty && !same_counts;
            &&& later ==> after.contains_key(bucket) && after[bucket] == was
            &&& ahead ==> {
                &&& after.contains_key(bucket)
                &&& after[bucket].usage == was.usage
                &&& after[bucket].refreshed_at == was.refreshed_at
                &&& after[bucket].usage_updated_at == was.usage_updated_at
                &&& after[bucket].dirty
                &&& after[bucket].stale_snapshot_pending
            }
            &&& !later && !ahead && listed ==> {
                &&& after.contains_key(bucket)
                &&& after[bucket].usage == shown
                &&& after[bucket].refreshed_at == now
                &&& after[bucket].usage_updated_at == at
                &&& !after[bucket].dirty
                &&& !after[bucket].stale_snapshot_pending
            }
            &&& !later && !ahead && !listed ==> !after.contains_key(bucket)
        }),
{
}

/// A snapshot without a time is taken over like one of the Unix epoch.
pub proof fn law_snapshot_without_time_is_of_the_epoch(
    m: UsageMemory,
    info: DataUsage,
    now: Timestamp,
)
    requires
        info.last_update is None,
    ensures
        memory_sync::synced(m, info, now) == memory_sync::synced(
            m,
            DataUsage { last_update: Some(Timestamp { nanos: 0 }), ..info },
            now,
        ),
{
    let dated = DataUsage { last_update: Some(Timestamp { nanos: 0 }), ..info };
    assert(memory_sync::synced(m, info, now) =~= memory_sync::synced(m, dated, now));
}

/// A recount replaces what is in memory of its bucket, as of the time at which it began, unless that
/// is of a later time. It leaves the other buckets as they are.
pub proof fn law_recount_replaces_what_is_not_later(
    m: UsageMemory,
    bucket: Seq<char>,
    recount: BucketUsage,
    started: Timestamp,
    now: Timestamp,
    other: Seq<char>,
)
    requires
        other != bucket,
    ensures
        ({
            let after = memory_sync::with_authoritative(m, bucket, recount, started, now);
            &&& after.contains_key(bucket)
            &&& m.contains_key(bucket) && m[bucket].usage_updated_at.nanos > started.nanos
                ==> after[bucket] == m[bucket]
            &&& !m.contains_key(bucket) || m[bucket].usage_updated_at.nanos <= started.nanos ==> {
                &&& after[bucket].usage == recount
                &&& after[bucket].usage_updated_at == started
                &&& after[bucket].refreshed_at == now
                &&& !after[bucket].dirty
                &&& !after[bucket].stale_snapshot_pending
            }
            &&& after.contains_key(other) <==> m.contains_key(other)
            &&& after[other] == m[other]
        }),
{
}

/// Memory that is not marked as ahead of a snapshot and is not later than the snapshot is not shown:
/// the bucket has the usage and the size that the snapshot has of it, or none.
pub proof fn law_older_memory_is_not_shown(
    m: UsageMemory,
    info: DataUsage,
    bucket: Seq<char>,
    at: Timestamp,
)
    requires
        info.last_update == Some(at),
        m.contains_key(bucket),
        !m[bucket].stale_snapshot_pending,
        m[bucket].usage_updated_at.nanos <= at.nanos,
    ensures
        ({
            let shown = memory_sync::overlaid(info, m);
            &&& shown.buckets_usage.contains_key(bucket) <==> info.buckets_usage.contains_key(bucket)
            &&& info.buckets_usage.contains_key(bucket) ==> shown.buckets_usage[bucket]
                == info.buckets_usage[bucket]
            &&& shown.bucket_sizes.contains_key(bucket) <==> info.bucket_sizes.contains_key(bucket)
            &&& info.bucket_sizes.contains_key(bucket) ==> shown.bucket_sizes[bucket]
                == info.bucket_sizes[bucket]
        }),
{
}

/// Memory that is marked as ahead of a snapshot, or is later than the snapshot, or meets a snapshot
/// without a time, is shown in place of what the snapshot has of the bucket.
pub proof fn law_later_memory_is_shown(m: UsageMemory, info: DataUsage, bucket: Seq<char>)
    requires
        m.contains_key(bucket),
        m[bucket].stale_snapshot_pending || match info.last_update {
            Some(at) => m[bucket].usage_updated_at.nanos > at.nanos,
            None => true,
        },
    ensures
        ({
            let shown = memory_sync::overlaid(info, m);
            &&& shown.buckets_usage.contains_key(bucket)
            &&& shown.buckets_usage[bucket] == m[bucket].usage
            &&& shown.bucket_sizes.contains_key(bucket)
            &&& shown.bucket_sizes[bucket] == m[bucket].usage.size
            &&& shown.with_totals() == shown
            &&& shown.with_buckets_counted() == shown
        }),
{
    assert(memory_sync::overridden(m, info.last_update, bucket));
}

/// Memory touches nothing in a snapshot of which it has nothing: the other buckets, the time, the
/// replication counts and the disks are those of the snapshot.
pub proof fn law_memory_leaves_the_rest_of_a_snapshot(
    m: UsageMemory,
    info: DataUsage,
    bucket: Seq<char>,
)
    requires
        !m.contains_key(bucket),
    ensures
        ({
            let shown = memory_sync::overlaid(info, m);
            &&& shown.buckets_usage.contains_key(bucket) <==> info.buckets_usage.contains_key(bucket)
            &&& info.buckets_usage.contains_key(bucket) ==> shown.buckets_usage[bucket]
                == info.buckets_usage[bucket]
            &&& shown.bucket_sizes.contains_key(bucket) <==> info.bucket_sizes.contains_key(bucket)
            &&& info.bucket_sizes.contains_key(bucket) ==> shown.bucket_sizes[bucket]
                == info.bucket_sizes[bucket]
            &&& shown.last_update == info.last_update
            &&& shown.replication_info == info.replication_info
            &&& shown.disk_usage_status == info.disk_usage_status
        }),
{
}

/// If everything in memory is as old as a snapshot and nothing is marked as ahead of it, the snapshot
/// is shown as it is, with its own totals.
pub proof fn law_up_to_date_snapshot_is_shown_as_it_is(
    m: UsageMemory,
    info: DataUsage,
    at: Timestamp,
)
    requires
        info.last_update == Some(at),
        forall|k: Seq<char>| #[trigger]
            m.contains_key(k) ==> !m[k].stale_snapshot_pending && m[k].usage_updated_at.nanos
                <= at.nanos,
    ensures
        memory_sync::overlaid(info, m) == info,
{
    assert(forall|k: Seq<char>| !#[trigger] memory_sync::overridden(m, info.last_update, k));
}

/// A usage in memory stands for the counts, the times and the marks that are in it.
pub proof fn law_memory_shows_what_is_kept(entry: CachedBucketUsage)
    ensures
        entry@.usage == entry.usage@,
        entry@.refreshed_at == entry.refreshed_at,
        entry@.usage_updated_at == entry.usage_updated_at,
        entry@.dirty == entry.dirty,
        entry@.stale_snapshot_pending == entry.stale_snapshot_pending,
{
}

/// How old what is in memory has to be for a request to do something about it. If there is something
/// and all of it was written within the last thirty seconds, or is yet to come, it is used. If the
/// oldest of it is not as old as a minute it is used while a snapshot is loaded. Otherwise, and if
/// there is nothing, the request loads a snapshot itself or waits for one.
pub proof fn law_age_of_memory_decides(
    m: UsageMemory,
    updating: bool,
    now: Timestamp,
)
    ensures
        ({
            let planned = memory_update::planned_update(m, updating, now);
            let fresh = m.len() > 0 && forall|k: Seq<char>| #[trigger]
                m.contains_key(k) ==> now.nanos - m[k].refreshed_at.nanos < 30_000_000_000;
            let usable = m.len() > 0 && forall|k: Seq<char>| #[trigger]
                m.contains_key(k) ==> now.nanos - m[k].refreshed_at.nanos < 60_000_000_000;
            &&& fresh ==> planned == CacheUpdate::Skip
            &&& !fresh && usable && updating ==> planned == CacheUpdate::Skip
            &&& !fresh && usable && !updating ==> planned == CacheUpdate::LoadInBackground
            &&& !usable && updating ==> planned == (CacheUpdate::Wait { millis: 1, retry: 1 })
            &&& !usable && !updating ==> planned == CacheUpdate::Load
        }),
{
    vstd::arithmetic::power2::lemma2_to64();
    let fresh = m.len() > 0 && forall|k: Seq<char>| #[trigger]
        m.contains_key(k) ==> now.nanos - m[k].refreshed_at.nanos < 30_000_000_000;
    let usable = m.len() > 0 && forall|k: Seq<char>| #[trigger]
        m.contains_key(k) ==> now.nanos - m[k].refreshed_at.nanos < 60_000_000_000;
    assert(fresh <==> memory_update::written_within(m, now, 30));
    assert(usable <==> memory_update::written_within(m, now, 60));
}

/// A request that finds another one loading waits ten times at most, one millisecond first and each
/// time twice as long. It loads a snapshot itself if no other is loading, or none came in that time.
pub proof fn law_waits_double(updating: bool, retry: u32)
    ensures
        !updating ==> memory_update::loads_or_waits(updating, retry) == CacheUpdate::Load,
        retry >= 10 ==> memory_update::loads_or_waits(updating, retry) == CacheUpdate::Load,
        updating && retry < 10 ==> {
            let wait = memory_update::loads_or_waits(updating, retry);
            &&& wait is Wait
            &&& wait->retry == retry + 1
            &&& retry == 0 ==> wait->millis == 1
            &&& retry > 0 ==> memory_update::loads_or_waits(updating, (retry - 1) as u32) is Wait
                && wait->millis == 2 * memory_update::loads_or_waits(
                updating,
                (retry - 1) as u32,
            )->millis
        },
{
    if retry < 10 {
        vstd::arithmetic::power2::lemma2_to64();
        vstd::arithmetic::power2::lemma_pow2_strictly_increases(retry as nat, 10);
        if retry > 0 {
            vstd::arithmetic::power2::lemma_pow2_unfold(retry as nat);
            vstd::arithmetic::power2::lemma_pow2_strictly_increases((retry - 1) as nat, 10);
        }
    }
}

/// A request that loads, itself or in the background, is known to be loading. One that uses what is
/// there or waits makes no difference to that.
pub proof fn law_loading_is_known(updating: bool, update: CacheUpdate)
    ensures
        update == CacheUpdate::Load || update == CacheUpdate::LoadInBackground
            ==> memory_update::updating_after(updating, update),
        update == CacheUpdate::Skip || update is Wait ==> memory_update::updating_after(
            updating,
            update,
        ) == updating,
{
}

} // verus!
