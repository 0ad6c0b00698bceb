//! Showing recounts in a usage response.

use crate::live::{live_bucket_usage_epoch_if_tracked, LiveBucketUsage, LiveBucketUsageEntry};
use crate::name_map;
use crate::name_map::{Duplicate, NameMap};
use crate::text;
use crate::usage::{
    set_buckets_count_from_usage, BucketUsage, BucketUsageInfo, DataUsage, DataUsageInfo,
};
use vstd::prelude::*;
use vstd::string::*;

verus! {

/// The usage of the store with that of one bucket replaced. The totals stay as they are: they are
/// recomputed once when all buckets are done.
pub open spec fn with_live_usage(info: DataUsage, bucket: Seq<char>, usage: BucketUsage) -> DataUsage {
    DataUsage {
        bucket_sizes: info.bucket_sizes.insert(bucket, usage.size),
        buckets_usage: info.buckets_usage.insert(bucket, usage),
        ..info
    }.with_buckets_counted()
}

/// Replaces the usage of one bucket, without recomputing the totals.
pub fn apply_live_bucket_usage_to_response(
    data_usage_info: &mut DataUsageInfo,
    bucket: &str,
    usage: &BucketUsageInfo,
)
    ensures
        final(data_usage_info)@ == with_live_usage(old(data_usage_info)@, bucket@, usage@),
{
    data_usage_info.bucket_sizes.insert(bucket.to_owned(), usage.size);
    data_usage_info.buckets_usage.insert(bucket.to_owned(), usage.duplicate());
    set_buckets_count_from_usage(data_usage_info);
}

/// Replaces the usage of one bucket by that of a recount and recomputes the totals.
pub fn apply_refreshed_bucket_usage(
    data_usage_info: &mut DataUsageInfo,
    bucket: &str,
    usage: &BucketUsageInfo,
)
    ensures
        final(data_usage_info)@ == with_live_usage(
            old(data_usage_info)@,
            bucket@,
            usage@,
        ).with_totals(),
{
    apply_live_bucket_usage_to_response(data_usage_info, bucket, usage);
    data_usage_info.calculate_totals();
}

/// What a recount replaced.
pub struct ReplacedUsage {
    usage: Option<BucketUsageInfo>,
    size: Option<u64>,
    epoch: u64,
}

impl ReplacedUsage {
    /// The usage of the bucket before, if there was one.
    pub closed spec fn prior_usage(&self) -> Option<BucketUsage> {
        name_map::optional(self.usage)
    }

    /// The size of the bucket before, if there was one.
    pub closed spec fn prior_size(&self) -> Option<u64> {
        self.size
    }

    /// The epoch of the recount.
    pub closed spec fn entry_epoch(&self) -> u64 {
        self.epoch
    }
}

/// Replaces the usage of one bucket by that of a cached recount, if there is one, and keeps what
/// stood there.
pub fn apply_cached_live_bucket_usage(
    data_usage_info: &mut DataUsageInfo,
    bucket: &str,
    entry: Option<LiveBucketUsageEntry>,
) -> (r: Option<ReplacedUsage>)
    ensures
        match entry {
            Some(entry) => {
                &&& final(data_usage_info)@ == with_live_usage(
                    old(data_usage_info)@,
                    bucket@,
                    entry@.usage,
                )
                &&& r is Some
                &&& r->0.prior_usage() == name_map::held(
                    old(data_usage_info)@.buckets_usage,
                    bucket@,
                )
                &&& r->0.prior_size() == name_map::held(old(data_usage_info)@.bucket_sizes, bucket@)
                &&& r->0.entry_epoch() == entry.epoch
            },
            None => r is None && final(data_usage_info)@ == old(data_usage_info)@,
        },
{
    match entry {
        Some(entry) => {
            let usage = match data_usage_info.buckets_usage.get(bucket) {
                Some(usage) => Some(usage.duplicate()),
                None => None,
            };
            let size = match data_usage_info.bucket_sizes.get(bucket) {
                Some(size) => Some(*size),
                None => None,
            };
            apply_live_bucket_usage_to_response(data_usage_info, bucket, &entry.usage);
            Some(ReplacedUsage { usage, size, epoch: entry.epoch })
        },
        None => None,
    }
}

/// `m` with `v` under `k`, or with nothing there.
pub open spec fn holding<V>(m: Map<Seq<char>, V>, k: Seq<char>, v: Option<V>) -> Map<Seq<char>, V> {
    match v {
        Some(x) => m.insert(k, x),
        None => m.remove(k),
    }
}

/// The usage of the store with what a recount replaced put back.
pub open spec fn with_usage_restored(
    info: DataUsage,
    bucket: Seq<char>,
    usage: Option<BucketUsage>,
    size: Option<u64>,
) -> DataUsage {
    DataUsage {
        buckets_usage: holding(info.buckets_usage, bucket, usage),
        bucket_sizes: holding(info.bucket_sizes, bucket, size),
        ..info
    }.with_buckets_counted().with_totals()
}

/// Looks once more whether the recount that was applied still counts. If not, what it replaced is
/// put back. The result says whether a new recount is to be scheduled: if there was none to apply,
/// and if the one that was applied is outdated. A bucket that was deleted meanwhile is not recounted.
pub fn settle_cached_live_bucket_usage(
    live: &LiveBucketUsage,
    data_usage_info: &mut DataUsageInfo,
    bucket: &str,
    replaced: Option<ReplacedUsage>,
) -> (schedule: bool)
    ensures
        match replaced {
            Some(replaced) => if live@.epoch(bucket@) == Some(replaced.entry_epoch()) {
                &&& final(data_usage_info)@ == old(data_usage_info)@
                &&& !schedule
            } else {
                &&& final(data_usage_info)@ == with_usage_restored(
                    old(data_usage_info)@,
                    bucket@,
                    replaced.prior_usage(),
                    replaced.prior_size(),
                )
                &&& schedule == (live@.epoch(bucket@) is Some)
            },
            None => schedule && final(data_usage_info)@ == old(data_usage_info)@,
        },
{
    let replaced = match replaced {
        Some(replaced) => replaced,
        None => {
            return true;
        },
    };
    let epoch = live_bucket_usage_epoch_if_tracked(live, bucket);
    let current = match epoch {
        Some(epoch) => epoch == replaced.epoch,
        None => false,
    };
    if current {
        return false;
    }
    match replaced.usage {
        Some(usage) => {
            data_usage_info.buckets_usage.insert(bucket.to_owned(), usage);
        },
        None => {
            data_usage_info.buckets_usage.remove(bucket);
        },
    }
    match replaced.size {
        Some(size) => {
            data_usage_info.bucket_sizes.insert(bucket.to_owned(), size);
        },
        None => {
            data_usage_info.bucket_sizes.remove(bucket);
        },
    }
    set_buckets_count_from_usage(data_usage_info);
    data_usage_info.calculate_totals();
    epoch.is_some()
}

/// The buckets that may have to be recounted before versioned usage is shown: those with a usage
/// and those that the object layer lists, in name order, each once.
pub fn versioned_refresh_candidates(
    data_usage_info: &DataUsageInfo,
    listed_bucket_names: &Vec<String>,
) -> (r: Vec<String>)
    ensures
        name_map::ascending(text::texts(r@)),
        forall|k: Seq<char>| #[trigger]
            text::texts(r@).contains(k) <==> data_usage_info@.buckets_usage.contains_key(k) || (
            k.len() > 0 && text::texts(listed_bucket_names@).contains(k)),
{
    let mut names: NameMap<u64> = NameMap::new();
    let n = data_usage_info.buckets_usage.len();
    let ghost known = data_usage_info.buckets_usage@;
    let ghost order = data_usage_info.buckets_usage.names();
    let mut i: usize = 0;
    while i < n
        invariant
            i <= n,
            known == data_usage_info.buckets_usage@,
            n == known.len(),
            order == data_usage_info.buckets_usage.names(),
            name_map::lists_names(order, known),
            names@.dom() == name_map::first_entries(known, order, i as nat).dom(),
        decreases n - i,
    {
        let name = data_usage_info.buckets_usage.name_at(i);
        names.insert(name.clone(), 0);
        i = i + 1;
        assert(names@.dom() =~= name_map::first_entries(known, order, i as nat).dom());
    }
    proof {
        name_map::lemma_first_entries(known, order, n as nat);
    }
    let ghost listed = text::texts(listed_bucket_names@);
    let mut j: usize = 0;
    while j < listed_bucket_names.len()
        invariant
            j <= listed_bucket_names@.len(),
            listed == text::texts(listed_bucket_names@),
            forall|k: Seq<char>| #[trigger]
                names@.contains_key(k) <==> known.contains_key(k) || (k.len() > 0 && listed.take(
                    j as int,
                ).contains(k)),
        decreases listed_bucket_names@.len() - j,
    {
        let name = &listed_bucket_names[j];
        let ghost before = names@;
        if name.as_str().unicode_len() > 0 {
            names.insert(name.clone(), 0);
        }
        proof {
            let was = listed.take(j as int);
            let is = listed.take(j + 1);
            assert(is =~= was.push(name@));
            assert forall|k: Seq<char>| is.contains(k) <==> was.contains(k) || k == name@ by {
                if was.contains(k) {
                    let p = choose|p: int| 0 <= p < was.len() && was[p] == k;
                    assert(is[p] == k);
                }
                assert(is[j as int] == name@);
            }
        }
        j = j + 1;
    }
    let r = names.name_list();
    proof {
        assert(listed.take(j as int) =~= listed);
        assert forall|k: Seq<char>| #[trigger]
            text::texts(r@).contains(k) <==> names@.contains_key(k) by {
            if text::texts(r@).contains(k) {
                let p = choose|p: int| 0 <= p < text::texts(r@).len() && text::texts(r@)[p] == k;
                assert(names@.contains_key(text::texts(r@)[p]));
            }
        }
    }
    r
}

/// What is known of the versioning of a bucket.
#[derive(Clone, Copy, Debug, PartialEq, Eq, Structural)]
pub struct BucketVersioning {
    pub enabled: bool,
    pub suspended: bool,
}

/// Whether a bucket is recounted before versioned usage is shown: if it has or had versions. One
/// whose versioning is unknown is passed over.
pub fn needs_versioned_refresh(versioning: Option<BucketVersioning>) -> (r: bool)
    ensures
        r == (versioning matches Some(v) && (v.enabled || v.suspended)),
{
    match versioning {
        Some(v) => v.enabled || v.suspended,
        None => false,
    }
}

} // verus!
