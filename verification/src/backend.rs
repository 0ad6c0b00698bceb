//! Snapshots in the backend: where they are stored, when they are replaced, and what is made of
//! them when they are loaded.

use crate::name_map;
use crate::name_map::NameMap;
use crate::text;
use crate::time::Timestamp;
use crate::usage;
use crate::usage::{
    data_usage_info_updated_at, set_buckets_count_from_usage, BucketTargetUsageInfo, BucketUsage,
    BucketUsageInfo, DataUsage, DataUsageInfo,
};
use vstd::prelude::*;
use vstd::string::*;

verus! {

/// What separates the parts of a path, and the root of all usage.
pub const DATA_USAGE_ROOT: &'static str = "/";

/// The object that holds the usage of the store.
pub const DATA_USAGE_OBJ_NAME: &'static str = ".usage.json";

/// The object that holds the compression totals.
pub const DATA_COMPRESSION_TOTAL_NAME: &'static str = ".compression.json";

/// The object that holds the state of the scanner's filter.
pub const DATA_USAGE_BLOOM_NAME: &'static str = ".bloomcycle.bin";

/// The object that holds the usage tree of a scanner.
pub const DATA_USAGE_CACHE_NAME: &'static str = ".usage-cache.bin";

/// What is put behind the name of an object for that of its backup.
pub const BACKUP_SUFFIX: &'static str = ".bkp";

/// Two parts of a path, one below the other.
fn below(prefix: &str, name: &str) -> (r: String)
    ensures
        r@ == prefix@ + "/"@ + name@,
{
    let mut path = prefix.to_owned();
    path.append("/");
    path.append(name);
    path
}

/// The place of all usage data: the metadata prefix in the metadata bucket.
pub fn data_usage_bucket(meta_bucket: &str, meta_prefix: &str) -> (r: String)
    ensures
        r@ == meta_bucket@ + "/"@ + meta_prefix@,
{
    below(meta_bucket, meta_prefix)
}

/// The place of the usage of the store.
pub fn data_usage_obj_name_path(meta_prefix: &str) -> (r: String)
    ensures
        r@ == meta_prefix@ + "/"@ + ".usage.json"@,
{
    below(meta_prefix, DATA_USAGE_OBJ_NAME)
}

/// The place of the state of the scanner's filter.
pub fn data_usage_bloom_name_path(meta_prefix: &str) -> (r: String)
    ensures
        r@ == meta_prefix@ + "/"@ + ".bloomcycle.bin"@,
{
    below(meta_prefix, DATA_USAGE_BLOOM_NAME)
}

/// The place of the compression totals.
pub fn data_compression_total_name_path(meta_prefix: &str) -> (r: String)
    ensures
        r@ == meta_prefix@ + "/"@ + ".compression.json"@,
{
    below(meta_prefix, DATA_COMPRESSION_TOTAL_NAME)
}

/// The place of the backup of what is stored at `path`.
pub fn backup_path(path: &str) -> (r: String)
    ensures
        r@ == path@ + ".bkp"@,
{
    let mut backup = path.to_owned();
    backup.append(BACKUP_SUFFIX);
    backup
}

/// `name` taken as a path below `prefix`; a path from the root stays what it is.
pub open spec fn joined(prefix: Seq<char>, name: Seq<char>) -> Seq<char> {
    if name.len() > 0 && name[0] == '/' {
        name
    } else if prefix.len() == 0 || prefix.last() == '/' {
        prefix + name
    } else {
        prefix + "/"@ + name
    }
}

/// The place of the usage tree with the given name.
pub fn data_usage_cache_path(meta_prefix: &str, name: &str) -> (r: String)
    ensures
        r@ == joined(meta_prefix@, name@),
{
    let length = name.unicode_len();
    if length > 0 && name.get_char(0) == '/' {
        return name.to_owned();
    }
    let prefix_length = meta_prefix.unicode_len();
    if prefix_length == 0 || meta_prefix.get_char(prefix_length - 1) == '/' {
        let mut path = meta_prefix.to_owned();
        path.append(name);
        path
    } else {
        below(meta_prefix, name)
    }
}

/// Whether a snapshot is stored, given the one that is stored already: a snapshot does not replace
/// one that is as new.
pub open spec fn replaces(info: DataUsage, existing: Option<DataUsage>) -> bool {
    match (info.last_update, existing) {
        (Some(new), Some(DataUsage { last_update: Some(stored), .. })) => new.nanos > stored.nanos,
        _ => true,
    }
}

/// Whether a snapshot is stored, given the one that is stored already, if it can be read.
pub fn store_replaces_existing(
    data_usage_info: &DataUsageInfo,
    existing: Option<&DataUsageInfo>,
) -> (r: bool)
    ensures
        r == replaces(
            data_usage_info@,
            match existing {
                Some(e) => Some(e@),
                None => None,
            },
        ),
{
    match existing {
        Some(existing) => match (data_usage_info.last_update, existing.last_update) {
            (Some(new_ts), Some(existing_ts)) => new_ts.nanos > existing_ts.nanos,
            _ => true,
        },
        None => true,
    }
}

/// Whether there is anything of a bucket in a snapshot.
pub open spec fn mentions(info: DataUsage, bucket: Seq<char>) -> bool {
    info.buckets_usage.contains_key(bucket) || info.bucket_sizes.contains_key(bucket)
}

/// A snapshot without a bucket.
pub open spec fn without_bucket(info: DataUsage, bucket: Seq<char>) -> DataUsage {
    DataUsage {
        buckets_usage: info.buckets_usage.remove(bucket),
        bucket_sizes: info.bucket_sizes.remove(bucket),
        ..info
    }.with_buckets_counted().with_totals()
}

/// Takes a bucket out of a snapshot and says whether there was anything of it. A snapshot that has
/// nothing of it stays as it is; so does any for the empty name.
pub fn remove_bucket_usage_from_info(data_usage_info: &mut DataUsageInfo, bucket: &str) -> (r: bool)
    ensures
        r == (bucket@.len() > 0 && mentions(old(data_usage_info)@, bucket@)),
        final(data_usage_info)@ == if r {
            without_bucket(old(data_usage_info)@, bucket@)
        } else {
            old(data_usage_info)@
        },
{
    if bucket.unicode_len() == 0 {
        return false;
    }
    let ghost info = data_usage_info@;
    let removed_usage = data_usage_info.buckets_usage.remove(bucket).is_some();
    let removed_size = data_usage_info.bucket_sizes.remove(bucket).is_some();
    if !removed_usage && !removed_size {
        assert(info.buckets_usage.remove(bucket@) =~= info.buckets_usage);
        assert(info.bucket_sizes.remove(bucket@) =~= info.bucket_sizes);
        return false;
    }
    set_buckets_count_from_usage(data_usage_info);
    data_usage_info.calculate_totals();
    true
}

/// The snapshot that a deleted bucket is taken out of: the one that is stored by now, unless it is
/// older than the candidate.
pub open spec fn removal_base(candidate: DataUsage, existing: Option<DataUsage>) -> DataUsage {
    match existing {
        Some(e) if usage::updated_at(e).nanos >= usage::updated_at(candidate).nanos => e,
        _ => candidate,
    }
}

/// Takes a deleted bucket out of the newer of two snapshots. There is nothing to be stored if the
/// snapshot has nothing of it.
pub fn merge_bucket_usage_removal(
    candidate: DataUsageInfo,
    existing: Option<DataUsageInfo>,
    bucket: &str,
) -> (r: Option<DataUsageInfo>)
    ensures
        ({
            let base = removal_base(candidate@, name_map::optional(existing));
            name_map::optional(r) == if bucket@.len() > 0 && mentions(base, bucket@) {
                Some(without_bucket(base, bucket@))
            } else {
                None
            }
        }),
{
    let mut data_usage_info = match existing {
        Some(existing) => {
            if data_usage_info_updated_at(&existing).nanos >= data_usage_info_updated_at(
                &candidate,
            ).nanos {
                existing
            } else {
                candidate
            }
        },
        None => candidate,
    };
    if remove_bucket_usage_from_info(&mut data_usage_info, bucket) {
        Some(data_usage_info)
    } else {
        None
    }
}

/// A bucket that was taken out of a snapshot is gone from it. The other buckets and the time of the
/// snapshot are as they were, and the totals are those of the other buckets.
pub proof fn law_removed_bucket_is_gone(info: DataUsage, bucket: Seq<char>, other: Seq<char>)
    requires
        bucket != other,
    ensures
        ({
            let after = without_bucket(info, bucket);
            &&& !mentions(after, bucket)
            &&& name_map::held(after.buckets_usage, other) == name_map::held(info.buckets_usage, other)
            &&& name_map::held(after.bucket_sizes, other) == name_map::held(info.bucket_sizes, other)
            &&& after.last_update == info.last_update
            &&& after.with_buckets_counted().with_totals() == after
        }),
{
}

/// Taking a bucket out takes its counts off the totals.
pub proof fn law_removal_reduces_totals(info: DataUsage, bucket: Seq<char>)
    requires
        info.buckets_usage.dom().finite(),
        info.buckets_usage.contains_key(bucket),
    ensures
        ({
            let after = without_bucket(info, bucket).buckets_usage;
            let gone = info.buckets_usage[bucket];
            &&& usage::total_objects(info.buckets_usage) == usage::total_objects(after)
                + gone.objects_count
            &&& usage::total_versions(info.buckets_usage) == usage::total_versions(after)
                + gone.versions_count
            &&& usage::total_delete_markers(info.buckets_usage) == usage::total_delete_markers(after)
                + gone.delete_markers_count
            &&& usage::total_size(info.buckets_usage) == usage::total_size(after) + gone.size
            &&& info.buckets_usage.len() == after.len() + 1
        }),
{
    let m = info.buckets_usage;
    name_map::lemma_sum_remove(m, |u: BucketUsage| u.objects_count as nat, bucket);
    name_map::lemma_sum_remove(m, |u: BucketUsage| u.versions_count as nat, bucket);
    name_map::lemma_sum_remove(m, |u: BucketUsage| u.delete_markers_count as nat, bucket);
    name_map::lemma_sum_remove(m, |u: BucketUsage| u.size as nat, bucket);
}

/// Of two snapshots, the one that is stored by now wins over an older candidate, so that a removal
/// does not bring back what was replaced meanwhile.
pub proof fn law_removal_keeps_newer_snapshot(candidate: DataUsage, existing: DataUsage)
    ensures
        usage::updated_at(removal_base(candidate, Some(existing))).nanos >= usage::updated_at(
            candidate,
        ).nanos,
        usage::updated_at(removal_base(candidate, Some(existing))).nanos >= usage::updated_at(
            existing,
        ).nanos,
{
}

/// Why something could not be read from the backend.
#[derive(Debug)]
pub enum ReadFault {
    /// There is nothing stored.
    NotFound,
    /// Anything else.
    Other(String),
}

/// What is done after something was read from the backend.
#[derive(Debug)]
pub enum LoadStep {
    /// What was read is decoded.
    Decode(Vec<u8>),
    /// The backup is read, which is stored at the given place.
    ReadBackup(String),
    /// Nothing is stored, and it counts as empty.
    Empty,
    /// It is given up.
    Fail(String),
}

/// What is done after the snapshot was read from `path`. On any fault the backup is read.
pub fn after_primary_read(path: &str, read: Result<Vec<u8>, ReadFault>) -> (r: LoadStep)
    ensures
        match read {
            Ok(data) => r == LoadStep::Decode(data),
            Err(_) => r matches LoadStep::ReadBackup(backup) && backup@ == path@ + ".bkp"@,
        },
{
    match read {
        Ok(data) => LoadStep::Decode(data),
        Err(_) => LoadStep::ReadBackup(backup_path(path)),
    }
}

/// What is done after something was read that has no backup, or after the backup was read. If it is
/// missing it counts as empty.
pub fn after_last_read(read: Result<Vec<u8>, ReadFault>) -> (r: LoadStep)
    ensures
        r == match read {
            Ok(data) => LoadStep::Decode(data),
            Err(ReadFault::NotFound) => LoadStep::Empty,
            Err(ReadFault::Other(text)) => LoadStep::Fail(text),
        },
{
    match read {
        Ok(data) => LoadStep::Decode(data),
        Err(ReadFault::NotFound) => LoadStep::Empty,
        Err(ReadFault::Other(text)) => LoadStep::Fail(text),
    }
}

/// The usage of a bucket of which only the size is known.
pub open spec fn sized(size: u64) -> BucketUsage {
    BucketUsage { size, ..usage::no_bucket_usage() }
}

/// A snapshot with what older writers left out: if it has only the sizes of the buckets, or only
/// their usage, each is made from the other.
pub open spec fn completed(info: DataUsage) -> DataUsage {
    DataUsage {
        buckets_usage: if info.buckets_usage.len() == 0 {
            Map::new(
                |k: Seq<char>| info.bucket_sizes.contains_key(k),
                |k: Seq<char>| sized(info.bucket_sizes[k]),
            )
        } else {
            info.buckets_usage
        },
        bucket_sizes: if info.bucket_sizes.len() == 0 {
            Map::new(
                |k: Seq<char>| info.buckets_usage.contains_key(k),
                |k: Seq<char>| info.buckets_usage[k].size,
            )
        } else {
            info.bucket_sizes
        },
        ..info
    }
}

/// The usages of buckets of which only the sizes are known.
fn usages_from_sizes(sizes: &NameMap<u64>) -> (r: NameMap<BucketUsageInfo>)
    ensures
        r@ == Map::new(
            |k: Seq<char>| sizes@.contains_key(k),
            |k: Seq<char>| sized(sizes@[k]),
        ),
{
    let mut usages: NameMap<BucketUsageInfo> = NameMap::new();
    let n = sizes.len();
    let ghost names = sizes.names();
    let mut i: usize = 0;
    while i < n
        invariant
            i <= n,
            n == sizes@.len(),
            names == sizes.names(),
            name_map::lists_names(names, sizes@),
            ({
                let done = name_map::first_entries(sizes@, names, i as nat);
                usages@ == Map::new(
                    |k: Seq<char>| done.contains_key(k),
                    |k: Seq<char>| sized(done[k]),
                )
            }),
        decreases n - i,
    {
        let ghost next = name_map::first_entries(sizes@, names, (i + 1) as nat);
        let bucket = sizes.name_at(i);
        let size = *sizes.value_at(i);
        let mut usage = BucketUsageInfo::default();
        usage.size = size;
        usages.insert(bucket.clone(), usage);
        assert(usages@ =~= Map::new(
            |k: Seq<char>| next.contains_key(k),
            |k: Seq<char>| sized(next[k]),
        ));
        i = i + 1;
    }
    proof {
        name_map::lemma_first_entries(sizes@, names, n as nat);
    }
    usages
}

/// The sizes of buckets of which the usage is known.
fn sizes_from_usages(usages: &NameMap<BucketUsageInfo>) -> (r: NameMap<u64>)
    ensures
        r@ == Map::new(
            |k: Seq<char>| usages@.contains_key(k),
            |k: Seq<char>| usages@[k].size,
        ),
{
    let mut sizes: NameMap<u64> = NameMap::new();
    let n = usages.len();
    let ghost names = usages.names();
    let mut i: usize = 0;
    while i < n
        invariant
            i <= n,
            n == usages@.len(),
            names == usages.names(),
            name_map::lists_names(names, usages@),
            ({
                let done = name_map::first_entries(usages@, names, i as nat);
                sizes@ == Map::new(
                    |k: Seq<char>| done.contains_key(k),
                    |k: Seq<char>| done[k].size,
                )
            }),
        decreases n - i,
    {
        let ghost next = name_map::first_entries(usages@, names, (i + 1) as nat);
        sizes.insert(usages.name_at(i).clone(), usages.value_at(i).size);
        assert(sizes@ =~= Map::new(
            |k: Seq<char>| next.contains_key(k),
            |k: Seq<char>| next[k].size,
        ));
        i = i + 1;
    }
    proof {
        name_map::lemma_first_entries(usages@, names, n as nat);
    }
    sizes
}

/// Completes a snapshot by what older writers left out.
pub fn complete_loaded_data_usage(data_usage_info: &mut DataUsageInfo)
    ensures
        final(data_usage_info)@ == completed(old(data_usage_info)@),
{
    let ghost info = data_usage_info@;
    if data_usage_info.buckets_usage.is_empty() {
        data_usage_info.buckets_usage = usages_from_sizes(&data_usage_info.bucket_sizes);
    }
    let no_sizes = data_usage_info.bucket_sizes.is_empty();
    if no_sizes {
        data_usage_info.bucket_sizes = sizes_from_usages(&data_usage_info.buckets_usage);
    }
    proof {
        assert(data_usage_info@.bucket_sizes =~= completed(info).bucket_sizes);
    }
}

/// A snapshot that lacked the sizes or the usage of the buckets has the same size for each bucket in
/// both when it is complete, and completing it again changes nothing.
pub proof fn law_completed_snapshot_agrees(info: DataUsage)
    requires
        info.buckets_usage.dom().finite(),
        info.bucket_sizes.dom().finite(),
    ensures
        completed(completed(info)) == completed(info),
        info.buckets_usage.len() == 0 || info.bucket_sizes.len() == 0 ==> {
            &&& completed(info).buckets_usage.dom() == completed(info).bucket_sizes.dom()
            &&& forall|k: Seq<char>| #[trigger]
                completed(info).buckets_usage.contains_key(k) ==> completed(info).buckets_usage[k].size
                    == completed(info).bucket_sizes[k]
        },
{
    let once = completed(info);
    let twice = completed(once);
    if info.buckets_usage.len() == 0 {
        assert(info.buckets_usage.dom() =~= Set::empty());
        assert(once.buckets_usage.dom() =~= info.bucket_sizes.dom());
    }
    if info.bucket_sizes.len() == 0 {
        assert(info.bucket_sizes.dom() =~= Set::empty());
        assert(once.bucket_sizes.dom() =~= info.buckets_usage.dom());
    }
    assert(twice.buckets_usage =~= once.buckets_usage);
    assert(twice.bucket_sizes =~= once.bucket_sizes);
}

/// Whether a bucket has replication counts that older writers kept per bucket.
pub open spec fn has_bucket_replication(u: BucketUsage) -> bool {
    u.replicated_size_v1 > 0 || u.replication_failed_count_v1 > 0 || u.replication_failed_size_v1 > 0
        || u.replication_pending_count_v1 > 0
}

/// The replication counts of a bucket as those of a target.
pub open spec fn as_target_usage(u: BucketUsage) -> BucketTargetUsageInfo {
    BucketTargetUsageInfo {
        replication_failed_size: u.replication_failed_size_v1,
        replication_failed_count: u.replication_failed_count_v1,
        replicated_size: u.replicated_size_v1,
        replication_pending_count: u.replication_pending_count_v1,
        replication_pending_size: u.replication_pending_size_v1,
        ..usage::no_target_usage()
    }
}

/// The buckets whose replication role has to be looked up, in name order.
pub fn replicated_buckets(data_usage_info: &DataUsageInfo) -> (r: Vec<String>)
    ensures
        lists_replicated(text::texts(r@), data_usage_info@),
{
    let buckets = &data_usage_info.buckets_usage;
    let mut found: NameMap<u64> = NameMap::new();
    let n = buckets.len();
    let ghost names = buckets.names();
    let mut i: usize = 0;
    while i < n
        invariant
            i <= n,
            buckets@ == data_usage_info@.buckets_usage,
            n == buckets@.len(),
            names == buckets.names(),
            name_map::lists_names(names, buckets@),
            forall|k: Seq<char>| #[trigger]
                found@.contains_key(k) <==> name_map::first_entries(
                    buckets@,
                    names,
                    i as nat,
                ).contains_key(k) && has_bucket_replication(buckets@[k]),
        decreases n - i,
    {
        let bui = buckets.value_at(i);
        if bui.replicated_size_v1 > 0 || bui.replication_failed_count_v1 > 0
            || bui.replication_failed_size_v1 > 0 || bui.replication_pending_count_v1 > 0 {
            found.insert(buckets.name_at(i).clone(), 0);
        }
        i = i + 1;
    }
    let r = found.name_list();
    proof {
        name_map::lemma_first_entries(buckets@, names, n as nat);
        assert forall|k: Seq<char>| #[trigger]
            text::texts(r@).contains(k) <==> found@.contains_key(k) by {
            if text::texts(r@).contains(k) {
                let p = choose|p: int| 0 <= p < text::texts(r@).len() && text::texts(r@)[p] == k;
                assert(found@.contains_key(text::texts(r@)[p]));
            }
        }
    }
    r
}

/// A snapshot with the replication counts of a bucket under its role.
pub open spec fn with_replication_role(
    info: DataUsage,
    bucket: Seq<char>,
    role: Seq<char>,
) -> DataUsage {
    if info.buckets_usage.contains_key(bucket) && has_bucket_replication(info.buckets_usage[bucket])
        && role.len() > 0 {
        DataUsage {
            replication_info: info.replication_info.insert(
                role,
                as_target_usage(info.buckets_usage[bucket]),
            ),
            ..info
        }
    } else {
        info
    }
}

/// Puts the replication counts that older writers kept per bucket under the bucket's role. A bucket
/// without such counts or without a role is passed over.
pub fn record_replication_role(data_usage_info: &mut DataUsageInfo, bucket: &str, role: &str)
    ensures
        final(data_usage_info)@ == with_replication_role(old(data_usage_info)@, bucket@, role@),
{
    let target = match data_usage_info.buckets_usage.get(bucket) {
        Some(bui) => {
            if (bui.replicated_size_v1 > 0 || bui.replication_failed_count_v1 > 0
                || bui.replication_failed_size_v1 > 0 || bui.replication_pending_count_v1 > 0)
                && role.unicode_len() > 0 {
                let mut target = BucketTargetUsageInfo::default();
                target.replication_failed_size = bui.replication_failed_size_v1;
                target.replication_failed_count = bui.replication_failed_count_v1;
                target.replicated_size = bui.replicated_size_v1;
                target.replication_pending_count = bui.replication_pending_count_v1;
                target.replication_pending_size = bui.replication_pending_size_v1;
                Some(target)
            } else {
                None
            }
        },
        None => None,
    };
    match target {
        Some(target) => {
            data_usage_info.replication_info.insert(role.to_owned(), target);
        },
        None => {},
    }
}

/// What a [`LoadedSnapshot`] stands for.
#[verifier::ext_equal]
pub struct SnapshotLoad {
    /// The snapshot as far as it is complete.
    pub info: DataUsage,
    /// The buckets whose replication role is still to be looked up.
    pub pending: Seq<Seq<char>>,
}

impl SnapshotLoad {
    /// The same load with the role of the next bucket looked up.
    pub open spec fn with_role(self, role: Option<Seq<char>>) -> SnapshotLoad {
        if self.pending.len() == 0 {
            self
        } else {
            SnapshotLoad {
                info: match role {
                    Some(role) => with_replication_role(self.info, self.pending[0], role),
                    None => self.info,
                },
                pending: self.pending.skip(1),
            }
        }
    }
}

/// A snapshot that was decoded and is being completed.
pub struct LoadedSnapshot {
    info: DataUsageInfo,
    buckets: Vec<String>,
    looked_up: usize,
}

impl View for LoadedSnapshot {
    type V = SnapshotLoad;

    closed spec fn view(&self) -> SnapshotLoad {
        SnapshotLoad {
            info: self.info@,
            pending: text::texts(self.buckets@).skip(self.looked_up as int),
        }
    }
}

/// `names` are the buckets of a snapshot with replication counts that older writers kept per bucket,
/// in name order.
pub open spec fn lists_replicated(names: Seq<Seq<char>>, info: DataUsage) -> bool {
    &&& name_map::ascending(names)
    &&& forall|k: Seq<char>| #[trigger]
        names.contains(k) <==> info.buckets_usage.contains_key(k) && has_bucket_replication(
            info.buckets_usage[k],
        )
}

impl LoadedSnapshot {
    #[verifier::type_invariant]
    spec fn well_formed(self) -> bool {
        self.looked_up <= self.buckets@.len()
    }

    /// Begins with what was decoded: fills in what older writers left out, and lists the buckets
    /// whose replication role has to be looked up. If it could not be decoded the load fails.
    pub fn new(decoded: Result<DataUsageInfo, String>) -> (r: Result<Self, String>)
        ensures
            match decoded {
                Ok(info) => {
                    &&& r is Ok
                    &&& r->Ok_0@.info == completed(info@)
                    &&& lists_replicated(r->Ok_0@.pending, completed(info@))
                },
                Err(text) => r is Err && r->Err_0@ == "Failed to deserialize data usage info: "@
                    + text@,
            },
    {
        match decoded {
            Ok(info) => {
                let mut info = info;
                complete_loaded_data_usage(&mut info);
                let buckets = replicated_buckets(&info);
                let r = LoadedSnapshot { info, buckets, looked_up: 0 };
                assert(r@.pending =~= text::texts(r.buckets@));
                Ok(r)
            },
            Err(text) => {
                let mut message = "Failed to deserialize data usage info: ".to_owned();
                message.append(text.as_str());
                Err(message)
            },
        }
    }

    /// The bucket whose replication role is to be looked up next.
    pub fn next_bucket(&self) -> (r: Option<String>)
        ensures
            match r {
                Some(bucket) => self@.pending.len() > 0 && bucket@ == self@.pending[0],
                None => self@.pending.len() == 0,
            },
    {
        proof {
            use_type_invariant(self);
        }
        if self.looked_up < self.buckets.len() {
            Some(self.buckets[self.looked_up].clone())
        } else {
            None
        }
    }

    /// Takes the role of that bucket, if it has one, and goes on to the next.
    pub fn record_role(&mut self, role: Option<&str>)
        ensures
            final(self)@ == old(self)@.with_role(
                match role {
                    Some(role) => Some(role@),
                    None => None,
                },
            ),
    {
        proof {
            use_type_invariant(&*self);
        }
        if self.looked_up < self.buckets.len() {
            match role {
                Some(role) => {
                    let mut info = DataUsageInfo::default();
                    core::mem::swap(&mut info, &mut self.info);
                    record_replication_role(&mut info, self.buckets[self.looked_up].as_str(), role);
                    self.info = info;
                },
                None => {},
            }
            self.looked_up = self.looked_up + 1;
            assert(self@.pending =~= old(self)@.pending.skip(1));
        }
    }

    /// The snapshot.
    pub fn finish(self) -> (r: DataUsageInfo)
        ensures
            r@ == self@.info,
    {
        self.info
    }
}

/// Looking up a role touches the replication counts of the store alone.
pub proof fn law_role_leaves_buckets(info: DataUsage, bucket: Seq<char>, role: Seq<char>)
    ensures
        ({
            let after = with_replication_role(info, bucket, role);
            after == DataUsage { replication_info: after.replication_info, ..info }
        }),
{
}

/// A load after several roles were looked up, one after the other.
pub open spec fn with_roles(load: SnapshotLoad, roles: Seq<Option<Seq<char>>>) -> SnapshotLoad
    decreases roles.len(),
{
    if roles.len() == 0 {
        load
    } else {
        with_roles(load, roles.drop_last()).with_role(roles.last())
    }
}

/// Over a whole load the roles go to the buckets in order, and the replication counts of each bucket
/// stand under its role, unless a later bucket has the same role. The buckets stay as they are.
pub proof fn law_roles_are_recorded(load: SnapshotLoad, roles: Seq<Option<Seq<char>>>, i: int)
    requires
        roles.len() <= load.pending.len(),
        0 <= i < roles.len(),
        roles[i] is Some,
        roles[i]->0.len() > 0,
        load.info.buckets_usage.contains_key(load.pending[i]),
        has_bucket_replication(load.info.buckets_usage[load.pending[i]]),
        forall|j: int| i < j < roles.len() ==> #[trigger] roles[j] != roles[i],
    ensures
        ({
            let after = with_roles(load, roles);
            &&& after.pending == load.pending.skip(roles.len() as int)
            &&& after.info.buckets_usage == load.info.buckets_usage
            &&& after.info.bucket_sizes == load.info.bucket_sizes
            &&& after.info.replication_info.contains_key(roles[i]->0)
            &&& after.info.replication_info[roles[i]->0] == as_target_usage(
                load.info.buckets_usage[load.pending[i]],
            )
        }),
    decreases roles.len(),
{
    let fewer = roles.drop_last();
    let n = roles.len() - 1;
    lemma_roles(load, fewer);
    let before = with_roles(load, fewer);
    assert(before.pending[0] == load.pending[n]);
    assert(before.pending.skip(1) =~= load.pending.skip(n + 1));
    if i < n {
        assert forall|j: int| i < j < fewer.len() implies #[trigger] fewer[j] != fewer[i] by {
            assert(roles[j] != roles[i]);
        }
        law_roles_are_recorded(load, fewer, i);
        assert(roles[n] != roles[i]);
    }
}

proof fn lemma_roles(load: SnapshotLoad, roles: Seq<Option<Seq<char>>>)
    requires
        roles.len() <= load.pending.len(),
    ensures
        with_roles(load, roles).pending == load.pending.skip(roles.len() as int),
        with_roles(load, roles).info.buckets_usage == load.info.buckets_usage,
        with_roles(load, roles).info.bucket_sizes == load.info.bucket_sizes,
    decreases roles.len(),
{
    if roles.len() == 0 {
        assert(load.pending.skip(0) =~= load.pending);
    } else {
        lemma_roles(load, roles.drop_last());
        assert(load.pending.skip(roles.len() - 1).skip(1) =~= load.pending.skip(
            roles.len() as int,
        ));
    }
}

/// Why the usage tree of a scanner could not be opened.
#[derive(Clone, Copy, Debug, PartialEq, Eq, Structural)]
pub enum TreeFault {
    FileNotFound,
    VolumeNotFound,
    Other,
}

/// What is done to get the usage tree of a scanner.
#[derive(Debug)]
pub enum TreeStep {
    /// What was opened is read and decoded; if it cannot be decoded it counts as empty.
    Decode,
    /// The place that older writers used is tried.
    Open(String),
    /// The tree counts as empty.
    Empty,
}

/// What is done after the tree with the given name was opened below the metadata prefix. Older
/// writers put it directly under its name, so that is tried if it is missing.
pub fn after_tree_open(name: &str, opened: Result<(), TreeFault>) -> (r: TreeStep)
    ensures
        match opened {
            Ok(()) => r is Decode,
            Err(TreeFault::Other) => r is Empty,
            Err(_) => r matches TreeStep::Open(path) && path@ == name@,
        },
{
    match opened {
        Ok(()) => TreeStep::Decode,
        Err(TreeFault::FileNotFound) => TreeStep::Open(name.to_owned()),
        Err(TreeFault::VolumeNotFound) => TreeStep::Open(name.to_owned()),
        Err(TreeFault::Other) => TreeStep::Empty,
    }
}

/// What is done after the tree was opened directly under its name.
pub fn after_fallback_tree_open(opened: Result<(), TreeFault>) -> (r: TreeStep)
    ensures
        match opened {
            Ok(()) => r is Decode,
            Err(_) => r is Empty,
        },
{
    match opened {
        Ok(()) => TreeStep::Decode,
        Err(_) => TreeStep::Empty,
    }
}

/// A path from the root stays what it is. Any other name ends the path, which begins with the prefix;
/// exactly one separator is put between them if the prefix does not bring one along, and none if there
/// is no prefix.
pub proof fn law_name_is_put_below_the_prefix(prefix: Seq<char>, name: Seq<char>)
    ensures
        ({
            let path = joined(prefix, name);
            let p = prefix.len() as int;
            let extra = path.len() - p - name.len();
            let from_root = name.len() > 0 && name[0] == '/';
            &&& from_root ==> path == name
            &&& !from_root ==> {
                &&& path.take(p) == prefix
                &&& path.skip(p + extra) == name
                &&& p == 0 || prefix[p - 1] == '/' ==> extra == 0
                &&& p > 0 && prefix[p - 1] != '/' ==> extra == 1 && path[p] == '/'
            }
        }),
{
    reveal_strlit("/");
    let path = joined(prefix, name);
    let p = prefix.len() as int;
    if !(name.len() > 0 && name[0] == '/') {
        assert(path.take(p) =~= prefix);
        assert(path.skip(path.len() - name.len()) =~= name);
    }
}

/// A snapshot replaces a stored one exactly if it is later. If either does not say when it was taken,
/// or nothing is stored, it is stored. Of two snapshots with a time at most one replaces the other.
pub proof fn law_only_a_later_snapshot_is_stored(
    info: DataUsage,
    stored: DataUsage,
    at: Timestamp,
    stored_at: Timestamp,
)
    ensures
        replaces(info, None),
        info.last_update is None ==> replaces(info, Some(stored)),
        stored.last_update is None ==> replaces(info, Some(stored)),
        info.last_update == Some(at) && stored.last_update == Some(stored_at) ==> {
            &&& replaces(info, Some(stored)) <==> at.nanos > stored_at.nanos
            &&& !(replaces(info, Some(stored)) && replaces(stored, Some(info)))
        },
{
}

/// There is something of a bucket in a snapshot if it has a usage of it or a size.
pub proof fn law_usage_or_size_is_a_mention(info: DataUsage, bucket: Seq<char>)
    ensures
        info.buckets_usage.contains_key(bucket) ==> mentions(info, bucket),
        info.bucket_sizes.contains_key(bucket) ==> mentions(info, bucket),
        mentions(info, bucket) ==> info.buckets_usage.contains_key(bucket)
            || info.bucket_sizes.contains_key(bucket),
{
}

/// Taking a bucket out of a snapshot leaves everything else: all other buckets with their usage and
/// their sizes, the time, the replication counts and the disks. The numbers are those of what is left.
pub proof fn law_removal_leaves_the_rest(info: DataUsage, bucket: Seq<char>, other: Seq<char>)
    requires
        bucket != other,
    ensures
        ({
            let after = without_bucket(info, bucket);
            &&& !after.buckets_usage.contains_key(bucket)
            &&& !after.bucket_sizes.contains_key(bucket)
            &&& after.buckets_usage.contains_key(other) <==> info.buckets_usage.contains_key(other)
            &&& after.buckets_usage[other] == info.buckets_usage[other]
            &&& after.bucket_sizes.contains_key(other) <==> info.bucket_sizes.contains_key(other)
            &&& after.bucket_sizes[other] == info.bucket_sizes[other]
            &&& after.last_update == info.last_update
            &&& after.replication_info == info.replication_info
            &&& after.disk_usage_status == info.disk_usage_status
            &&& after.with_totals() == after
            &&& after.with_buckets_counted() == after
        }),
{
}

/// A bucket is taken out of the stored snapshot unless the candidate is later, and out of the
/// candidate if nothing is stored. A snapshot without a time counts as one of the Unix epoch.
pub proof fn law_removal_is_from_the_later_snapshot(candidate: DataUsage, existing: DataUsage)
    ensures
        ({
            let candidate_at: int = match candidate.last_update {
                Some(t) => t.nanos as int,
                None => 0,
            };
            let existing_at: int = match existing.last_update {
                Some(t) => t.nanos as int,
                None => 0,
            };
            &&& existing_at >= candidate_at ==> removal_base(candidate, Some(existing)) == existing
            &&& existing_at < candidate_at ==> removal_base(candidate, Some(existing)) == candidate
            &&& removal_base(candidate, None) == candidate
        }),
{
}

/// A snapshot that has only the sizes of the buckets comes to have a usage of each, with its size and
/// nothing else. One that has only their usage comes to have the size of each. What a snapshot has of
/// either kind stays, and so does everything else in it.
pub proof fn law_snapshot_is_completed_from_itself(info: DataUsage, bucket: Seq<char>)
    ensures
        ({
            let after = completed(info);
            let made = after.buckets_usage[bucket];
            &&& info.buckets_usage.len() > 0 ==> after.buckets_usage == info.buckets_usage
            &&& info.bucket_sizes.len() > 0 ==> after.bucket_sizes == info.bucket_sizes
            &&& info.buckets_usage.len() == 0 ==> {
                &&& after.buckets_usage.contains_key(bucket) <==> info.bucket_sizes.contains_key(
                    bucket,
                )
                &&& info.bucket_sizes.contains_key(bucket) ==> {
                    &&& made.size == info.bucket_sizes[bucket]
                    &&& made == BucketUsage { size: made.size, ..usage::no_bucket_usage() }
                    &&& made.objects_count == 0
                    &&& made.versions_count == 0
                    &&& made.delete_markers_count == 0
                }
            }
            &&& info.bucket_sizes.len() == 0 ==> {
                &&& after.bucket_sizes.contains_key(bucket) <==> info.buckets_usage.contains_key(
                    bucket,
                )
                &&& info.buckets_usage.contains_key(bucket) ==> after.bucket_sizes[bucket]
                    == info.buckets_usage[bucket].size
            }
            &&& after.last_update == info.last_update
            &&& after.objects_total_count == info.objects_total_count
            &&& after.versions_total_count == info.versions_total_count
            &&& after.delete_markers_total_count == info.delete_markers_total_count
            &&& after.objects_total_size == info.objects_total_size
            &&& after.buckets_count == info.buckets_count
            &&& after.replication_info == info.replication_info
            &&& after.disk_usage_status == info.disk_usage_status
        }),
{
}

/// A bucket has replication counts of its own if anything of it was replicated, failed, or is counted
/// as pending. A pending size alone is none.
pub proof fn law_replication_is_seen_by_four_counts(u: BucketUsage)
    ensures
        u.replicated_size_v1 > 0 ==> has_bucket_replication(u),
        u.replication_failed_count_v1 > 0 ==> has_bucket_replication(u),
        u.replication_failed_size_v1 > 0 ==> has_bucket_replication(u),
        u.replication_pending_count_v1 > 0 ==> has_bucket_replication(u),
        u.replicated_size_v1 == 0 && u.replication_failed_count_v1 == 0
            && u.replication_failed_size_v1 == 0 && u.replication_pending_count_v1 == 0
            ==> !has_bucket_replication(u),
{
}

/// The buckets to be looked up are those with such replication counts, each once, in name order.
pub proof fn law_replicated_buckets_are_listed(
    names: Seq<Seq<char>>,
    info: DataUsage,
    bucket: Seq<char>,
)
    requires
        lists_replicated(names, info),
    ensures
        ({
            let u = info.buckets_usage[bucket];
            names.contains(bucket) <==> info.buckets_usage.contains_key(bucket) && (
            u.replicated_size_v1 > 0 || u.replication_failed_count_v1 > 0
                || u.replication_failed_size_v1 > 0 || u.replication_pending_count_v1 > 0)
        }),
        forall|i: int, j: int|
            0 <= i < j < names.len() ==> text::name_before(#[trigger] names[i], #[trigger] names[j]),
{
}

/// Under its role the five replication counts of a bucket stand as they are; there are no others. The
/// counts under other roles stay, and without a role, or without such counts, nothing changes.
pub proof fn law_replication_counts_stand_under_the_role(
    info: DataUsage,
    bucket: Seq<char>,
    role: Seq<char>,
    other: Seq<char>,
)
    requires
        other != role,
    ensures
        ({
            let after = with_replication_role(info, bucket, role);
            let u = info.buckets_usage[bucket];
            let target = after.replication_info[role];
            let counts = u.replicated_size_v1 > 0 || u.replication_failed_count_v1 > 0
                || u.replication_failed_size_v1 > 0 || u.replication_pending_count_v1 > 0;
            if info.buckets_usage.contains_key(bucket) && counts && role.len() > 0 {
                &&& after.replication_info.contains_key(role)
                &&& target.replication_failed_size == u.replication_failed_size_v1
                &&& target.replication_failed_count == u.replication_failed_count_v1
                &&& target.replicated_size == u.replicated_size_v1
                &&& target.replication_pending_count == u.replication_pending_count_v1
                &&& target.replication_pending_size == u.replication_pending_size_v1
                &&& target.replica_size == 0
                &&& target.replicated_count == 0
                &&& after.replication_info.contains_key(other)
                    <==> info.replication_info.contains_key(other)
                &&& after.replication_info[other] == info.replication_info[other]
            } else {
                after == info
            }
        }),
{
}

/// Each lookup settles the next bucket, and that alone, whether it has a role or not.
pub proof fn law_lookup_settles_the_next_bucket(load: SnapshotLoad, role: Option<Seq<char>>)
    ensures
        ({
            let after = load.with_role(role);
            &&& load.pending.len() == 0 ==> after == load
            &&& load.pending.len() > 0 ==> {
                &&& after.pending.len() == load.pending.len() - 1
                &&& forall|i: int|
                    0 <= i < after.pending.len() ==> #[trigger] after.pending[i]
                        == load.pending[i + 1]
                &&& role is None ==> after.info == load.info
                &&& role is Some ==> after.info == with_replication_role(
                    load.info,
                    load.pending[0],
                    role->0,
                )
            }
        }),
{
}

} // verus!
