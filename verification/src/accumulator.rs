//! Adding up a bucket's usage, entry by entry and page by page.

use crate::listing;
use crate::listing::{
    advance_version_listing_cursor, ensure_truncated_version_page_has_entries,
    record_version_listing_entry, ListingError, ListingFault, VersionSet,
};
use crate::name_map::NameMap;
use crate::usage;
use crate::usage::BucketUsageInfo;
use vstd::prelude::*;

verus! {

/// What an [`ObjectInfo`] stands for.
#[verifier::ext_equal]
pub struct ObjectEntry {
    pub name: Seq<char>,
    pub is_dir: bool,
    pub delete_marker: bool,
    pub size: i64,
    pub version_id: Option<Seq<u8>>,
}

/// One entry of a version listing.
#[derive(Debug)]
pub struct ObjectInfo {
    pub name: String,
    pub is_dir: bool,
    pub delete_marker: bool,
    pub size: i64,
    /// The bytes of the version's id; the null version has none.
    pub version_id: Option<[u8; 16]>,
}

impl View for ObjectInfo {
    type V = ObjectEntry;

    open spec fn view(&self) -> ObjectEntry {
        ObjectEntry {
            name: self.name@,
            is_dir: self.is_dir,
            delete_marker: self.delete_marker,
            size: self.size,
            version_id: listing::version_bytes(self.version_id),
        }
    }
}

/// What a list of entries stands for.
pub open spec fn listed(objects: Seq<ObjectInfo>) -> Seq<ObjectEntry> {
    Seq::new(objects.len(), |i: int| objects[i]@)
}

/// An entry counts as a live version if it is neither a directory nor a delete marker.
pub open spec fn is_live(e: ObjectEntry) -> bool {
    !e.is_dir && !e.delete_marker
}

/// The size that an entry counts with; a size that is not known counts as nothing.
pub open spec fn counted_size(e: ObjectEntry) -> u64 {
    if e.size < 0 {
        0
    } else {
        e.size as u64
    }
}

/// What a [`BucketUsageAccumulator`] stands for.
#[verifier::ext_equal]
pub struct Tally {
    /// The object that is being listed.
    pub current: Option<Seq<char>>,
    /// Its versions that were listed so far.
    pub seen: Set<Option<Seq<u8>>>,
    /// The number of them that are live.
    pub live: u64,
    /// The objects before it that have a live version.
    pub objects: u64,
    pub versions: u64,
    pub size: u64,
    pub delete_markers: u64,
}

/// Nothing counted yet.
pub open spec fn empty_tally() -> Tally {
    Tally {
        current: None,
        seen: Set::empty(),
        live: 0,
        objects: 0,
        versions: 0,
        size: 0,
        delete_markers: 0,
    }
}

/// The tally once the current object is known to be complete.
pub open spec fn closed_tally(t: Tally) -> Tally {
    Tally {
        objects: if t.live > 0 {
            usage::saturate((t.objects + 1) as nat)
        } else {
            t.objects
        },
        live: 0,
        ..t
    }
}

/// The entry belongs to another object than the current one.
pub open spec fn leaves_object(t: Tally, e: ObjectEntry) -> bool {
    !e.is_dir && t.current is Some && t.current->0 != e.name
}

/// The tally after one more entry, and what is wrong with the entry.
pub open spec fn tally_entry(t: Tally, e: ObjectEntry) -> (Tally, Option<ListingFault>) {
    if e.is_dir {
        (t, None)
    } else {
        let c = if leaves_object(t, e) {
            closed_tally(t)
        } else {
            t
        };
        let fault = listing::entry_fault(c.current, c.seen, e.name, e.version_id);
        if fault == Some(ListingFault::OutOfOrderObject) {
            (c, fault)
        } else {
            let n = Tally {
                current: Some(e.name),
                seen: listing::versions_in_question(c.current, c.seen, e.name).insert(e.version_id),
                ..c
            };
            if fault is Some {
                (n, fault)
            } else if e.delete_marker {
                (Tally { delete_markers: usage::saturate((n.delete_markers + 1) as nat), ..n }, None)
            } else {
                (
                    Tally {
                        live: usage::saturate((n.live + 1) as nat),
                        size: usage::saturate((n.size + counted_size(e)) as nat),
                        versions: usage::saturate((n.versions + 1) as nat),
                        ..n
                    },
                    None,
                )
            }
        }
    }
}

/// The tally after a list of entries; the first fault ends it.
pub open spec fn tally_all(t: Tally, entries: Seq<ObjectEntry>) -> (Tally, Option<ListingFault>)
    decreases entries.len(),
{
    if entries.len() == 0 {
        (t, None)
    } else {
        let (before, fault) = tally_all(t, entries.drop_last());
        if fault is Some {
            (before, fault)
        } else {
            tally_entry(before, entries.last())
        }
    }
}

/// The number of live versions of the object that an entry completes, if it completes one that
/// has any.
pub open spec fn completed_versions(t: Tally, e: ObjectEntry) -> Option<u64> {
    if leaves_object(t, e) && t.live > 0 {
        Some(t.live)
    } else {
        None
    }
}

/// The size that an entry adds to the size distribution, if it is a live version.
pub open spec fn observed_size(e: ObjectEntry) -> Option<u64> {
    if is_live(e) {
        Some(counted_size(e))
    } else {
        None
    }
}

/// `s` and then what `x` holds.
pub open spec fn with_observation(s: Seq<u64>, x: Option<u64>) -> Seq<u64> {
    match x {
        Some(v) => s.push(v),
        None => s,
    }
}

/// The sizes of the live versions among the entries, in order.
pub open spec fn observed_sizes(entries: Seq<ObjectEntry>) -> Seq<u64>
    decreases entries.len(),
{
    if entries.len() == 0 {
        Seq::empty()
    } else {
        with_observation(observed_sizes(entries.drop_last()), observed_size(entries.last()))
    }
}

/// The numbers of live versions of the objects that the entries complete, in order.
pub open spec fn observed_versions(t: Tally, entries: Seq<ObjectEntry>) -> Seq<u64>
    decreases entries.len(),
{
    if entries.len() == 0 {
        Seq::empty()
    } else {
        with_observation(
            observed_versions(t, entries.drop_last()),
            completed_versions(tally_all(t, entries.drop_last()).0, entries.last()),
        )
    }
}

/// What one entry adds to the distributions of sizes and of versions per object.
#[derive(Clone, Copy, Debug, PartialEq, Eq, Structural)]
pub struct Observation {
    /// The number of live versions of the object that the entry completed.
    pub object_versions: Option<u64>,
    /// The size of the entry, if it is a live version.
    pub object_size: Option<u64>,
}

/// Adds up the usage of a bucket while its versions are listed.
pub struct BucketUsageAccumulator {
    current_object_name: Option<String>,
    current_object_versions: VersionSet,
    current_live_versions: u64,
    objects_count: u64,
    versions_count: u64,
    total_size: u64,
    delete_markers: u64,
}

impl View for BucketUsageAccumulator {
    type V = Tally;

    closed spec fn view(&self) -> Tally {
        Tally {
            current: listing::optional_text(self.current_object_name),
            seen: self.current_object_versions@,
            live: self.current_live_versions,
            objects: self.objects_count,
            versions: self.versions_count,
            size: self.total_size,
            delete_markers: self.delete_markers,
        }
    }
}

impl Default for BucketUsageAccumulator {
    fn default() -> (r: Self)
        ensures
            r@ == empty_tally(),
    {
        BucketUsageAccumulator {
            current_object_name: None,
            current_object_versions: VersionSet::new(),
            current_live_versions: 0,
            objects_count: 0,
            versions_count: 0,
            total_size: 0,
            delete_markers: 0,
        }
    }
}

/// The usage that a complete tally comes to, with the given distributions.
pub open spec fn tallied_usage(
    t: Tally,
    sizes: Map<Seq<char>, u64>,
    versions: Map<Seq<char>, u64>,
) -> usage::BucketUsage {
    usage::BucketUsage {
        size: t.size,
        objects_count: t.objects,
        versions_count: t.versions,
        delete_markers_count: t.delete_markers,
        object_size_histogram: sizes,
        object_versions_histogram: versions,
        ..usage::no_bucket_usage()
    }
}

impl BucketUsageAccumulator {
    /// Counts one entry of the listing of `bucket`.
    pub fn record(&mut self, bucket: &str, object: &ObjectInfo) -> (r: Result<
        Observation,
        ListingError,
    >)
        ensures
            final(self)@ == tally_entry(old(self)@, object@).0,
            listing::reports(r, bucket@, tally_entry(old(self)@, object@).1),
            r matches Ok(o) ==> o.object_versions == completed_versions(old(self)@, object@)
                && o.object_size == observed_size(object@),
    {
        if object.is_dir {
            return Ok(Observation { object_versions: None, object_size: None });
        }
        let leaves = match self.current_object_name.as_ref() {
            Some(current) => !(*current == object.name),
            None => false,
        };
        let mut object_versions: Option<u64> = None;
        if leaves {
            object_versions = self.finish_current_object();
        }
        match record_version_listing_entry(
            bucket,
            &mut self.current_object_name,
            &mut self.current_object_versions,
            object.name.as_str(),
            object.version_id.as_ref(),
        ) {
            Ok(()) => {},
            Err(e) => {
                return Err(e);
            },
        }
        if object.delete_marker {
            self.delete_markers = self.delete_markers.saturating_add(1);
            return Ok(Observation { object_versions, object_size: None });
        }
        let object_size: u64 = if object.size < 0 {
            0
        } else {
            object.size as u64
        };
        self.current_live_versions = self.current_live_versions.saturating_add(1);
        self.total_size = self.total_size.saturating_add(object_size);
        self.versions_count = self.versions_count.saturating_add(1);
        Ok(Observation { object_versions, object_size: Some(object_size) })
    }

    /// Closes the current object and gives the number of its live versions, if it has any.
    pub fn finish_current_object(&mut self) -> (r: Option<u64>)
        ensures
            final(self)@ == closed_tally(old(self)@),
            r == (if old(self)@.live > 0 {
                Some(old(self)@.live)
            } else {
                None
            }),
    {
        let live = self.current_live_versions;
        self.current_live_versions = 0;
        if live > 0 {
            self.objects_count = self.objects_count.saturating_add(1);
            Some(live)
        } else {
            None
        }
    }

    /// The usage of the bucket, with the distributions of what was observed.
    pub fn finish(
        self,
        object_size_histogram: NameMap<u64>,
        object_versions_histogram: NameMap<u64>,
    ) -> (r: BucketUsageInfo)
        ensures
            r@ == tallied_usage(
                closed_tally(self@),
                object_size_histogram@,
                object_versions_histogram@,
            ),
    {
        let mut done = self;
        let _ = done.finish_current_object();
        let mut usage = BucketUsageInfo::default();
        usage.size = done.total_size;
        usage.objects_count = done.objects_count;
        usage.versions_count = done.versions_count;
        usage.delete_markers_count = done.delete_markers;
        usage.object_size_histogram = object_size_histogram;
        usage.object_versions_histogram = object_versions_histogram;
        usage
    }
}

/// One page of a version listing.
#[derive(Debug)]
pub struct VersionPage {
    pub objects: Vec<ObjectInfo>,
    /// The listing goes on after this page.
    pub is_truncated: bool,
    pub next_marker: Option<String>,
    pub next_version_idmarker: Option<String>,
}

/// What a page adds to the distributions, and whether it was the last.
#[derive(Debug)]
pub struct PageOutcome {
    pub complete: bool,
    /// The sizes of the live versions on the page.
    pub object_sizes: Vec<u64>,
    /// The numbers of live versions of the objects that the page completed.
    pub object_versions: Vec<u64>,
}

/// Counts a bucket's usage over the pages of its version listing.
pub struct BucketUsageListing {
    bucket: String,
    marker: Option<String>,
    version_marker: Option<String>,
    usage: BucketUsageAccumulator,
}

/// What is wrong with a page, for a listing with the given tally and markers.
pub open spec fn page_fault(
    t: Tally,
    marker: Option<Seq<char>>,
    version_marker: Option<Seq<char>>,
    page: VersionPage,
) -> Option<ListingFault> {
    let fault = tally_all(t, listed(page.objects@)).1;
    if fault is Some {
        fault
    } else if !page.is_truncated {
        None
    } else if page.objects@.len() == 0 {
        Some(ListingFault::EmptyTruncatedPage)
    } else {
        listing::cursor_fault(
            marker,
            version_marker,
            listing::optional_text(page.next_marker),
            listing::optional_text(page.next_version_idmarker),
        )
    }
}

impl BucketUsageListing {
    /// The bucket that is listed.
    pub closed spec fn bucket_name(&self) -> Seq<char> {
        self.bucket@
    }

    /// The key that the next page begins at.
    pub closed spec fn key_marker(&self) -> Option<Seq<char>> {
        listing::optional_text(self.marker)
    }

    /// The version that the next page begins at.
    pub closed spec fn version_id_marker(&self) -> Option<Seq<char>> {
        listing::optional_text(self.version_marker)
    }

    /// What was counted so far.
    pub closed spec fn tally(&self) -> Tally {
        self.usage@
    }

    /// A listing of `bucket` from its beginning.
    pub fn new(bucket: &str) -> (r: Self)
        ensures
            r.bucket_name() == bucket@,
            r.key_marker() is None,
            r.version_id_marker() is None,
            r.tally() == empty_tally(),
    {
        BucketUsageListing {
            bucket: bucket.to_owned(),
            marker: None,
            version_marker: None,
            usage: BucketUsageAccumulator::default(),
        }
    }

    /// The markers to ask for the next page with.
    pub fn next_request(&self) -> (r: (Option<String>, Option<String>))
        ensures
            listing::optional_text(r.0) == self.key_marker(),
            listing::optional_text(r.1) == self.version_id_marker(),
    {
        let marker = match self.marker.as_ref() {
            Some(m) => Some(m.clone()),
            None => None,
        };
        let version_marker = match self.version_marker.as_ref() {
            Some(m) => Some(m.clone()),
            None => None,
        };
        (marker, version_marker)
    }

    /// Counts a page and moves on to the next one.
    pub fn accept_page(&mut self, page: VersionPage) -> (r: Result<PageOutcome, ListingError>)
        ensures
            final(self).bucket_name() == old(self).bucket_name(),
            final(self).tally() == tally_all(old(self).tally(), listed(page.objects@)).0,
            listing::reports(
                r,
                old(self).bucket_name(),
                page_fault(
                    old(self).tally(),
                    old(self).key_marker(),
                    old(self).version_id_marker(),
                    page,
                ),
            ),
            r is Err || !page.is_truncated ==> final(self).key_marker() == old(self).key_marker()
                && final(self).version_id_marker() == old(self).version_id_marker(),
            r is Ok && page.is_truncated ==> final(self).key_marker() == listing::optional_text(
                page.next_marker,
            ) && final(self).version_id_marker() == listing::optional_text(
                page.next_version_idmarker,
            ),
            r matches Ok(o) ==> {
                &&& o.complete == !page.is_truncated
                &&& o.object_sizes@ == observed_sizes(listed(page.objects@))
                &&& o.object_versions@ == observed_versions(
                    old(self).tally(),
                    listed(page.objects@),
                )
            },
    {
        let ghost start = self.usage@;
        let ghost all = listed(page.objects@);
        let n = page.objects.len();
        let mut object_sizes: Vec<u64> = Vec::new();
        let mut object_versions: Vec<u64> = Vec::new();
        let mut i: usize = 0;
        proof {
            assert(all.take(0) =~= Seq::empty());
        }
        while i < n
            invariant
                i <= n,
                n == page.objects@.len(),
                all == listed(page.objects@),
                self.bucket == old(self).bucket,
                self.marker == old(self).marker,
                self.version_marker == old(self).version_marker,
                self.usage@ == tally_all(start, all.take(i as int)).0,
                tally_all(start, all.take(i as int)).1 is None,
                start == old(self).usage@,
                object_sizes@ == observed_sizes(all.take(i as int)),
                object_versions@ == observed_versions(start, all.take(i as int)),
            decreases n - i,
        {
            proof {
                let part = all.take(i + 1);
                assert(part.drop_last() =~= all.take(i as int));
                assert(part.last() == page.objects@[i as int]@);
            }
            match self.usage.record(self.bucket.as_str(), &page.objects[i]) {
                Ok(observation) => {
                    if let Some(size) = observation.object_size {
                        object_sizes.push(size);
                    }
                    if let Some(versions) = observation.object_versions {
                        object_versions.push(versions);
                    }
                },
                Err(e) => {
                    proof {
                        lemma_tally_fault_stays(start, all, i + 1);
                    }
                    return Err(e);
                },
            }
            i = i + 1;
        }
        proof {
            assert(all.take(n as int) =~= all);
        }
        if !page.is_truncated {
            return Ok(PageOutcome { complete: true, object_sizes, object_versions });
        }
        match ensure_truncated_version_page_has_entries(self.bucket.as_str(), n) {
            Ok(()) => {},
            Err(e) => {
                return Err(e);
            },
        }
        match advance_version_listing_cursor(
            self.bucket.as_str(),
            &mut self.marker,
            &mut self.version_marker,
            page.next_marker,
            page.next_version_idmarker,
        ) {
            Ok(()) => {},
            Err(e) => {
                return Err(e);
            },
        }
        Ok(PageOutcome { complete: false, object_sizes, object_versions })
    }

    /// Closes the last object and gives the number of its live versions, if it has any.
    pub fn finish_last_object(&mut self) -> (r: Option<u64>)
        ensures
            final(self).tally() == closed_tally(old(self).tally()),
            final(self).bucket_name() == old(self).bucket_name(),
            final(self).key_marker() == old(self).key_marker(),
            final(self).version_id_marker() == old(self).version_id_marker(),
            r == (if old(self).tally().live > 0 {
                Some(old(self).tally().live)
            } else {
                None
            }),
    {
        self.usage.finish_current_object()
    }

    /// The usage of the bucket, with the distributions of what was observed.
    pub fn finish(
        self,
        object_size_histogram: NameMap<u64>,
        object_versions_histogram: NameMap<u64>,
    ) -> (r: BucketUsageInfo)
        ensures
            r@ == tallied_usage(
                closed_tally(self.tally()),
                object_size_histogram@,
                object_versions_histogram@,
            ),
    {
        self.usage.finish(object_size_histogram, object_versions_histogram)
    }
}

/// A fault within the first `n` entries is the fault of them all.
proof fn lemma_tally_fault_stays(t: Tally, entries: Seq<ObjectEntry>, n: int)
    requires
        0 <= n <= entries.len(),
        tally_all(t, entries.take(n)).1 is Some,
    ensures
        tally_all(t, entries) == tally_all(t, entries.take(n)),
    decreases entries.len() - n,
{
    if n == entries.len() {
        assert(entries.take(n) =~= entries);
    } else {
        assert(entries.take(n + 1).drop_last() =~= entries.take(n));
        lemma_tally_fault_stays(t, entries, n + 1);
    }
}

} // verus!
