//! What counting a listing comes to.

use crate::accumulator;
use crate::accumulator::{ObjectEntry, ObjectInfo, Tally, VersionPage};
use crate::listing;
use crate::listing::{ListingError, ListingFault};
use crate::text;
use crate::usage;
use vstd::prelude::*;

verus! {

/// How a listing is cut into pages makes no difference: counting two lists of entries one after
/// the other is counting them as one.
pub proof fn law_page_boundaries_do_not_matter(
    t: Tally,
    first: Seq<ObjectEntry>,
    second: Seq<ObjectEntry>,
)
    ensures
        accumulator::tally_all(t, first + second) == ({
            let (middle, fault) = accumulator::tally_all(t, first);
            if fault is Some {
                (middle, fault)
            } else {
                accumulator::tally_all(middle, second)
            }
        }),
    decreases second.len(),
{
    if second.len() == 0 {
        assert(first + second =~= first);
    } else {
        assert((first + second).drop_last() =~= first + second.drop_last());
        law_page_boundaries_do_not_matter(t, first, second.drop_last());
    }
}

/// A listing does not go back and does not stand still: a page is followed only by one that begins
/// at a later key, or at another version of the same key. What a server notes behind the key makes
/// no difference.
pub proof fn law_cursor_moves_on(
    marker: Seq<char>,
    version_marker: Seq<char>,
    next_marker: Option<Seq<char>>,
    next_version_marker: Option<Seq<char>>,
)
    requires
        listing::cursor_fault(
            Some(marker),
            Some(version_marker),
            next_marker,
            next_version_marker,
        ) is None,
    ensures
        next_marker is Some && next_marker->0.len() > 0,
        next_version_marker is Some && next_version_marker->0.len() > 0,
        text::name_before(text::marker_key(marker), text::marker_key(next_marker->0)) || (
        text::marker_key(marker) == text::marker_key(next_marker->0) && version_marker
            != next_version_marker->0),
{
    text::law_name_order_trichotomy(text::marker_key(marker), text::marker_key(next_marker->0));
}

/// Why a listing cannot go on at the given markers. There must be a key and a version, and if the
/// page itself began at a key, they must not be where it began and the key must not lie before it.
/// Any other markers are taken.
pub proof fn law_cursor_is_refused_for_a_reason(
    marker: Option<Seq<char>>,
    version_marker: Option<Seq<char>>,
    next_marker: Option<Seq<char>>,
    next_version_marker: Option<Seq<char>>,
)
    ensures
        ({
            let fault = listing::cursor_fault(
                marker,
                version_marker,
                next_marker,
                next_version_marker,
            );
            let no_key = next_marker is None || next_marker->0 =~= Seq::empty();
            let no_version = next_version_marker is None || next_version_marker->0 =~= Seq::empty();
            let here = marker is Some && text::marker_key(marker->0) == text::marker_key(
                next_marker->0,
            ) && version_marker == next_version_marker;
            let back = marker is Some && text::name_before(
                text::marker_key(next_marker->0),
                text::marker_key(marker->0),
            );
            &&& fault == Some(ListingFault::MissingKeyMarker) <==> no_key
            &&& fault == Some(ListingFault::MissingVersionMarker) <==> !no_key && no_version
            &&& fault == Some(ListingFault::RepeatedMarker) <==> !no_key && !no_version && here
            &&& fault == Some(ListingFault::RegressingMarker) <==> !no_key && !no_version && back
            &&& fault is None <==> !no_key && !no_version && !here && !back
        }),
{
    if marker is Some && next_marker is Some {
        text::law_name_order_trichotomy(
            text::marker_key(marker->0),
            text::marker_key(next_marker->0),
        );
    }
}

/// Why a version cannot be listed next: its object comes before the current one, or it is a version
/// of the current object that was listed before. The versions of an earlier object do not matter.
pub proof fn law_entry_is_refused_for_a_reason(
    current: Seq<char>,
    seen: Set<Option<Seq<u8>>>,
    name: Seq<char>,
    version: Option<Seq<u8>>,
)
    ensures
        ({
            let fault = listing::entry_fault(Some(current), seen, name, version);
            let next = listing::versions_in_question(Some(current), seen, name);
            &&& fault == Some(ListingFault::OutOfOrderObject) <==> text::name_before(name, current)
            &&& fault == Some(ListingFault::RepeatedVersion) <==> name == current && seen.contains(
                version,
            )
            &&& fault is None <==> text::name_before(current, name) || (name == current
                && !seen.contains(version))
            &&& name == current ==> next == seen
            &&& text::name_before(current, name) ==> next == Set::<Option<Seq<u8>>>::empty()
        }),
{
    text::law_name_order_trichotomy(name, current);
}

/// Before any object was listed, a version is refused only if it was listed, and all are kept.
pub proof fn law_first_entry_begins_an_object(
    seen: Set<Option<Seq<u8>>>,
    name: Seq<char>,
    version: Option<Seq<u8>>,
)
    ensures
        listing::entry_fault(None, seen, name, version) == (if seen.contains(version) {
            Some(ListingFault::RepeatedVersion)
        } else {
            None
        }),
        listing::versions_in_question(None, seen, name) == seen,
{
}

/// What is wrong with a page. A fault of an entry comes first. Nothing else is wrong with the last
/// page; one that says there is more has an entry, and markers at which the listing can go on.
pub proof fn law_page_is_refused_for_a_reason(
    t: Tally,
    marker: Option<Seq<char>>,
    version_marker: Option<Seq<char>>,
    page: VersionPage,
)
    ensures
        ({
            let entries = accumulator::listed(page.objects@);
            let entry = accumulator::tally_all(t, entries).1;
            let cursor = listing::cursor_fault(
                marker,
                version_marker,
                listing::optional_text(page.next_marker),
                listing::optional_text(page.next_version_idmarker),
            );
            let fault = accumulator::page_fault(t, marker, version_marker, page);
            &&& entry is Some ==> fault == entry
            &&& entry is None && !page.is_truncated ==> fault is None
            &&& page.is_truncated && page.objects@.len() == 0 ==> fault == Some(
                ListingFault::EmptyTruncatedPage,
            )
            &&& page.is_truncated && page.objects@.len() > 0 && entry is None ==> fault == cursor
        }),
{
}

/// The first entry with which something is wrong ends the count: what comes behind it makes no
/// difference.
pub proof fn law_first_fault_ends_the_count(
    t: Tally,
    entries: Seq<ObjectEntry>,
    e: ObjectEntry,
)
    ensures
        accumulator::tally_all(t, entries).1 is Some ==> accumulator::tally_all(t, entries.push(e))
            == accumulator::tally_all(t, entries),
        accumulator::tally_all(t, entries).1 is None ==> accumulator::tally_all(t, entries.push(e))
            == accumulator::tally_entry(accumulator::tally_all(t, entries).0, e),
        accumulator::tally_all(t, Seq::empty()) == (t, None::<ListingFault>),
{
    assert(entries.push(e).drop_last() =~= entries);
}

/// A result reports no fault if it is a success. If it is an error it reports the fault that is in
/// it, of the bucket that is named in it.
pub proof fn law_error_names_its_bucket_and_fault<T>(
    r: Result<T, ListingError>,
    bucket: Seq<char>,
    fault: Option<ListingFault>,
)
    requires
        listing::reports(r, bucket, fault),
    ensures
        r is Ok <==> fault is None,
        r matches Err(e) ==> fault == Some(e.fault) && e.bucket@ == bucket,
{
}

/// Where a listing stands after the given markers were taken over, one after the other.
pub open spec fn position(
    start: (Option<Seq<char>>, Option<Seq<char>>),
    nexts: Seq<(Option<Seq<char>>, Option<Seq<char>>)>,
) -> (Option<Seq<char>>, Option<Seq<char>>) {
    if nexts.len() == 0 {
        start
    } else {
        nexts.last()
    }
}

/// Whether all of the given markers are taken over, one after the other.
pub open spec fn run_accepted(
    start: (Option<Seq<char>>, Option<Seq<char>>),
    nexts: Seq<(Option<Seq<char>>, Option<Seq<char>>)>,
) -> bool
    decreases nexts.len(),
{
    nexts.len() == 0 || {
        let at = position(start, nexts.drop_last());
        &&& run_accepted(start, nexts.drop_last())
        &&& listing::cursor_fault(at.0, at.1, nexts.last().0, nexts.last().1) is None
    }
}

/// Over a whole run of pages the key never goes back, from any page to any later one, and every page
/// moves the cursor.
pub proof fn law_cursor_runs_forward(
    start: (Option<Seq<char>>, Option<Seq<char>>),
    nexts: Seq<(Option<Seq<char>>, Option<Seq<char>>)>,
    i: int,
    j: int,
)
    requires
        run_accepted(start, nexts),
        0 <= i < j < nexts.len(),
    ensures
        nexts[i].0 is Some && nexts[i].1 is Some && nexts[j].0 is Some && nexts[j].1 is Some,
        !text::name_before(text::marker_key(nexts[j].0->0), text::marker_key(nexts[i].0->0)),
        j == i + 1 ==> text::marker_key(nexts[i].0->0) != text::marker_key(nexts[j].0->0)
            || nexts[i].1 != nexts[j].1,
    decreases nexts.len(),
{
    let before = nexts.drop_last();
    if j < before.len() {
        law_cursor_runs_forward(start, before, i, j);
    } else {
        let last = before.last();
        assert(run_accepted(start, before));
        law_cursor_moves_on(last.0->0, last.1->0, nexts[j].0, nexts[j].1);
        let key = text::marker_key(last.0->0);
        let next = text::marker_key(nexts[j].0->0);
        text::law_name_order_trichotomy(key, next);
        if i < j - 1 {
            law_cursor_runs_forward(start, before, i, j - 1);
            let first = text::marker_key(nexts[i].0->0);
            text::law_name_order_trichotomy(first, key);
            text::law_name_order_trichotomy(first, next);
            if first != key && key != next {
                text::law_name_order_transitive(first, key, next);
            }
        }
    }
}

/// What is noted of the entries `(name, version)` of a listing once they have been accepted: the last
/// object, and its versions.
pub open spec fn noted(entries: Seq<(Seq<char>, Option<Seq<u8>>)>) -> (
    Option<Seq<char>>,
    Set<Option<Seq<u8>>>,
)
    decreases entries.len(),
{
    if entries.len() == 0 {
        (None, Set::empty())
    } else {
        let (current, seen) = noted(entries.drop_last());
        let (name, version) = entries.last();
        (Some(name), listing::versions_in_question(current, seen, name).insert(version))
    }
}

/// Whether all of the entries `(name, version)` are accepted, one after the other, from the beginning
/// of a listing.
pub open spec fn entries_accepted(entries: Seq<(Seq<char>, Option<Seq<u8>>)>) -> bool
    decreases entries.len(),
{
    entries.len() == 0 || {
        let (current, seen) = noted(entries.drop_last());
        &&& entries_accepted(entries.drop_last())
        &&& listing::entry_fault(current, seen, entries.last().0, entries.last().1) is None
    }
}

/// No entry has a name that comes before that of the entry ahead of it.
pub open spec fn names_in_order(entries: Seq<(Seq<char>, Option<Seq<u8>>)>) -> bool
    decreases entries.len(),
{
    entries.len() <= 1 || {
        &&& names_in_order(entries.drop_last())
        &&& !text::name_before(entries.last().0, entries[entries.len() - 2].0)
    }
}

/// Of entries in name order, the last object and its versions are noted.
proof fn lemma_noted(entries: Seq<(Seq<char>, Option<Seq<u8>>)>)
    requires
        names_in_order(entries),
        entries.len() > 0,
    ensures
        noted(entries).0 == Some(entries.last().0),
        forall|i: int|
            0 <= i < entries.len() ==> ((#[trigger] entries[i]).0 == entries.last().0
                || text::name_before(entries[i].0, entries.last().0)),
        forall|v: Option<Seq<u8>>| #[trigger]
            noted(entries).1.contains(v) <==> entries.contains((entries.last().0, v)),
    decreases entries.len(),
{
    let before = entries.drop_last();
    let last = entries.last();
    let n = entries.len() - 1;
    let (current, seen) = noted(before);
    assert(noted(entries).1 == listing::versions_in_question(current, seen, last.0).insert(last.1));
    if before.len() == 0 {
        assert(seen == Set::<Option<Seq<u8>>>::empty());
    } else {
        lemma_noted(before);
        let prev = before.last();
        text::law_name_order_trichotomy(prev.0, last.0);
        assert forall|i: int| 0 <= i < entries.len() implies ((#[trigger] entries[i]).0 == last.0
            || text::name_before(entries[i].0, last.0)) by {
            if i < n {
                assert(before[i] == entries[i]);
                if entries[i].0 != prev.0 && prev.0 != last.0 {
                    text::law_name_order_transitive(entries[i].0, prev.0, last.0);
                }
            }
        }
    }
    assert forall|v: Option<Seq<u8>>| #[trigger]
        noted(entries).1.contains(v) <==> entries.contains((last.0, v)) by {
        let pair = (last.0, v);
        if v == last.1 {
            assert(entries[n] == pair);
        } else {
            if entries.contains(pair) {
                let i = choose|i: int| 0 <= i < entries.len() && entries[i] == pair;
                assert(before[i] == pair);
            }
            if before.len() > 0 {
                let prev = before.last();
                text::law_name_order_trichotomy(prev.0, last.0);
                assert(noted(before).1.contains(v) <==> before.contains((prev.0, v)));
                if before.contains(pair) {
                    let i = choose|i: int| 0 <= i < before.len() && before[i] == pair;
                    assert(entries[i] == pair);
                    text::law_name_order_trichotomy(before[i].0, prev.0);
                }
            }
        }
    }
}

/// The entries of a listing are accepted exactly if their names are in order and no version of an
/// object comes twice.
pub proof fn law_listing_is_accepted_exactly_if_ordered(
    entries: Seq<(Seq<char>, Option<Seq<u8>>)>,
)
    ensures
        entries_accepted(entries) <==> names_in_order(entries) && entries.no_duplicates(),
    decreases entries.len(),
{
    if entries.len() > 0 {
        let before = entries.drop_last();
        let last = entries.last();
        let n = entries.len() - 1;
        law_listing_is_accepted_exactly_if_ordered(before);
        if before.len() > 0 && names_in_order(before) {
            lemma_noted(before);
            let prev = before.last();
            assert(prev == entries[n - 1]);
            text::law_name_order_trichotomy(prev.0, last.0);
            if names_in_order(entries) {
                lemma_noted(entries);
                if prev.0 != last.0 && before.contains(last) {
                    let i = choose|i: int| 0 <= i < before.len() && before[i] == last;
                    text::law_name_order_trichotomy(before[i].0, prev.0);
                }
                assert(entries.no_duplicates() <==> before.no_duplicates() && !before.contains(last))
                    by {
                    if before.contains(last) {
                        let i = choose|i: int| 0 <= i < before.len() && before[i] == last;
                        assert(entries[i] == entries[n]);
                    }
                    if entries.no_duplicates() {
                        assert forall|i: int, j: int|
                            0 <= i < before.len() && 0 <= j < before.len() && i
                                != j implies before[i] != before[j] by {
                            assert(entries[i] != entries[j]);
                        }
                    }
                    if before.no_duplicates() && !before.contains(last) {
                        assert forall|i: int, j: int|
                            0 <= i < entries.len() && 0 <= j < entries.len() && i
                                != j implies entries[i] != entries[j] by {
                            if i < n {
                                assert(before[i] == entries[i]);
                            }
                            if j < n {
                                assert(before[j] == entries[j]);
                            }
                        }
                    }
                }
            }
        }
        if before.len() > 0 && entries.no_duplicates() {
            assert forall|i: int, j: int|
                0 <= i < before.len() && 0 <= j < before.len() && i != j implies before[i]
                != before[j] by {
                assert(entries[i] != entries[j]);
            }
        }
    }
}

/// The names and versions of the entries that are not directories.
pub open spec fn listed_versions(entries: Seq<ObjectEntry>) -> Seq<(Seq<char>, Option<Seq<u8>>)>
    decreases entries.len(),
{
    if entries.len() == 0 {
        Seq::empty()
    } else if entries.last().is_dir {
        listed_versions(entries.drop_last())
    } else {
        listed_versions(entries.drop_last()).push((entries.last().name, entries.last().version_id))
    }
}

proof fn lemma_tally_notes(entries: Seq<ObjectEntry>)
    ensures
        accumulator::tally_all(accumulator::empty_tally(), entries).1 is None <==> entries_accepted(
            listed_versions(entries),
        ),
        accumulator::tally_all(accumulator::empty_tally(), entries).1 is None ==> ({
            let t = accumulator::tally_all(accumulator::empty_tally(), entries).0;
            (t.current, t.seen) == noted(listed_versions(entries))
        }),
    decreases entries.len(),
{
    if entries.len() > 0 {
        let e = entries.last();
        lemma_tally_notes(entries.drop_last());
        if !e.is_dir {
            let before = listed_versions(entries.drop_last());
            assert(listed_versions(entries).drop_last() =~= before);
        }
    }
}

/// A listing is counted without a fault exactly if its objects come in name order and no version of
/// an object comes twice; directories do not matter.
pub proof fn law_ordered_listing_is_counted(entries: Seq<ObjectEntry>)
    ensures
        accumulator::tally_all(accumulator::empty_tally(), entries).1 is None <==> names_in_order(
            listed_versions(entries),
        ) && listed_versions(entries).no_duplicates(),
{
    lemma_tally_notes(entries);
    law_listing_is_accepted_exactly_if_ordered(listed_versions(entries));
}

/// The number of live versions among the entries: those that are neither directories nor delete
/// markers.
pub open spec fn live_versions(entries: Seq<ObjectEntry>) -> nat
    decreases entries.len(),
{
    if entries.len() == 0 {
        0
    } else {
        let e = entries.last();
        live_versions(entries.drop_last()) + if !e.is_dir && !e.delete_marker {
            1nat
        } else {
            0nat
        }
    }
}

/// The size of the live versions among the entries; one whose size is negative, because it is not
/// known, has none.
pub open spec fn live_size(entries: Seq<ObjectEntry>) -> nat
    decreases entries.len(),
{
    if entries.len() == 0 {
        0
    } else {
        let e = entries.last();
        live_size(entries.drop_last()) + if !e.is_dir && !e.delete_marker && e.size >= 0 {
            e.size as nat
        } else {
            0nat
        }
    }
}

/// The number of delete markers among the entries.
pub open spec fn delete_markers(entries: Seq<ObjectEntry>) -> nat
    decreases entries.len(),
{
    if entries.len() == 0 {
        0
    } else {
        delete_markers(entries.drop_last()) + if !entries.last().is_dir
            && entries.last().delete_marker {
            1nat
        } else {
            0nat
        }
    }
}

/// The names of the objects that have a live version among the entries.
pub open spec fn live_names(entries: Seq<ObjectEntry>) -> Set<Seq<char>>
    decreases entries.len(),
{
    if entries.len() == 0 {
        Set::empty()
    } else if !entries.last().is_dir && !entries.last().delete_marker {
        live_names(entries.drop_last()).insert(entries.last().name)
    } else {
        live_names(entries.drop_last())
    }
}

/// What a tally says of the entries that it counts.
spec fn counts(t: Tally, entries: Seq<ObjectEntry>) -> bool {
    let names = live_names(entries);
    &&& t.versions == usage::saturate(live_versions(entries))
    &&& t.size == usage::saturate(live_size(entries))
    &&& t.delete_markers == usage::saturate(delete_markers(entries))
    &&& names.finite()
    &&& t.current is None ==> names == Set::<Seq<char>>::empty() && t.live == 0
    &&& t.current is Some ==> {
        &&& t.live > 0 <==> names.contains(t.current->0)
        &&& forall|n: Seq<char>| #[trigger]
            names.contains(n) ==> n == t.current->0 || text::name_before(n, t.current->0)
    }
    &&& t.live > 0 ==> t.objects == usage::saturate((names.len() - 1) as nat)
    &&& t.live == 0 ==> t.objects == usage::saturate(names.len())
}

proof fn lemma_counts(entries: Seq<ObjectEntry>)
    requires
        accumulator::tally_all(accumulator::empty_tally(), entries).1 is None,
    ensures
        counts(accumulator::tally_all(accumulator::empty_tally(), entries).0, entries),
    decreases entries.len(),
{
    let start = accumulator::empty_tally();
    if entries.len() > 0 {
        let before = entries.drop_last();
        let e = entries.last();
        lemma_counts(before);
        let t = accumulator::tally_all(start, before).0;
        let u = accumulator::tally_entry(t, e).0;
        let names = live_names(before);
        if !e.is_dir {
            if accumulator::leaves_object(t, e) {
                text::law_name_order_trichotomy(t.current->0, e.name);
                assert(text::name_before(t.current->0, e.name));
                assert forall|n: Seq<char>| #[trigger] names.contains(n) implies text::name_before(
                    n,
                    e.name,
                ) by {
                    if n != t.current->0 {
                        text::law_name_order_transitive(n, t.current->0, e.name);
                    }
                }
                text::law_name_order_trichotomy(e.name, e.name);
                assert(!names.contains(e.name));
            }
            if t.live > 0 {
                assert(names.contains(t.current->0));
                assert(names.len() > 0);
            }
            assert(u.current == Some(e.name));
            if accumulator::is_live(e) && names.contains(e.name) {
                assert(names.insert(e.name) =~= names);
            }
        }
    }
}

/// Usage is counted exactly. When a whole listing was counted without a fault, the sizes and the
/// numbers of versions and of delete markers are those of the listed entries, and the number of
/// objects is the number of names that have a live version.
pub proof fn law_usage_is_counted_exactly(entries: Seq<ObjectEntry>)
    requires
        accumulator::tally_all(accumulator::empty_tally(), entries).1 is None,
    ensures
        ({
            let t = accumulator::closed_tally(
                accumulator::tally_all(accumulator::empty_tally(), entries).0,
            );
            &&& t.versions == usage::saturate(live_versions(entries))
            &&& t.size == usage::saturate(live_size(entries))
            &&& t.delete_markers == usage::saturate(delete_markers(entries))
            &&& live_names(entries).finite()
            &&& t.objects == usage::saturate(live_names(entries).len())
        }),
{
    lemma_counts(entries);
    let t = accumulator::tally_all(accumulator::empty_tally(), entries).0;
    if t.live > 0 {
        assert(live_names(entries).contains(t.current->0));
        assert(live_names(entries).len() > 0);
    }
}

/// The size of a bucket is the sum of the sizes that were listed: a version that is neither a
/// directory nor a delete marker adds the larger of its listed size and zero, however large that
/// is, and nothing else adds to it. A sum that is too large for a count is kept as the largest.
pub proof fn law_size_is_the_sum_of_listed_sizes(
    entries: Seq<ObjectEntry>,
    e: ObjectEntry,
    sizes: Map<Seq<char>, u64>,
    versions: Map<Seq<char>, u64>,
)
    requires
        accumulator::tally_all(accumulator::empty_tally(), entries.push(e)).1 is None,
    ensures
        ({
            let start = accumulator::empty_tally();
            let before = accumulator::tallied_usage(
                accumulator::closed_tally(accumulator::tally_all(start, entries).0),
                sizes,
                versions,
            );
            let after = accumulator::tallied_usage(
                accumulator::closed_tally(accumulator::tally_all(start, entries.push(e)).0),
                sizes,
                versions,
            );
            let listed: int = if e.size > 0 {
                e.size as int
            } else {
                0
            };
            &&& accumulator::tally_all(start, entries).1 is None
            &&& !e.is_dir && !e.delete_marker && before.size + listed <= u64::MAX ==> after.size
                == before.size + listed
            &&& !e.is_dir && !e.delete_marker && before.size + listed > u64::MAX ==> after.size
                == u64::MAX
            &&& e.is_dir || e.delete_marker ==> after.size == before.size
        }),
        ({
            let none = accumulator::tallied_usage(
                accumulator::closed_tally(
                    accumulator::tally_all(accumulator::empty_tally(), Seq::empty()).0,
                ),
                sizes,
                versions,
            );
            none.size == 0
        }),
{
    assert(entries.push(e).drop_last() =~= entries);
}

/// What a listing without a fault comes to: the sum of the listed sizes, where a negative one counts
/// as zero, of the entries that are neither directories nor delete markers, and the numbers of such
/// entries, of their names, and of delete markers that are no directories. A number that is too
/// large for a count is kept as the largest. Nothing is said of replication.
pub proof fn law_listing_comes_to_what_is_listed(
    entries: Seq<ObjectEntry>,
    sizes: Map<Seq<char>, u64>,
    versions: Map<Seq<char>, u64>,
)
    requires
        accumulator::tally_all(accumulator::empty_tally(), entries).1 is None,
    ensures
        ({
            let u = accumulator::tallied_usage(
                accumulator::closed_tally(
                    accumulator::tally_all(accumulator::empty_tally(), entries).0,
                ),
                sizes,
                versions,
            );
            let limit = u64::MAX as nat;
            &&& u.size == if live_size(entries) <= limit { live_size(entries) } else { limit }
            &&& u.versions_count == if live_versions(entries) <= limit {
                live_versions(entries)
            } else {
                limit
            }
            &&& u.delete_markers_count == if delete_markers(entries) <= limit {
                delete_markers(entries)
            } else {
                limit
            }
            &&& live_names(entries).finite()
            &&& u.objects_count == if live_names(entries).len() <= limit {
                live_names(entries).len()
            } else {
                limit
            }
            &&& u.object_size_histogram == sizes
            &&& u.object_versions_histogram == versions
            &&& u.replica_size == 0
            &&& u.replica_count == 0
            &&& u.replication_info == Map::<Seq<char>, usage::BucketTargetUsageInfo>::empty()
            &&& u.replication_pending_size_v1 == 0
            &&& u.replication_failed_size_v1 == 0
            &&& u.replicated_size_v1 == 0
            &&& u.replication_pending_count_v1 == 0
            &&& u.replication_failed_count_v1 == 0
        }),
{
    law_usage_is_counted_exactly(entries);
}

/// An entry with which something is wrong adds nothing to the counts, and a directory changes
/// nothing at all.
pub proof fn law_faulty_entry_counts_nothing(t: Tally, e: ObjectEntry)
    ensures
        ({
            let (after, fault) = accumulator::tally_entry(t, e);
            &&& fault is Some ==> {
                &&& after.versions == t.versions
                &&& after.size == t.size
                &&& after.delete_markers == t.delete_markers
                &&& accumulator::closed_tally(after).objects == accumulator::closed_tally(t).objects
            }
            &&& fault == Some(ListingFault::OutOfOrderObject) ==> after.current == t.current
                && after.seen == t.seen
            &&& fault == Some(ListingFault::RepeatedVersion) ==> after.current == Some(e.name)
            &&& e.is_dir ==> fault is None && after == t
        }),
{
}

/// Closing an object counts it if and only if it has a live version, and only once.
pub proof fn law_object_counts_if_it_has_live_versions(t: Tally)
    ensures
        ({
            let after = accumulator::closed_tally(t);
            &&& t.live > 0 && t.objects < u64::MAX ==> after.objects == t.objects + 1
            &&& t.live > 0 && t.objects == u64::MAX ==> after.objects == u64::MAX
            &&& t.live == 0 ==> after.objects == t.objects
            &&& after.live == 0
            &&& after.current == t.current
            &&& after.seen == t.seen
            &&& after.versions == t.versions
            &&& after.size == t.size
            &&& after.delete_markers == t.delete_markers
            &&& accumulator::closed_tally(after) == after
        }),
{
}

/// Each live version gives the size distribution its listed size, however large, or zero if that is
/// negative; directories and delete markers give it nothing.
pub proof fn law_listed_sizes_are_observed(entries: Seq<ObjectEntry>, e: ObjectEntry)
    ensures
        ({
            let before = accumulator::observed_sizes(entries);
            let after = accumulator::observed_sizes(entries.push(e));
            &&& e.is_dir || e.delete_marker ==> after == before
            &&& !e.is_dir && !e.delete_marker ==> {
                &&& after.len() == before.len() + 1
                &&& after.drop_last() == before
                &&& e.size >= 0 ==> after.last() == e.size
                &&& e.size < 0 ==> after.last() == 0
            }
        }),
        accumulator::observed_sizes(Seq::empty()).len() == 0,
{
    assert(entries.push(e).drop_last() =~= entries);
    let before = accumulator::observed_sizes(entries);
    assert forall|x: u64| #[trigger] before.push(x).drop_last() == before by {
        assert(before.push(x).drop_last() =~= before);
    }
}

/// An object gives the distribution of versions per object its number of live versions when an
/// entry of another object follows, unless it has none; no other entry gives it anything.
pub proof fn law_completed_objects_are_observed(
    t: Tally,
    entries: Seq<ObjectEntry>,
    e: ObjectEntry,
)
    ensures
        ({
            let now = accumulator::tally_all(t, entries).0;
            let before = accumulator::observed_versions(t, entries);
            let after = accumulator::observed_versions(t, entries.push(e));
            if !e.is_dir && now.current is Some && now.current != Some(e.name) && now.live > 0 {
                after == before.push(now.live)
            } else {
                after == before
            }
        }),
        accumulator::observed_versions(t, Seq::empty()).len() == 0,
{
    assert(entries.push(e).drop_last() =~= entries);
}

/// What is known of an object while it is listed: after an entry without a fault that is no
/// directory the current object is that of the entry. The number of its live versions goes up by
/// one with each, and starts anew with another object.
pub proof fn law_live_versions_of_an_object_are_counted(t: Tally, e: ObjectEntry)
    requires
        accumulator::tally_entry(t, e).1 is None,
        !e.is_dir,
    ensures
        ({
            let after = accumulator::tally_entry(t, e).0;
            let carried: u64 = if t.current is None || t.current == Some(e.name) {
                t.live
            } else {
                0
            };
            &&& after.current == Some(e.name)
            &&& after.seen.contains(e.version_id)
            &&& e.delete_marker ==> after.live == carried
            &&& !e.delete_marker && carried < u64::MAX ==> after.live == carried + 1
            &&& !e.delete_marker && carried == u64::MAX ==> after.live == u64::MAX
        }),
{
}

/// A count begins with nothing counted and no object listed.
pub proof fn law_count_begins_with_nothing()
    ensures
        ({
            let t = accumulator::empty_tally();
            &&& t.current is None
            &&& t.live == 0
            &&& t.objects == 0
            &&& t.versions == 0
            &&& t.size == 0
            &&& t.delete_markers == 0
            &&& forall|v: Option<Seq<u8>>| !#[trigger] t.seen.contains(v)
        }),
{
}

/// What is counted of an entry is what is listed: its name, its kind, its size, and the bytes of its
/// version.
pub proof fn law_entry_is_what_is_listed(objects: Seq<ObjectInfo>, i: int)
    requires
        0 <= i < objects.len(),
    ensures
        accumulator::listed(objects).len() == objects.len(),
        ({
            let e = accumulator::listed(objects)[i];
            let o = objects[i];
            &&& e.name == o.name@
            &&& e.is_dir == o.is_dir
            &&& e.delete_marker == o.delete_marker
            &&& e.size == o.size
            &&& o.version_id is None ==> e.version_id is None
            &&& o.version_id is Some ==> e.version_id == Some(o.version_id->0@)
        }),
{
}

/// The sum of a list of numbers.
pub open spec fn sum(s: Seq<u64>) -> nat
    decreases s.len(),
{
    if s.len() == 0 {
        0
    } else {
        sum(s.drop_last()) + s.last() as nat
    }
}

proof fn lemma_sum_push(s: Seq<u64>, x: u64)
    ensures
        sum(s.push(x)) == sum(s) + x,
{
    assert(s.push(x).drop_last() =~= s);
}

/// The size distribution is of the live versions: it gets one size for each of them, and these
/// sizes add up to the counted size.
pub proof fn law_sizes_observed_are_those_counted(entries: Seq<ObjectEntry>)
    ensures
        accumulator::observed_sizes(entries).len() == live_versions(entries),
        sum(accumulator::observed_sizes(entries)) == live_size(entries),
    decreases entries.len(),
{
    if entries.len() > 0 {
        let before = entries.drop_last();
        law_sizes_observed_are_those_counted(before);
        lemma_sum_push(
            accumulator::observed_sizes(before),
            accumulator::counted_size(entries.last()),
        );
    }
}

proof fn lemma_versions_observed(entries: Seq<ObjectEntry>)
    requires
        accumulator::tally_all(accumulator::empty_tally(), entries).1 is None,
        live_versions(entries) <= u64::MAX,
    ensures
        ({
            let start = accumulator::empty_tally();
            let t = accumulator::tally_all(start, entries).0;
            let seen = accumulator::observed_versions(start, entries);
            &&& sum(seen) + t.live == live_versions(entries)
            &&& live_names(entries).len() == seen.len() + if t.live > 0 {
                1nat
            } else {
                0nat
            }
        }),
    decreases entries.len(),
{
    let start = accumulator::empty_tally();
    if entries.len() > 0 {
        let before = entries.drop_last();
        let e = entries.last();
        lemma_versions_observed(before);
        lemma_counts(before);
        lemma_counts(entries);
        let t = accumulator::tally_all(start, before).0;
        let names = live_names(before);
        lemma_sum_push(accumulator::observed_versions(start, before), t.live);
        if accumulator::leaves_object(t, e) {
            text::law_name_order_trichotomy(t.current->0, e.name);
            assert forall|n: Seq<char>| #[trigger] names.contains(n) implies n != e.name by {
                if n != t.current->0 {
                    text::law_name_order_transitive(n, t.current->0, e.name);
                }
                text::law_name_order_trichotomy(n, e.name);
            }
        }
        if accumulator::is_live(e) && names.contains(e.name) {
            assert(names.insert(e.name) =~= names);
        }
    }
}

/// The distribution of versions per object is of the objects: with the last object closed it gets
/// one number for each object that has a live version, and these numbers add up to the number of
/// live versions.
pub proof fn law_versions_observed_are_those_counted(entries: Seq<ObjectEntry>)
    requires
        accumulator::tally_all(accumulator::empty_tally(), entries).1 is None,
        live_versions(entries) <= u64::MAX,
    ensures
        ({
            let start = accumulator::empty_tally();
            let t = accumulator::tally_all(start, entries).0;
            let last = if t.live > 0 {
                Some(t.live)
            } else {
                None
            };
            let all = accumulator::with_observation(
                accumulator::observed_versions(start, entries),
                last,
            );
            &&& all.len() == live_names(entries).len()
            &&& sum(all) == live_versions(entries)
        }),
{
    lemma_versions_observed(entries);
    let start = accumulator::empty_tally();
    let t = accumulator::tally_all(start, entries).0;
    lemma_sum_push(accumulator::observed_versions(start, entries), t.live);
}

/// What is observed of a listing is observed page by page: two lists of entries, one after the
/// other, add to the distributions what they add as one. For the versions per object the first
/// must be without a fault, as a fault ends the listing.
pub proof fn law_observations_are_made_page_by_page(
    t: Tally,
    first: Seq<ObjectEntry>,
    second: Seq<ObjectEntry>,
)
    ensures
        accumulator::observed_sizes(first + second) == accumulator::observed_sizes(first)
            + accumulator::observed_sizes(second),
        accumulator::tally_all(t, first).1 is None ==> accumulator::observed_versions(
            t,
            first + second,
        ) == accumulator::observed_versions(t, first) + accumulator::observed_versions(
            accumulator::tally_all(t, first).0,
            second,
        ),
    decreases second.len(),
{
    if second.len() == 0 {
        assert(first + second =~= first);
        assert(accumulator::observed_sizes(second) =~= Seq::empty());
    } else {
        let fewer = second.drop_last();
        assert((first + second).drop_last() =~= first + fewer);
        assert((first + second).last() == second.last());
        law_observations_are_made_page_by_page(t, first, fewer);
        law_page_boundaries_do_not_matter(t, first, fewer);
    }
}

/// The entries of several pages, one page after the other.
pub open spec fn joined_pages(pages: Seq<Seq<ObjectEntry>>) -> Seq<ObjectEntry>
    decreases pages.len(),
{
    if pages.len() == 0 {
        Seq::empty()
    } else {
        joined_pages(pages.drop_last()) + pages.last()
    }
}

/// What is counted after several pages that are counted one by one.
pub open spec fn tally_by_page(pages: Seq<Seq<ObjectEntry>>) -> Tally
    decreases pages.len(),
{
    if pages.len() == 0 {
        accumulator::empty_tally()
    } else {
        accumulator::tally_all(tally_by_page(pages.drop_last()), pages.last()).0
    }
}

/// Whether several pages are counted one by one without a fault.
pub open spec fn pages_faultless(pages: Seq<Seq<ObjectEntry>>) -> bool
    decreases pages.len(),
{
    pages.len() == 0 || {
        &&& pages_faultless(pages.drop_last())
        &&& accumulator::tally_all(tally_by_page(pages.drop_last()), pages.last()).1 is None
    }
}

/// The sizes that several pages give, one page after the other.
pub open spec fn sizes_by_page(pages: Seq<Seq<ObjectEntry>>) -> Seq<u64>
    decreases pages.len(),
{
    if pages.len() == 0 {
        Seq::empty()
    } else {
        sizes_by_page(pages.drop_last()) + accumulator::observed_sizes(pages.last())
    }
}

/// The numbers of live versions that several pages give, one page after the other.
pub open spec fn versions_by_page(pages: Seq<Seq<ObjectEntry>>) -> Seq<u64>
    decreases pages.len(),
{
    if pages.len() == 0 {
        Seq::empty()
    } else {
        versions_by_page(pages.drop_last()) + accumulator::observed_versions(
            tally_by_page(pages.drop_last()),
            pages.last(),
        )
    }
}

proof fn lemma_pages(pages: Seq<Seq<ObjectEntry>>)
    requires
        pages_faultless(pages),
    ensures
        accumulator::tally_all(accumulator::empty_tally(), joined_pages(pages)) == (
            tally_by_page(pages),
            None::<listing::ListingFault>,
        ),
        sizes_by_page(pages) == accumulator::observed_sizes(joined_pages(pages)),
        versions_by_page(pages) == accumulator::observed_versions(
            accumulator::empty_tally(),
            joined_pages(pages),
        ),
    decreases pages.len(),
{
    if pages.len() > 0 {
        let start = accumulator::empty_tally();
        let before = joined_pages(pages.drop_last());
        lemma_pages(pages.drop_last());
        law_page_boundaries_do_not_matter(start, before, pages.last());
        law_observations_are_made_page_by_page(start, before, pages.last());
    }
}

/// However many pages a listing has, what the pages give for the distributions is of what was
/// counted: one size for each live version, which add up to the counted size, and, with the last
/// object closed, one number for each object, which add up to the number of live versions.
pub proof fn law_pages_observe_what_is_counted(pages: Seq<Seq<ObjectEntry>>)
    requires
        pages_faultless(pages),
    ensures
        ({
            let all = joined_pages(pages);
            let t = tally_by_page(pages);
            let closed = accumulator::closed_tally(t);
            let last = if t.live > 0 {
                Some(t.live)
            } else {
                None
            };
            let versions = accumulator::with_observation(versions_by_page(pages), last);
            &&& closed.size == usage::saturate(live_size(all))
            &&& closed.versions == usage::saturate(live_versions(all))
            &&& closed.delete_markers == usage::saturate(delete_markers(all))
            &&& closed.objects == usage::saturate(live_names(all).len())
            &&& sizes_by_page(pages).len() == live_versions(all)
            &&& sum(sizes_by_page(pages)) == live_size(all)
            &&& live_versions(all) <= u64::MAX ==> versions.len() == live_names(all).len() && sum(
                versions,
            ) == live_versions(all)
        }),
{
    let all = joined_pages(pages);
    lemma_pages(pages);
    law_usage_is_counted_exactly(all);
    law_sizes_observed_are_those_counted(all);
    if live_versions(all) <= u64::MAX {
        law_versions_observed_are_those_counted(all);
    }
}

/// In a listing that is counted without a fault no version of an object comes twice.
pub proof fn law_no_version_is_counted_twice(entries: Seq<ObjectEntry>, i: int, j: int)
    requires
        accumulator::tally_all(accumulator::empty_tally(), entries).1 is None,
        0 <= i < j < entries.len(),
        !entries[i].is_dir,
        !entries[j].is_dir,
    ensures
        entries[i].name == entries[j].name ==> entries[i].version_id != entries[j].version_id,
        !text::name_before(entries[j].name, entries[i].name),
{
    let start = accumulator::empty_tally();
    lemma_fault_free_prefix(entries, j + 1);
    lemma_fault_free_prefix(entries, j);
    assert(entries.take(j + 1).drop_last() =~= entries.take(j));
    lemma_seen(entries.take(j));
    let t = accumulator::tally_all(start, entries.take(j)).0;
    let a = entries.take(j)[i];
    let e = entries[j];
    assert(a == entries[i]);
    assert(a.name == t.current->0 || text::name_before(a.name, t.current->0));
    text::law_name_order_trichotomy(a.name, e.name);
    text::law_name_order_trichotomy(t.current->0, e.name);
    if a.name != t.current->0 {
        text::law_name_order_trichotomy(a.name, t.current->0);
        if text::name_before(t.current->0, e.name) {
            text::law_name_order_transitive(a.name, t.current->0, e.name);
        }
    }
}

proof fn lemma_fault_free_prefix(entries: Seq<ObjectEntry>, n: int)
    requires
        accumulator::tally_all(accumulator::empty_tally(), entries).1 is None,
        0 <= n <= entries.len(),
    ensures
        accumulator::tally_all(accumulator::empty_tally(), entries.take(n)).1 is None,
{
    assert(entries =~= entries.take(n) + entries.skip(n));
    law_page_boundaries_do_not_matter(
        accumulator::empty_tally(),
        entries.take(n),
        entries.skip(n),
    );
}

/// The current object is the last in name order, and its listed versions are known.
proof fn lemma_seen(entries: Seq<ObjectEntry>)
    requires
        accumulator::tally_all(accumulator::empty_tally(), entries).1 is None,
    ensures
        ({
            let t = accumulator::tally_all(accumulator::empty_tally(), entries).0;
            forall|i: int|
                0 <= i < entries.len() && !(#[trigger] entries[i]).is_dir ==> t.current is Some && (
                entries[i].name == t.current->0 || text::name_before(
                    entries[i].name,
                    t.current->0,
                )) && (entries[i].name == t.current->0 ==> t.seen.contains(entries[i].version_id))
        }),
    decreases entries.len(),
{
    let start = accumulator::empty_tally();
    if entries.len() > 0 {
        let before = entries.drop_last();
        let e = entries.last();
        lemma_seen(before);
        let t = accumulator::tally_all(start, before).0;
        let u = accumulator::tally_all(start, entries).0;
        assert forall|i: int|
            0 <= i < entries.len() && !(#[trigger] entries[i]).is_dir implies u.current is Some && (
        entries[i].name == u.current->0 || text::name_before(entries[i].name, u.current->0)) && (
        entries[i].name == u.current->0 ==> u.seen.contains(entries[i].version_id)) by {
            if i < before.len() {
                assert(before[i] == entries[i]);
                if !e.is_dir {
                    text::law_name_order_trichotomy(t.current->0, e.name);
                    text::law_name_order_trichotomy(entries[i].name, e.name);
                    if t.current->0 != e.name && entries[i].name != t.current->0 {
                        text::law_name_order_transitive(entries[i].name, t.current->0, e.name);
                    }
                }
            }
        }
    }
}

} // verus!
