//! Counting a bucket's usage from a listing of its object versions.
//!
//! A listing comes in pages. Each page is checked as it is counted: objects come in name order,
//! no version comes twice, and a page that says there is more says where to go on.

use crate::text;
use crate::text::{compare_names, list_marker_key, Standing};
use std::collections::HashSet;
use vstd::prelude::*;
use vstd::string::*;

verus! {

broadcast use vstd::std_specs::hash::group_hash_axioms;

/// What can be wrong with a listing.
#[derive(Clone, Copy, Debug, PartialEq, Eq, Structural)]
pub enum ListingFault {
    /// A page says there is more but has no entry.
    EmptyTruncatedPage,
    /// An object comes before the one listed ahead of it.
    OutOfOrderObject,
    /// A version of an object is listed twice.
    RepeatedVersion,
    /// A page says there is more but not at which key.
    MissingKeyMarker,
    /// A page says there is more but not at which version.
    MissingVersionMarker,
    /// A page points back to where it began.
    RepeatedMarker,
    /// A page points to a key before the one it began at.
    RegressingMarker,
}

/// A listing that cannot be counted.
#[derive(Debug)]
pub struct ListingError {
    pub bucket: String,
    pub fault: ListingFault,
}

/// What is said of a fault, after the name of the bucket.
pub open spec fn fault_text(fault: ListingFault) -> Seq<char> {
    match fault {
        ListingFault::EmptyTruncatedPage => " version listing returned an empty truncated page"@,
        ListingFault::OutOfOrderObject => " version listing returned an out-of-order object"@,
        ListingFault::RepeatedVersion => " version listing returned a repeated object version"@,
        ListingFault::MissingKeyMarker => " version listing was truncated without a key marker"@,
        ListingFault::MissingVersionMarker =>
            " version listing was truncated without a version marker"@,
        ListingFault::RepeatedMarker =>
            " version listing returned a repeated continuation marker"@,
        ListingFault::RegressingMarker => " version listing returned a regressing key marker"@,
    }
}

impl ListingError {
    /// The error of `bucket` with the given fault.
    fn new(bucket: &str, fault: ListingFault) -> (r: Self)
        ensures
            r.bucket@ == bucket@,
            r.fault == fault,
    {
        ListingError { bucket: bucket.to_owned(), fault }
    }

    /// The error as a sentence.
    pub fn message(&self) -> (r: String)
        ensures
            r@ == "bucket "@ + self.bucket@ + fault_text(self.fault),
    {
        let text: &str = match self.fault {
            ListingFault::EmptyTruncatedPage => " version listing returned an empty truncated page",
            ListingFault::OutOfOrderObject => " version listing returned an out-of-order object",
            ListingFault::RepeatedVersion => " version listing returned a repeated object version",
            ListingFault::MissingKeyMarker => " version listing was truncated without a key marker",
            ListingFault::MissingVersionMarker =>
                " version listing was truncated without a version marker",
            ListingFault::RepeatedMarker =>
                " version listing returned a repeated continuation marker",
            ListingFault::RegressingMarker => " version listing returned a regressing key marker",
        };
        let mut message = "bucket ".to_owned();
        message.append(self.bucket.as_str());
        message.append(text);
        message
    }
}

/// `r` is the error of `bucket` with the given fault, or no error where there is no fault.
pub open spec fn reports<T>(
    r: Result<T, ListingError>,
    bucket: Seq<char>,
    fault: Option<ListingFault>,
) -> bool {
    match r {
        Ok(_) => fault is None,
        Err(e) => fault == Some(e.fault) && e.bucket@ == bucket,
    }
}

/// The text that an optional string holds.
pub open spec fn optional_text(s: Option<String>) -> Option<Seq<char>> {
    match s {
        Some(t) => Some(t@),
        None => None,
    }
}

/// Fails on a page that says there is more but has no entry.
pub fn ensure_truncated_version_page_has_entries(
    bucket: &str,
    page_entries: usize,
) -> (r: Result<(), ListingError>)
    ensures
        reports(
            r,
            bucket@,
            if page_entries == 0 {
                Some(ListingFault::EmptyTruncatedPage)
            } else {
                None
            },
        ),
{
    if page_entries == 0 {
        return Err(ListingError::new(bucket, ListingFault::EmptyTruncatedPage));
    }
    Ok(())
}

/// What is wrong with going on at the given markers after those that the page began at.
pub open spec fn cursor_fault(
    marker: Option<Seq<char>>,
    version_marker: Option<Seq<char>>,
    next_marker: Option<Seq<char>>,
    next_version_marker: Option<Seq<char>>,
) -> Option<ListingFault> {
    if next_marker is None || next_marker->0.len() == 0 {
        Some(ListingFault::MissingKeyMarker)
    } else if next_version_marker is None || next_version_marker->0.len() == 0 {
        Some(ListingFault::MissingVersionMarker)
    } else if marker is None {
        None
    } else {
        let key = text::marker_key(marker->0);
        let next_key = text::marker_key(next_marker->0);
        if key == next_key && version_marker == next_version_marker {
            Some(ListingFault::RepeatedMarker)
        } else if text::name_before(next_key, key) {
            Some(ListingFault::RegressingMarker)
        } else {
            None
        }
    }
}

/// Moves the markers on to where a page says that the listing goes on. Markers that differ only
/// in their cache tags are no progress.
pub fn advance_version_listing_cursor(
    bucket: &str,
    marker: &mut Option<String>,
    version_marker: &mut Option<String>,
    next_marker: Option<String>,
    next_version_marker: Option<String>,
) -> (r: Result<(), ListingError>)
    ensures
        reports(
            r,
            bucket@,
            cursor_fault(
                optional_text(*old(marker)),
                optional_text(*old(version_marker)),
                optional_text(next_marker),
                optional_text(next_version_marker),
            ),
        ),
        r is Ok ==> optional_text(*final(marker)) == optional_text(next_marker) && optional_text(
            *final(version_marker),
        ) == optional_text(next_version_marker),
        r is Err ==> *final(marker) == *old(marker) && *final(version_marker) == *old(
            version_marker,
        ),
{
    let next_marker = match next_marker {
        Some(next) => next,
        None => {
            return Err(ListingError::new(bucket, ListingFault::MissingKeyMarker));
        },
    };
    if next_marker.as_str().is_empty() {
        return Err(ListingError::new(bucket, ListingFault::MissingKeyMarker));
    }
    let next_version_marker = match next_version_marker {
        Some(next) => next,
        None => {
            return Err(ListingError::new(bucket, ListingFault::MissingVersionMarker));
        },
    };
    if next_version_marker.as_str().is_empty() {
        return Err(ListingError::new(bucket, ListingFault::MissingVersionMarker));
    }
    if let Some(current) = marker.as_ref() {
        let standing = compare_names(
            list_marker_key(next_marker.as_str()),
            list_marker_key(current.as_str()),
        );
        proof {
            text::law_name_order_trichotomy(
                text::marker_key(next_marker@),
                text::marker_key(current@),
            );
        }
        match standing {
            Standing::Same => {
                if let Some(current_version) = version_marker.as_ref() {
                    if *current_version == next_version_marker {
                        return Err(ListingError::new(bucket, ListingFault::RepeatedMarker));
                    }
                }
            },
            Standing::Before => {
                return Err(ListingError::new(bucket, ListingFault::RegressingMarker));
            },
            Standing::After => {},
        }
    }
    *marker = Some(next_marker);
    *version_marker = Some(next_version_marker);
    Ok(())
}

/// The number that a version id is in big-endian order.
pub open spec fn id_number(id: Seq<u8>) -> nat
    decreases id.len(),
{
    if id.len() == 0 {
        0
    } else {
        id_number(id.drop_last()) * 256 + id.last() as nat
    }
}

/// `256` to the power of `n`.
pub open spec fn pow256(n: nat) -> nat
    decreases n,
{
    if n == 0 {
        1
    } else {
        pow256((n - 1) as nat) * 256
    }
}

proof fn lemma_id_number_bound(id: Seq<u8>)
    ensures
        id_number(id) < pow256(id.len()),
    decreases id.len(),
{
    if id.len() > 0 {
        lemma_id_number_bound(id.drop_last());
    }
}

proof fn lemma_id_number_injective(a: Seq<u8>, b: Seq<u8>)
    requires
        a.len() == b.len(),
        id_number(a) == id_number(b),
    ensures
        a == b,
    decreases a.len(),
{
    if a.len() > 0 {
        lemma_id_number_injective(a.drop_last(), b.drop_last());
        assert(a =~= a.drop_last().push(a.last()));
        assert(b =~= b.drop_last().push(b.last()));
    } else {
        assert(a =~= b);
    }
}

proof fn lemma_pow256_16()
    ensures
        pow256(16) == u128::MAX + 1,
{
    reveal_with_fuel(pow256, 17);
}

/// The number that a version id is in big-endian order.
fn version_number(id: &[u8; 16]) -> (r: u128)
    ensures
        r == id_number(id@),
{
    let mut number: u128 = 0;
    let mut i: usize = 0;
    while i < 16
        invariant
            i <= 16,
            number == id_number(id@.take(i as int)),
        decreases 16 - i,
    {
        proof {
            let part = id@.take(i + 1);
            assert(part.drop_last() =~= id@.take(i as int));
            lemma_id_number_bound(part);
            lemma_pow256_monotonic((i + 1) as nat, 16);
            lemma_pow256_16();
        }
        number = number * 256 + id[i] as u128;
        i = i + 1;
    }
    assert(id@.take(16) =~= id@);
    number
}

proof fn lemma_pow256_monotonic(a: nat, b: nat)
    requires
        a <= b,
    ensures
        pow256(a) <= pow256(b),
    decreases b,
{
    if a < b {
        lemma_pow256_monotonic(a, (b - 1) as nat);
    }
}

/// The bytes of a version id; the null version has none.
pub open spec fn version_bytes(id: Option<[u8; 16]>) -> Option<Seq<u8>> {
    match id {
        Some(bytes) => Some(bytes@),
        None => None,
    }
}

/// The versions of one object that were listed so far.
pub struct VersionSet {
    null: bool,
    ids: HashSet<u128>,
}

impl View for VersionSet {
    type V = Set<Option<Seq<u8>>>;

    closed spec fn view(&self) -> Set<Option<Seq<u8>>> {
        Set::new(
            |v: Option<Seq<u8>>|
                match v {
                    None => self.null,
                    Some(bytes) => bytes.len() == 16 && self.ids@.contains(
                        id_number(bytes) as u128,
                    ),
                },
        )
    }
}

impl VersionSet {
    /// No version.
    pub fn new() -> (r: Self)
        ensures
            r@ == Set::<Option<Seq<u8>>>::empty(),
    {
        let r = VersionSet { null: false, ids: HashSet::new() };
        assert(r@ =~= Set::empty());
        r
    }

    /// Forgets all versions.
    pub fn clear(&mut self)
        ensures
            final(self)@ == Set::<Option<Seq<u8>>>::empty(),
    {
        self.null = false;
        self.ids.clear();
        assert(self@ =~= Set::empty());
    }

    /// Adds a version and says whether it is new.
    pub fn insert(&mut self, id: Option<&[u8; 16]>) -> (r: bool)
        ensures
            r == !old(self)@.contains(
                match id {
                    Some(bytes) => Some(bytes@),
                    None => None,
                },
            ),
            final(self)@ == old(self)@.insert(
                match id {
                    Some(bytes) => Some(bytes@),
                    None => None,
                },
            ),
    {
        let ghost before = self@;
        match id {
            None => {
                let new = !self.null;
                self.null = true;
                assert(self@ =~= before.insert(None));
                new
            },
            Some(bytes) => {
                let number = version_number(bytes);
                let new = self.ids.insert(number);
                proof {
                    assert forall|v: Option<Seq<u8>>| #[trigger]
                        self@.contains(v) == before.insert(Some(bytes@)).contains(v) by {
                        if let Some(b) = v {
                            if b.len() == 16 {
                                lemma_id_number_bound(b);
                                lemma_pow256_16();
                                if id_number(b) == id_number(bytes@) {
                                    lemma_id_number_injective(b, bytes@);
                                }
                            }
                        }
                    }
                    assert(self@ =~= before.insert(Some(bytes@)));
                }
                new
            },
        }
    }
}

/// The versions that count as listed when `name` comes next.
pub open spec fn versions_in_question(
    current: Option<Seq<char>>,
    versions: Set<Option<Seq<u8>>>,
    name: Seq<char>,
) -> Set<Option<Seq<u8>>> {
    if current is Some && text::name_before(current->0, name) {
        Set::empty()
    } else {
        versions
    }
}

/// What is wrong with listing a version of `name` next.
pub open spec fn entry_fault(
    current: Option<Seq<char>>,
    versions: Set<Option<Seq<u8>>>,
    name: Seq<char>,
    version: Option<Seq<u8>>,
) -> Option<ListingFault> {
    if current is Some && text::name_before(name, current->0) {
        Some(ListingFault::OutOfOrderObject)
    } else if versions_in_question(current, versions, name).contains(version) {
        Some(ListingFault::RepeatedVersion)
    } else {
        None
    }
}

/// Notes that a version of an object is listed. Fails if the object comes before the current one,
/// or if the version was listed before.
pub fn record_version_listing_entry(
    bucket: &str,
    current_object_name: &mut Option<String>,
    current_object_versions: &mut VersionSet,
    object_name: &str,
    version_id: Option<&[u8; 16]>,
) -> (r: Result<(), ListingError>)
    ensures
        ({
            let current = optional_text(*old(current_object_name));
            let seen = old(current_object_versions)@;
            let version = match version_id {
                Some(bytes) => Some(bytes@),
                None => None,
            };
            let fault = entry_fault(current, seen, object_name@, version);
            &&& reports(r, bucket@, fault)
            &&& fault == Some(ListingFault::OutOfOrderObject) ==> *final(current_object_name)
                == *old(current_object_name) && final(current_object_versions)@ == seen
            &&& fault != Some(ListingFault::OutOfOrderObject) ==> {
                &&& optional_text(*final(current_object_name)) == Some(object_name@)
                &&& final(current_object_versions)@ == versions_in_question(
                    current,
                    seen,
                    object_name@,
                ).insert(version)
            }
        }),
{
    let standing = match current_object_name.as_ref() {
        Some(current) => Some(compare_names(object_name, current.as_str())),
        None => None,
    };
    proof {
        let current = optional_text(*current_object_name);
        if current is Some {
            text::law_name_order_trichotomy(object_name@, current->0);
        }
    }
    match standing {
        Some(Standing::Before) => {
            return Err(ListingError::new(bucket, ListingFault::OutOfOrderObject));
        },
        Some(Standing::After) => {
            current_object_versions.clear();
            *current_object_name = Some(object_name.to_owned());
        },
        Some(Standing::Same) => {},
        None => {
            *current_object_name = Some(object_name.to_owned());
        },
    }
    if !current_object_versions.insert(version_id) {
        return Err(ListingError::new(bucket, ListingFault::RepeatedVersion));
    }
    Ok(())
}

/// An optional string stands for its text, and a version for its bytes; what is missing stands for
/// nothing.
pub proof fn law_marker_and_version_are_what_they_hold(s: String, id: [u8; 16])
    ensures
        optional_text(Some(s)) == Some(s@),
        optional_text(None) is None,
        version_bytes(Some(id)) == Some(id@),
        version_bytes(None) is None,
{
}

/// No two faults are told in the same words.
pub proof fn law_faults_are_told_apart(a: ListingFault, b: ListingFault)
    ensures
        fault_text(a) == fault_text(b) ==> a == b,
{
    reveal_strlit(" version listing returned an empty truncated page");
    reveal_strlit(" version listing returned an out-of-order object");
    reveal_strlit(" version listing returned a repeated object version");
    reveal_strlit(" version listing was truncated without a key marker");
    reveal_strlit(" version listing was truncated without a version marker");
    reveal_strlit(" version listing returned a repeated continuation marker");
    reveal_strlit(" version listing returned a regressing key marker");
    assert(fault_text(a).len() == fault_text(b).len() ==> a == b || fault_text(a)[26] != fault_text(b)[26]
        || fault_text(a)[28] != fault_text(b)[28]);
}

} // verus!
