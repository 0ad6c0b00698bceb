//! A map from names to values, kept in name order.

use crate::text;
use crate::text::{compare_names, Standing};
use vstd::prelude::*;

verus! {

/// A value that can be copied without changing what it stands for.
pub trait Duplicate: View + Sized {
    /// A copy with the same view.
    fn duplicate(&self) -> (r: Self)
        ensures
            r@ == self@,
    ;
}

impl Duplicate for u64 {
    fn duplicate(&self) -> (r: Self) {
        *self
    }
}

/// What an optional value stands for.
pub open spec fn optional<T: View>(v: Option<T>) -> Option<T::V> {
    match v {
        Some(x) => Some(x@),
        None => None,
    }
}

/// What `m` holds under `k`, if it holds anything there.
pub open spec fn held<V>(m: Map<Seq<char>, V>, k: Seq<char>) -> Option<V> {
    if m.contains_key(k) {
        Some(m[k])
    } else {
        None
    }
}

/// The map that a list of entries stands for; a later entry wins over an earlier one.
pub open spec fn entries_map<T: View>(entries: Seq<(String, T)>) -> Map<Seq<char>, T::V>
    decreases entries.len(),
{
    if entries.len() == 0 {
        Map::empty()
    } else {
        entries_map(entries.drop_last()).insert(entries.last().0@, entries.last().1@)
    }
}

/// `names` is in strictly ascending name order.
pub open spec fn ascending(names: Seq<Seq<char>>) -> bool {
    forall|i: int, j: int|
        0 <= i < j < names.len() ==> text::name_before(#[trigger] names[i], #[trigger] names[j])
}

/// `names` lists the keys of `m`, each once, in ascending order.
pub open spec fn lists_names<V>(names: Seq<Seq<char>>, m: Map<Seq<char>, V>) -> bool {
    &&& ascending(names)
    &&& names.len() == m.len()
    &&& forall|i: int| 0 <= i < names.len() ==> m.contains_key(#[trigger] names[i])
    &&& forall|k: Seq<char>| #[trigger] m.contains_key(k) ==> names.contains(k)
}

/// The part of `m` that belongs to the first `n` of `names`.
pub open spec fn first_entries<V>(
    m: Map<Seq<char>, V>,
    names: Seq<Seq<char>>,
    n: nat,
) -> Map<Seq<char>, V>
    decreases n,
{
    if n == 0 {
        Map::empty()
    } else {
        first_entries(m, names, (n - 1) as nat).insert(names[n - 1], m[names[n - 1]])
    }
}

/// What belongs to the first `n` names has exactly these names as its keys.
pub proof fn lemma_first_entries<V>(m: Map<Seq<char>, V>, names: Seq<Seq<char>>, n: nat)
    requires
        lists_names(names, m),
        n <= names.len(),
    ensures
        first_entries(m, names, n).dom().finite(),
        forall|k: Seq<char>| #[trigger]
            first_entries(m, names, n).contains_key(k) <==> names.take(n as int).contains(k),
        forall|k: Seq<char>| #[trigger]
            first_entries(m, names, n).contains_key(k) ==> m.contains_key(k) && first_entries(
                m,
                names,
                n,
            )[k] == m[k],
        n < names.len() ==> !first_entries(m, names, n).contains_key(names[n as int]),
        n == names.len() ==> first_entries(m, names, n) == m,
    decreases n,
{
    if n > 0 {
        let before = (n - 1) as nat;
        lemma_first_entries(m, names, before);
        assert forall|k: Seq<char>| #[trigger]
            first_entries(m, names, n).contains_key(k) <==> names.take(n as int).contains(k) by {
            if names.take(n as int).contains(k) {
                let i = choose|i: int| 0 <= i < n && names.take(n as int)[i] == k;
                if i < before {
                    assert(names.take(before as int)[i] == k);
                }
            }
            if names.take(before as int).contains(k) {
                let i = choose|i: int| 0 <= i < before && names.take(before as int)[i] == k;
                assert(names.take(n as int)[i] == k);
            }
            assert(names.take(n as int)[before as int] == names[before as int]);
        }
    }
    if n < names.len() {
        if names.take(n as int).contains(names[n as int]) {
            let i = choose|i: int| 0 <= i < n && names.take(n as int)[i] == names[n as int];
            assert(text::name_before(names[i], names[n as int]));
            text::law_name_order_trichotomy(names[i], names[n as int]);
        }
    }
    if n == names.len() {
        assert(names.take(n as int) =~= names);
        assert(first_entries(m, names, n) =~= m);
    }
}

/// The sum of `f` over the values of a map.
pub open spec fn sum_of<V>(m: Map<Seq<char>, V>, f: spec_fn(V) -> nat) -> nat
    decreases m.dom().len(),
    when m.dom().finite()
{
    if m.dom().len() == 0 {
        0
    } else {
        let k = m.dom().choose();
        f(m[k]) + sum_of(m.remove(k), f)
    }
}

/// Any one key can be taken out of a sum first.
pub proof fn lemma_sum_remove<V>(m: Map<Seq<char>, V>, f: spec_fn(V) -> nat, k: Seq<char>)
    requires
        m.dom().finite(),
        m.contains_key(k),
    ensures
        sum_of(m, f) == f(m[k]) + sum_of(m.remove(k), f),
    decreases m.dom().len(),
{
    let c = m.dom().choose();
    assert(m.dom().contains(c));
    if c != k {
        lemma_sum_remove(m.remove(c), f, k);
        lemma_sum_remove(m.remove(k), f, c);
        assert(m.remove(c).remove(k) =~= m.remove(k).remove(c));
    }
}

/// A new key adds the value of `f` to the sum.
pub proof fn lemma_sum_insert<V>(m: Map<Seq<char>, V>, f: spec_fn(V) -> nat, k: Seq<char>, v: V)
    requires
        m.dom().finite(),
        !m.contains_key(k),
    ensures
        sum_of(m.insert(k, v), f) == sum_of(m, f) + f(v),
{
    lemma_sum_remove(m.insert(k, v), f, k);
    assert(m.insert(k, v).remove(k) =~= m);
}

/// A map from names to values. Its entries are kept in name order, so that walking it gives the
/// same order every time.
pub struct NameMap<T: View> {
    entries: Vec<(String, T)>,
}

impl<T: View> View for NameMap<T> {
    type V = Map<Seq<char>, T::V>;

    closed spec fn view(&self) -> Map<Seq<char>, T::V> {
        entries_map(self.entries@)
    }
}

spec fn entry_names<T: View>(entries: Seq<(String, T)>) -> Seq<Seq<char>> {
    Seq::new(entries.len(), |i: int| entries[i].0@)
}

/// In a list of entries with ascending names, each entry is what the map holds under its name.
proof fn lemma_entries_map<T: View>(entries: Seq<(String, T)>)
    requires
        ascending(entry_names(entries)),
    ensures
        entries_map(entries).dom().finite(),
        entries_map(entries).len() == entries.len(),
        forall|i: int|
            0 <= i < entries.len() ==> entries_map(entries).contains_key((#[trigger] entries[i]).0@)
                && entries_map(entries)[entries[i].0@] == entries[i].1@,
        forall|k: Seq<char>| #[trigger]
            entries_map(entries).contains_key(k) ==> entry_names(entries).contains(k),
    decreases entries.len(),
{
    if entries.len() > 0 {
        let rest = entries.drop_last();
        let last = entries.last();
        assert forall|i: int, j: int| 0 <= i < j < rest.len() implies text::name_before(
            #[trigger] entry_names(rest)[i],
            #[trigger] entry_names(rest)[j],
        ) by {
            assert(entry_names(entries)[i] == entry_names(rest)[i]);
            assert(entry_names(entries)[j] == entry_names(rest)[j]);
        }
        lemma_entries_map(rest);
        let n = entries.len() - 1;
        assert forall|i: int| 0 <= i < n implies (#[trigger] rest[i]).0@ != last.0@ by {
            assert(text::name_before(entry_names(entries)[i], entry_names(entries)[n]));
            text::law_name_order_trichotomy(rest[i].0@, last.0@);
        }
        if entries_map(rest).contains_key(last.0@) {
            let i = choose|i: int| 0 <= i < n && entry_names(rest)[i] == last.0@;
            assert(rest[i].0@ == last.0@);
        }
        assert forall|i: int| 0 <= i < entries.len() implies entries_map(entries).contains_key(
            (#[trigger] entries[i]).0@,
        ) && entries_map(entries)[entries[i].0@] == entries[i].1@ by {
            if i < n {
                assert(rest[i] == entries[i]);
            }
        }
        assert forall|k: Seq<char>| #[trigger]
            entries_map(entries).contains_key(k) implies entry_names(entries).contains(k) by {
            if k == last.0@ {
                assert(entry_names(entries)[n] == k);
            } else {
                let i = choose|i: int| 0 <= i < n && entry_names(rest)[i] == k;
                assert(entry_names(entries)[i] == k);
            }
        }
    }
}

/// Two lists with ascending names stand for the same map if each entry of either is in the other.
proof fn lemma_same_map<T: View>(entries: Seq<(String, T)>, m: Map<Seq<char>, T::V>)
    requires
        ascending(entry_names(entries)),
        forall|i: int|
            0 <= i < entries.len() ==> m.contains_key((#[trigger] entries[i]).0@)
                && m[entries[i].0@] == entries[i].1@,
        forall|k: Seq<char>| #[trigger] m.contains_key(k) ==> entry_names(entries).contains(k),
    ensures
        entries_map(entries) == m,
{
    lemma_entries_map(entries);
    let e = entries_map(entries);
    assert forall|k: Seq<char>| #[trigger] e.contains_key(k) <==> m.contains_key(k) by {
        if e.contains_key(k) || m.contains_key(k) {
            let i = choose|i: int| 0 <= i < entries.len() && entry_names(entries)[i] == k;
            assert(entries[i].0@ == k);
        }
    }
    assert forall|k: Seq<char>| #[trigger] e.contains_key(k) implies e[k] == m[k] by {
        let i = choose|i: int| 0 <= i < entries.len() && entry_names(entries)[i] == k;
        assert(entries[i].0@ == k);
    }
    assert(e =~= m);
}

impl<T: View> NameMap<T> {
    #[verifier::type_invariant]
    spec fn well_formed(self) -> bool {
        ascending(entry_names(self.entries@))
    }

    /// The names in the map, in ascending order.
    pub closed spec fn names(&self) -> Seq<Seq<char>> {
        entry_names(self.entries@)
    }

    /// A map without entries.
    pub fn new() -> (r: Self)
        ensures
            r@ == Map::<Seq<char>, T::V>::empty(),
    {
        NameMap { entries: Vec::new() }
    }

    /// The number of entries.
    pub fn len(&self) -> (r: usize)
        ensures
            r == self@.len(),
            self@.dom().finite(),
            lists_names(self.names(), self@),
    {
        proof {
            use_type_invariant(self);
            lemma_entries_map(self.entries@);
            assert forall|i: int| 0 <= i < self.names().len() implies self@.contains_key(
                #[trigger] self.names()[i],
            ) by {
                assert(self.entries@[i].0@ == self.names()[i]);
            }
        }
        self.entries.len()
    }

    /// Whether the map has no entry.
    pub fn is_empty(&self) -> (r: bool)
        ensures
            r <==> self@ == Map::<Seq<char>, T::V>::empty(),
            r <==> self@.len() == 0,
            self@.dom().finite(),
    {
        let n = self.len();
        proof {
            if n == 0 {
                assert(self@.dom() =~= Set::empty());
                assert(self@ =~= Map::empty());
            }
        }
        n == 0
    }

    /// Where `name` stands among the entries, or where it belongs if it has none.
    fn locate(&self, name: &str) -> (r: Result<usize, usize>)
        ensures
            match r {
                Ok(i) => i < self.entries@.len() && self.entries@[i as int].0@ == name@,
                Err(i) => {
                    &&& i <= self.entries@.len()
                    &&& forall|j: int|
                        0 <= j < i ==> text::name_before((#[trigger] self.entries@[j]).0@, name@)
                    &&& forall|j: int|
                        i <= j < self.entries@.len() ==> text::name_before(
                            name@,
                            (#[trigger] self.entries@[j]).0@,
                        )
                },
            },
    {
        proof {
            use_type_invariant(self);
        }
        let mut low: usize = 0;
        let mut high: usize = self.entries.len();
        while low < high
            invariant
                low <= high <= self.entries@.len(),
                ascending(entry_names(self.entries@)),
                forall|j: int|
                    0 <= j < low ==> text::name_before((#[trigger] self.entries@[j]).0@, name@),
                forall|j: int|
                    high <= j < self.entries@.len() ==> text::name_before(
                        name@,
                        (#[trigger] self.entries@[j]).0@,
                    ),
            decreases high - low,
        {
            let mid: usize = low + (high - low) / 2;
            let ghost names = entry_names(self.entries@);
            match compare_names(self.entries[mid].0.as_str(), name) {
                Standing::Same => {
                    return Ok(mid);
                },
                Standing::Before => {
                    proof {
                        assert forall|j: int| 0 <= j < mid + 1 implies text::name_before(
                            (#[trigger] self.entries@[j]).0@,
                            name@,
                        ) by {
                            if j < mid {
                                assert(text::name_before(names[j], names[mid as int]));
                                text::law_name_order_transitive(names[j], names[mid as int], name@);
                            }
                        }
                    }
                    low = mid + 1;
                },
                Standing::After => {
                    proof {
                        assert forall|j: int| mid <= j < self.entries@.len() implies text::name_before(
                            name@,
                            (#[trigger] self.entries@[j]).0@,
                        ) by {
                            if mid < j {
                                assert(text::name_before(names[mid as int], names[j]));
                                text::law_name_order_transitive(name@, names[mid as int], names[j]);
                            }
                        }
                    }
                    high = mid;
                },
            }
        }
        Err(low)
    }

    /// A name that belongs between two entries has none of its own.
    proof fn lemma_absent(entries: Seq<(String, T)>, name: Seq<char>, i: int)
        requires
            ascending(entry_names(entries)),
            0 <= i <= entries.len(),
            forall|j: int| 0 <= j < i ==> text::name_before((#[trigger] entries[j]).0@, name),
            forall|j: int|
                i <= j < entries.len() ==> text::name_before(name, (#[trigger] entries[j]).0@),
        ensures
            !entries_map(entries).contains_key(name),
    {
        lemma_entries_map(entries);
        if entries_map(entries).contains_key(name) {
            let j = choose|j: int| 0 <= j < entries.len() && entry_names(entries)[j] == name;
            assert(entries[j].0@ == name);
            text::law_name_order_trichotomy(name, name);
        }
    }

    /// The value under `name`, if there is one.
    pub fn get(&self, name: &str) -> (r: Option<&T>)
        ensures
            match r {
                Some(v) => self@.contains_key(name@) && self@[name@] == v@,
                None => !self@.contains_key(name@),
            },
    {
        let place = self.locate(name);
        proof {
            use_type_invariant(self);
            lemma_entries_map(self.entries@);
        }
        match place {
            Ok(i) => Some(&self.entries[i].1),
            Err(i) => {
                proof {
                    Self::lemma_absent(self.entries@, name@, i as int);
                }
                None
            },
        }
    }

    /// Whether there is a value under `name`.
    pub fn contains_key(&self, name: &str) -> (r: bool)
        ensures
            r == self@.contains_key(name@),
    {
        self.get(name).is_some()
    }

    /// The name of the entry at position `i` of the name order.
    pub fn name_at(&self, i: usize) -> (r: &String)
        requires
            i < self@.len(),
        ensures
            r@ == self.names()[i as int],
            self@.contains_key(r@),
    {
        proof {
            use_type_invariant(self);
            lemma_entries_map(self.entries@);
        }
        &self.entries[i].0
    }

    /// The value of the entry at position `i` of the name order.
    pub fn value_at(&self, i: usize) -> (r: &T)
        requires
            i < self@.len(),
        ensures
            self@.contains_key(self.names()[i as int]),
            r@ == self@[self.names()[i as int]],
    {
        proof {
            use_type_invariant(self);
            lemma_entries_map(self.entries@);
        }
        &self.entries[i].1
    }

    /// Puts `value` under `name` and gives back the value that stood there before.
    pub fn insert(&mut self, name: String, value: T) -> (r: Option<T>)
        ensures
            final(self)@ == old(self)@.insert(name@, value@),
            match r {
                Some(v) => old(self)@.contains_key(name@) && old(self)@[name@] == v@,
                None => !old(self)@.contains_key(name@),
            },
    {
        let place = self.locate(name.as_str());
        proof {
            use_type_invariant(&*self);
            lemma_entries_map(self.entries@);
        }
        let ghost before = self.entries@;
        let ghost target = self@.insert(name@, value@);
        let mut entries: Vec<(String, T)> = Vec::new();
        core::mem::swap(&mut entries, &mut self.entries);
        let r = match place {
            Ok(i) => {
                let ghost key = name@;
                entries.push((name, value));
                let old_entry = entries.swap_remove(i);
                proof {
                    let after = entries@;
                    assert(after =~= before.update(i as int, (name, value)));
                    assert forall|a: int, b: int| 0 <= a < b < after.len() implies text::name_before(
                        #[trigger] entry_names(after)[a],
                        #[trigger] entry_names(after)[b],
                    ) by {
                        assert(entry_names(after)[a] == entry_names(before)[a]);
                        assert(entry_names(after)[b] == entry_names(before)[b]);
                    }
                    assert(entry_names(after) =~= entry_names(before));
                    assert forall|j: int| 0 <= j < after.len() implies target.contains_key(
                        (#[trigger] after[j]).0@,
                    ) && target[after[j].0@] == after[j].1@ by {
                        if j != i {
                            assert(after[j] == before[j]);
                            text::law_name_order_trichotomy(before[j].0@, before[i as int].0@);
                            if j < i {
                                assert(text::name_before(entry_names(before)[j], entry_names(before)[i as int]));
                            } else {
                                assert(text::name_before(entry_names(before)[i as int], entry_names(before)[j]));
                            }
                        }
                    }
                    assert forall|k: Seq<char>| #[trigger]
                        target.contains_key(k) implies entry_names(after).contains(k) by {
                        if k == key {
                            assert(entry_names(after)[i as int] == k);
                        }
                    }
                    lemma_same_map(after, target);
                }
                Some(old_entry.1)
            },
            Err(i) => {
                proof {
                    Self::lemma_absent(before, name@, i as int);
                }
                let ghost entry = (name, value);
                entries.insert(i, (name, value));
                proof {
                    let after = entries@;
                    assert(after =~= before.insert(i as int, entry));
                    assert forall|a: int, b: int| 0 <= a < b < after.len() implies text::name_before(
                        #[trigger] entry_names(after)[a],
                        #[trigger] entry_names(after)[b],
                    ) by {
                        let pa = if a < i { a } else { a - 1 };
                        let pb = if b < i { b } else { b - 1 };
                        if a != i {
                            assert(after[a] == before[pa]);
                        }
                        if b != i {
                            assert(after[b] == before[pb]);
                        }
                        if a != i && b != i {
                            assert(text::name_before(entry_names(before)[pa], entry_names(before)[pb]));
                        }
                    }
                    assert forall|j: int| 0 <= j < after.len() implies target.contains_key(
                        (#[trigger] after[j]).0@,
                    ) && target[after[j].0@] == after[j].1@ by {
                        if j != i {
                            let p = if j < i { j } else { j - 1 };
                            assert(after[j] == before[p]);
                            assert(entries_map(before).contains_key(before[p].0@));
                        }
                    }
                    assert forall|k: Seq<char>| #[trigger]
                        target.contains_key(k) implies entry_names(after).contains(k) by {
                        if k == entry.0@ {
                            assert(entry_names(after)[i as int] == k);
                        } else {
                            assert(entries_map(before).contains_key(k));
                            let p = choose|p: int|
                                0 <= p < before.len() && entry_names(before)[p] == k;
                            let j = if p < i { p } else { p + 1 };
                            assert(after[j] == before[p]);
                            assert(entry_names(after)[j] == k);
                        }
                    }
                    lemma_same_map(after, target);
                }
                None
            },
        };
        self.entries = entries;
        r
    }

    /// Takes out the value under `name`.
    pub fn remove(&mut self, name: &str) -> (r: Option<T>)
        ensures
            final(self)@ == old(self)@.remove(name@),
            match r {
                Some(v) => old(self)@.contains_key(name@) && old(self)@[name@] == v@,
                None => !old(self)@.contains_key(name@),
            },
    {
        let place = self.locate(name);
        proof {
            use_type_invariant(&*self);
            lemma_entries_map(self.entries@);
        }
        let ghost before = self.entries@;
        let ghost target = self@.remove(name@);
        match place {
            Ok(i) => {
                let mut entries: Vec<(String, T)> = Vec::new();
                core::mem::swap(&mut entries, &mut self.entries);
                let old_entry = entries.remove(i);
                proof {
                    let after = entries@;
                    assert forall|a: int, b: int| 0 <= a < b < after.len() implies text::name_before(
                        #[trigger] entry_names(after)[a],
                        #[trigger] entry_names(after)[b],
                    ) by {
                        let pa = if a < i { a } else { a + 1 };
                        let pb = if b < i { b } else { b + 1 };
                        assert(after[a] == before[pa]);
                        assert(after[b] == before[pb]);
                        assert(text::name_before(entry_names(before)[pa], entry_names(before)[pb]));
                    }
                    assert forall|j: int| 0 <= j < after.len() implies target.contains_key(
                        (#[trigger] after[j]).0@,
                    ) && target[after[j].0@] == after[j].1@ by {
                        let p = if j < i { j } else { j + 1 };
                        assert(after[j] == before[p]);
                        text::law_name_order_trichotomy(before[p].0@, before[i as int].0@);
                        if p < i {
                            assert(text::name_before(entry_names(before)[p], entry_names(before)[i as int]));
                        } else {
                            assert(text::name_before(entry_names(before)[i as int], entry_names(before)[p]));
                        }
                    }
                    assert forall|k: Seq<char>| #[trigger]
                        target.contains_key(k) implies entry_names(after).contains(k) by {
                        assert(entries_map(before).contains_key(k));
                        let p = choose|p: int| 0 <= p < before.len() && entry_names(before)[p] == k;
                        let j = if p < i { p } else { p - 1 };
                        assert(p != i);
                        assert(after[j] == before[p]);
                        assert(entry_names(after)[j] == k);
                    }
                    lemma_same_map(after, target);
                }
                self.entries = entries;
                Some(old_entry.1)
            },
            Err(i) => {
                proof {
                    Self::lemma_absent(before, name@, i as int);
                    assert(target =~= self@);
                }
                None
            },
        }
    }

    /// The names in the map, in ascending order.
    pub fn name_list(&self) -> (r: Vec<String>)
        ensures
            lists_names(text::texts(r@), self@),
    {
        let n = self.len();
        let ghost names = self.names();
        let mut r: Vec<String> = Vec::new();
        let mut i: usize = 0;
        while i < n
            invariant
                i <= n,
                n == self@.len(),
                names == self.names(),
                lists_names(names, self@),
                r@.len() == i,
                forall|j: int| 0 <= j < i ==> (#[trigger] r@[j])@ == names[j],
            decreases n - i,
        {
            r.push(self.name_at(i).clone());
            i = i + 1;
        }
        assert(text::texts(r@) =~= names);
        r
    }

    /// Takes out every entry.
    pub fn clear(&mut self)
        ensures
            final(self)@ == Map::<Seq<char>, T::V>::empty(),
    {
        self.entries = Vec::new();
    }
}

impl<T: Duplicate> Duplicate for NameMap<T> {
    fn duplicate(&self) -> (r: Self) {
        proof {
            use_type_invariant(self);
        }
        let mut entries: Vec<(String, T)> = Vec::new();
        let mut i: usize = 0;
        while i < self.entries.len()
            invariant
                i <= self.entries@.len(),
                entries@.len() == i,
                forall|j: int|
                    0 <= j < i ==> (#[trigger] entries@[j]).0@ == self.entries@[j].0@
                        && entries@[j].1@ == self.entries@[j].1@,
            decreases self.entries@.len() - i,
        {
            let entry = &self.entries[i];
            entries.push((entry.0.clone(), entry.1.duplicate()));
            i = i + 1;
        }
        proof {
            assert(entry_names(entries@) =~= entry_names(self.entries@));
            lemma_entries_map(self.entries@);
            assert forall|j: int| 0 <= j < entries@.len() implies self@.contains_key(
                (#[trigger] entries@[j]).0@,
            ) && self@[entries@[j].0@] == entries@[j].1@ by {
                assert(self@.contains_key(self.entries@[j].0@));
            }
            lemma_same_map(entries@, self@);
        }
        NameMap { entries }
    }
}

/// A map holds under a name what was put there last, and under every other name what it held before.
pub proof fn law_map_holds_what_was_put_there<V>(
    m: Map<Seq<char>, V>,
    k: Seq<char>,
    v: V,
    other: Seq<char>,
)
    ensures
        held(m.insert(k, v), k) == Some(v),
        held(m.remove(k), k) is None,
        other != k ==> held(m.insert(k, v), other) == held(m, other),
        other != k ==> held(m.remove(k), other) == held(m, other),
        held(Map::<Seq<char>, V>::empty(), k) is None,
{
}

/// An optional value stands for what it holds, and for nothing if it holds nothing.
pub proof fn law_optional_value_is_what_it_holds<T: View>(x: T)
    ensures
        optional(Some(x)) == Some(x@),
        optional(None::<T>) is None,
{
}

/// A list of the names of a map has each of them at exactly one place, no other name, and the smaller
/// of any two first.
pub proof fn law_names_are_listed_once_in_order<V>(
    names: Seq<Seq<char>>,
    m: Map<Seq<char>, V>,
    k: Seq<char>,
)
    requires
        lists_names(names, m),
    ensures
        names.contains(k) <==> m.contains_key(k),
        forall|i: int, j: int|
            0 <= i < names.len() && 0 <= j < names.len() && #[trigger] names[i]
                == #[trigger] names[j] ==> i == j,
        forall|i: int, j: int|
            0 <= i < j < names.len() ==> text::name_before(#[trigger] names[i], #[trigger] names[j]),
{
    assert forall|i: int, j: int|
        0 <= i < names.len() && 0 <= j < names.len() && #[trigger] names[i]
            == #[trigger] names[j] implies i == j by {
        text::law_name_order_trichotomy(names[i], names[j]);
    }
}

} // verus!
