//! Ordering and equality of names.
//!
//! Names are compared as Rust compares strings: byte by byte in their UTF-8 encoding.

use vstd::prelude::*;
use vstd::utf8::*;

verus! {

/// `a` comes strictly before `b` in the lexicographic order of byte strings.
pub open spec fn bytes_before(a: Seq<u8>, b: Seq<u8>) -> bool
    decreases a.len(),
{
    if b.len() == 0 {
        false
    } else if a.len() == 0 {
        true
    } else {
        a[0] < b[0] || (a[0] == b[0] && bytes_before(a.drop_first(), b.drop_first()))
    }
}

/// `a` comes strictly before `b` in the order of names.
pub open spec fn name_before(a: Seq<char>, b: Seq<char>) -> bool {
    bytes_before(encode_utf8(a), encode_utf8(b))
}

proof fn lemma_bytes_before_irreflexive(a: Seq<u8>)
    ensures
        !bytes_before(a, a),
    decreases a.len(),
{
    if a.len() > 0 {
        lemma_bytes_before_irreflexive(a.drop_first());
    }
}

proof fn lemma_bytes_before_transitive(a: Seq<u8>, b: Seq<u8>, c: Seq<u8>)
    requires
        bytes_before(a, b),
        bytes_before(b, c),
    ensures
        bytes_before(a, c),
    decreases a.len(),
{
    if a.len() > 0 && a[0] == b[0] && b[0] == c[0] {
        lemma_bytes_before_transitive(a.drop_first(), b.drop_first(), c.drop_first());
    }
}

proof fn lemma_bytes_before_total(a: Seq<u8>, b: Seq<u8>)
    ensures
        a == b || bytes_before(a, b) || bytes_before(b, a),
    decreases a.len(),
{
    if a.len() == 0 || b.len() == 0 {
        if a.len() == b.len() {
            assert(a =~= b);
        }
    } else if a[0] == b[0] {
        lemma_bytes_before_total(a.drop_first(), b.drop_first());
        if a.drop_first() == b.drop_first() {
            assert(a =~= seq![a[0]] + a.drop_first());
            assert(b =~= seq![b[0]] + b.drop_first());
        }
    }
}

/// Two names with the same encoding are the same name.
pub proof fn lemma_name_encoding_injective(a: Seq<char>, b: Seq<char>)
    requires
        encode_utf8(a) == encode_utf8(b),
    ensures
        a == b,
{
    encode_utf8_decode_utf8(a);
    encode_utf8_decode_utf8(b);
}

/// The order of names is a strict total order: of two names exactly one of the following holds:
/// the first comes before the second, they are the same, the second comes before the first.
pub proof fn law_name_order_trichotomy(a: Seq<char>, b: Seq<char>)
    ensures
        name_before(a, b) ==> a != b && !name_before(b, a),
        a == b ==> !name_before(a, b),
        a != b ==> name_before(a, b) || name_before(b, a),
{
    let x = encode_utf8(a);
    let y = encode_utf8(b);
    lemma_bytes_before_irreflexive(x);
    lemma_bytes_before_total(x, y);
    if x == y {
        lemma_name_encoding_injective(a, b);
    }
    if bytes_before(x, y) && bytes_before(y, x) {
        lemma_bytes_before_transitive(x, y, x);
    }
}

/// The order of names is transitive.
pub proof fn law_name_order_transitive(a: Seq<char>, b: Seq<char>, c: Seq<char>)
    requires
        name_before(a, b),
        name_before(b, c),
    ensures
        name_before(a, c),
{
    lemma_bytes_before_transitive(encode_utf8(a), encode_utf8(b), encode_utf8(c));
}

proof fn lemma_first_difference(a: Seq<u8>, b: Seq<u8>, i: int)
    requires
        0 <= i <= a.len(),
        i < b.len(),
        forall|j: int| 0 <= j < i ==> a[j] == #[trigger] b[j],
        i < a.len() ==> a[i] < b[i],
    ensures
        bytes_before(a, b),
    decreases i,
{
    if i > 0 {
        assert(a[0] == b[0]);
        assert forall|j: int| 0 <= j < i - 1 implies a.drop_first()[j] == #[trigger] b.drop_first()[j] by {
            assert(a[j + 1] == b[j + 1]);
        }
        lemma_first_difference(a.drop_first(), b.drop_first(), i - 1);
    }
}

/// The first byte in which the encodings of two names differ decides their order: the name with the
/// smaller byte there, or with none there, comes first.
pub proof fn law_first_different_byte_decides(a: Seq<char>, b: Seq<char>, i: int)
    requires
        0 <= i <= encode_utf8(a).len(),
        i < encode_utf8(b).len(),
        forall|j: int| 0 <= j < i ==> encode_utf8(a)[j] == #[trigger] encode_utf8(b)[j],
        i < encode_utf8(a).len() ==> encode_utf8(a)[i] < encode_utf8(b)[i],
    ensures
        name_before(a, b),
        !name_before(b, a),
{
    lemma_first_difference(encode_utf8(a), encode_utf8(b), i);
    law_name_order_trichotomy(a, b);
}

/// Where one name stands with respect to another.
#[derive(Clone, Copy, Debug, PartialEq, Eq, Structural)]
pub enum Standing {
    Before,
    Same,
    After,
}

/// Compares two names.
pub fn compare_names(a: &str, b: &str) -> (r: Standing)
    ensures
        r == Standing::Before <==> name_before(a@, b@),
        r == Standing::Same <==> a@ == b@,
        r == Standing::After <==> name_before(b@, a@),
{
    let x = a.as_bytes();
    let y = b.as_bytes();
    proof {
        law_name_order_trichotomy(a@, b@);
        assert(x@.skip(0) =~= x@);
        assert(y@.skip(0) =~= y@);
    }
    let mut i: usize = 0;
    while i < x.len() && i < y.len()
        invariant
            i <= x@.len(),
            i <= y@.len(),
            x@ == encode_utf8(a@),
            y@ == encode_utf8(b@),
            name_before(a@, b@) ==> a@ != b@ && !name_before(b@, a@),
            bytes_before(x@, y@) == bytes_before(x@.skip(i as int), y@.skip(i as int)),
            bytes_before(y@, x@) == bytes_before(y@.skip(i as int), x@.skip(i as int)),
            x@.take(i as int) == y@.take(i as int),
        decreases x@.len() - i,
    {
        if x[i] < y[i] {
            return Standing::Before;
        }
        if x[i] > y[i] {
            proof {
                law_name_order_trichotomy(a@, b@);
            }
            return Standing::After;
        }
        proof {
            assert(x@.skip(i as int).drop_first() =~= x@.skip(i + 1));
            assert(y@.skip(i as int).drop_first() =~= y@.skip(i + 1));
            assert(x@.take(i + 1) =~= x@.take(i as int).push(x@[i as int]));
            assert(y@.take(i + 1) =~= y@.take(i as int).push(y@[i as int]));
        }
        i = i + 1;
    }
    proof {
        law_name_order_trichotomy(a@, b@);
    }
    if i < y.len() {
        Standing::Before
    } else if i < x.len() {
        Standing::After
    } else {
        proof {
            assert(x@.take(i as int) =~= x@);
            assert(y@.take(i as int) =~= y@);
            lemma_name_encoding_injective(a@, b@);
        }
        Standing::Same
    }
}


/// Opens the tag by which a listing marker refers to a listing cache.
pub const MARKER_TAG: &'static str = "[rustfs_cache:";

/// The tag stands at position `i` of `marker`.
pub open spec fn tag_at(marker: Seq<char>, i: int) -> bool {
    &&& 0 <= i
    &&& i + MARKER_TAG@.len() <= marker.len()
    &&& marker.subrange(i, i + MARKER_TAG@.len()) == MARKER_TAG@
}

/// The key that a listing marker stands for: what comes before its first cache tag.
pub open spec fn marker_key(marker: Seq<char>) -> Seq<char>
    decreases marker.len(),
{
    if marker.len() == 0 || tag_at(marker, 0) {
        Seq::empty()
    } else {
        seq![marker[0]] + marker_key(marker.drop_first())
    }
}

/// Up to the first tag, a marker is its own key.
proof fn lemma_marker_key_prefix(marker: Seq<char>, n: int)
    requires
        0 <= n <= marker.len(),
        forall|i: int| 0 <= i < n ==> !tag_at(marker, i),
    ensures
        marker_key(marker) == marker.take(n) + marker_key(marker.skip(n)),
    decreases n,
{
    if n == 0 {
        assert(marker.skip(0) =~= marker);
        assert(marker.take(0) + marker_key(marker) =~= marker_key(marker));
    } else {
        let rest = marker.drop_first();
        assert forall|i: int| 0 <= i < n - 1 implies !tag_at(rest, i) by {
            if tag_at(rest, i) {
                assert(marker.subrange(i + 1, i + 1 + MARKER_TAG@.len()) =~= rest.subrange(
                    i,
                    i + MARKER_TAG@.len(),
                ));
                assert(tag_at(marker, i + 1));
            }
        }
        lemma_marker_key_prefix(rest, n - 1);
        assert(!tag_at(marker, 0));
        assert(rest.skip(n - 1) =~= marker.skip(n));
        assert(seq![marker[0]] + (rest.take(n - 1) + marker_key(marker.skip(n))) =~= marker.take(n)
            + marker_key(marker.skip(n)));
    }
}

/// A marker without a tag is its own key.
pub proof fn law_untagged_marker_is_its_key(marker: Seq<char>)
    requires
        forall|i: int| !tag_at(marker, i),
    ensures
        marker_key(marker) == marker,
{
    lemma_marker_key_prefix(marker, marker.len() as int);
    assert(marker.take(marker.len() as int) + marker_key(marker.skip(marker.len() as int))
        =~= marker);
}

proof fn lemma_marker_key_ends_at_tag(marker: Seq<char>)
    ensures
        ({
            let n = marker_key(marker).len() as int;
            &&& 0 <= n <= marker.len()
            &&& marker_key(marker) == marker.take(n)
            &&& n < marker.len() ==> tag_at(marker, n)
            &&& forall|i: int| 0 <= i < n ==> !tag_at(marker, i)
        }),
    decreases marker.len(),
{
    if marker.len() == 0 || tag_at(marker, 0) {
        assert(marker.take(0) =~= Seq::empty());
    } else {
        let rest = marker.drop_first();
        lemma_marker_key_ends_at_tag(rest);
        let n = marker_key(marker).len() as int;
        assert(marker_key(marker) =~= marker.take(n));
        if n < marker.len() {
            assert(marker.subrange(n, n + MARKER_TAG@.len()) =~= rest.subrange(
                n - 1,
                n - 1 + MARKER_TAG@.len(),
            ));
        }
        assert forall|i: int| 0 <= i < n implies !tag_at(marker, i) by {
            if i > 0 && tag_at(marker, i) {
                assert(marker.subrange(i, i + MARKER_TAG@.len()) =~= rest.subrange(
                    i - 1,
                    i - 1 + MARKER_TAG@.len(),
                ));
                assert(tag_at(rest, i - 1));
            }
        }
    }
}

/// The key of a marker is where it begins, and nothing of the marker is lost but a cache tag and
/// what stands behind: the marker goes on with the opening of a tag, or not at all, and no tag opens
/// within the key.
pub proof fn law_marker_goes_on_with_a_tag(marker: Seq<char>)
    ensures
        ({
            let key = marker_key(marker);
            let n = key.len() as int;
            let opening = "[rustfs_cache:"@;
            &&& n <= marker.len()
            &&& marker.take(n) == key
            &&& n == marker.len() || (n + opening.len() <= marker.len() && marker.subrange(
                n,
                n + opening.len(),
            ) == opening)
            &&& forall|i: int|
                0 <= i < n && i + opening.len() <= marker.len() ==> #[trigger] marker.subrange(
                    i,
                    i + opening.len(),
                ) != opening
        }),
{
    lemma_marker_key_ends_at_tag(marker);
    let n = marker_key(marker).len() as int;
    let opening = "[rustfs_cache:"@;
    assert forall|i: int| 0 <= i < n && i + opening.len() <= marker.len() implies #[trigger] marker.subrange(
        i,
        i + opening.len(),
    ) != opening by {
        assert(!tag_at(marker, i));
    }
}

/// What a server notes in a tag behind the key makes no difference to the key, as long as no tag
/// opens before that.
pub proof fn law_tag_is_no_part_of_the_key(key: Seq<char>, note: Seq<char>)
    requires
        marker_key(key + "[rustfs_cache:"@) == key,
    ensures
        marker_key(key + "[rustfs_cache:"@ + note) == key,
{
    let opened = key + "[rustfs_cache:"@;
    let marker = opened + note;
    let n = key.len() as int;
    lemma_marker_key_ends_at_tag(opened);
    assert forall|i: int| 0 <= i < n implies !tag_at(marker, i) by {
        assert(marker.subrange(i, i + MARKER_TAG@.len()) =~= opened.subrange(
            i,
            i + MARKER_TAG@.len(),
        ));
        assert(!tag_at(opened, i));
    }
    lemma_marker_key_prefix(marker, n);
    assert(marker.skip(n).subrange(0, MARKER_TAG@.len() as int) =~= MARKER_TAG@);
    assert(tag_at(marker.skip(n), 0));
    assert(marker.take(n) + Seq::<char>::empty() =~= key);
}

/// The characters of a string.
fn characters(s: &str) -> (r: Vec<char>)
    ensures
        r@ == s@,
{
    let mut chars: Vec<char> = Vec::new();
    for c in it: s.chars()
        invariant
            chars@ == it.seq().take(it.index()),
            it.seq() == s@,
    {
        chars.push(c);
        assert(it.seq().take(it.index() + 1) =~= it.seq().take(it.index()).push(c));
    }
    assert(s@.take(s@.len() as int) =~= s@);
    chars
}

/// The key that a listing marker stands for: what comes before its first cache tag.
pub fn list_marker_key(marker: &str) -> (r: &str)
    ensures
        r@ == marker_key(marker@),
{
    let chars = characters(marker);
    let tag = characters(MARKER_TAG);
    let mut i: usize = 0;
    while i < chars.len()
        invariant
            i <= chars@.len(),
            chars@ == marker@,
            tag@ == MARKER_TAG@,
            forall|j: int| 0 <= j < i ==> !tag_at(marker@, j),
        decreases chars@.len() - i,
    {
        if tag_stands_at(&chars, i, &tag) {
            proof {
                lemma_marker_key_prefix(marker@, i as int);
                assert(tag_at(marker@.skip(i as int), 0)) by {
                    assert(marker@.skip(i as int).subrange(0, MARKER_TAG@.len() as int)
                        =~= marker@.subrange(i as int, i + MARKER_TAG@.len()));
                }
                assert(marker@.take(i as int) + Seq::<char>::empty() =~= marker@.take(i as int));
            }
            return marker.substring_char(0, i);
        }
        i = i + 1;
    }
    proof {
        lemma_marker_key_prefix(marker@, i as int);
        assert(marker@.take(i as int) + marker_key(marker@.skip(i as int)) =~= marker@);
    }
    marker
}

/// Whether `tag` stands at position `i` of `chars`.
fn tag_stands_at(chars: &Vec<char>, i: usize, tag: &Vec<char>) -> (r: bool)
    requires
        i <= chars@.len(),
        tag@ == MARKER_TAG@,
    ensures
        r == tag_at(chars@, i as int),
{
    let n = chars.len();
    if n - i < tag.len() {
        return false;
    }
    let mut j: usize = 0;
    while j < tag.len()
        invariant
            j <= tag@.len(),
            n == chars@.len(),
            i + tag@.len() <= n,
            tag@ == MARKER_TAG@,
            forall|k: int| 0 <= k < j ==> chars@[i + k] == tag@[k],
        decreases tag@.len() - j,
    {
        if chars[i + j] != tag[j] {
            proof {
                if tag_at(chars@, i as int) {
                    assert(chars@.subrange(i as int, i + MARKER_TAG@.len())[j as int] == tag@[j as int]);
                }
            }
            return false;
        }
        j = j + 1;
    }
    assert(chars@.subrange(i as int, i + MARKER_TAG@.len()) =~= tag@);
    true
}

/// What a list of strings holds.
pub open spec fn texts(strings: Seq<String>) -> Seq<Seq<char>> {
    Seq::new(strings.len(), |i: int| strings[i]@)
}

/// A list of strings holds the text of each of them, in order.
pub proof fn law_list_holds_each_text(strings: Seq<String>, i: int)
    requires
        0 <= i < strings.len(),
    ensures
        texts(strings).len() == strings.len(),
        texts(strings)[i] == strings[i]@,
{
}

} // verus!
