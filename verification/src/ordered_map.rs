//! Insertion-ordered maps keyed by strings, held in `indexmap::IndexMap`.
//!
//! Two maps of this kind appear in the configuration: saved indicator
//! positions (output name to point) and the icon mapping (group to icon
//! name). Their contents are modelled as the sequence of `(key, value)`
//! entries in insertion order.

use indexmap::IndexMap;
use vstd::prelude::*;

use crate::geometry::Point;

verus! {

#[verifier::external_type_specification]
#[verifier::external_body]
#[verifier::reject_recursive_types(K)]
#[verifier::reject_recursive_types(V)]
#[verifier::reject_recursive_types(S)]
pub struct ExIndexMap<K, V, S>(IndexMap<K, V, S>);

/// The entries of a positions map, in insertion order.
pub uninterp spec fn position_entries(m: IndexMap<String, Point>) -> Seq<(Seq<char>, Point)>;

/// The entries of a string-to-string map, in insertion order.
pub uninterp spec fn mapping_entries(m: IndexMap<String, String>) -> Seq<(Seq<char>, Seq<char>)>;

/// Index of the first entry at or after `start` whose key is `k`, or -1.
pub open spec fn key_index_from<V>(e: Seq<(Seq<char>, V)>, k: Seq<char>, start: int) -> int
    decreases e.len() - start,
{
    if start < 0 || start >= e.len() {
        -1
    } else if e[start].0 == k {
        start
    } else {
        key_index_from(e, k, start + 1)
    }
}

/// Index of the entry whose key is `k`, or -1.
pub open spec fn key_index<V>(e: Seq<(Seq<char>, V)>, k: Seq<char>) -> int {
    key_index_from(e, k, 0)
}

/// The value stored under `k`.
pub open spec fn entries_lookup<V>(e: Seq<(Seq<char>, V)>, k: Seq<char>) -> Option<V> {
    if key_index(e, k) >= 0 {
        Some(e[key_index(e, k)].1)
    } else {
        None
    }
}

/// Inserting: an existing key keeps its place and takes the new value,
/// a new key goes last.
pub open spec fn entries_insert<V>(e: Seq<(Seq<char>, V)>, k: Seq<char>, v: V) -> Seq<(Seq<char>, V)> {
    if key_index(e, k) >= 0 {
        e.update(key_index(e, k), (k, v))
    } else {
        e.push((k, v))
    }
}

/// Removing a key shifts the later entries down, keeping their order.
pub open spec fn entries_remove<V>(e: Seq<(Seq<char>, V)>, k: Seq<char>) -> Seq<(Seq<char>, V)> {
    if key_index(e, k) >= 0 {
        e.remove(key_index(e, k))
    } else {
        e
    }
}

/// Map equality as `IndexMap` defines it: same length, and every entry of
/// `a` is found with the same value in `b` (order does not matter).
pub open spec fn entries_equiv<V>(a: Seq<(Seq<char>, V)>, b: Seq<(Seq<char>, V)>) -> bool {
    &&& a.len() == b.len()
    &&& forall|i: int| 0 <= i < a.len() ==> #[trigger] entries_lookup(b, a[i].0) == Some(a[i].1)
}

/// What [`key_index_from`] finds.
pub proof fn lemma_key_index_from<V>(e: Seq<(Seq<char>, V)>, k: Seq<char>, start: int)
    requires
        0 <= start,
    ensures
        ({
            let r = key_index_from(e, k, start);
            &&& -1 <= r < e.len()
            &&& r >= 0 ==> start <= r && e[r].0 == k
            &&& r >= 0 ==> forall|j: int| start <= j < r ==> e[j].0 != k
            &&& r < 0 ==> forall|j: int| start <= j < e.len() ==> e[j].0 != k
        }),
    decreases e.len() - start,
{
    if start < e.len() && e[start].0 != k {
        lemma_key_index_from(e, k, start + 1);
    }
}

/// What [`key_index`] finds.
pub proof fn lemma_key_index<V>(e: Seq<(Seq<char>, V)>, k: Seq<char>)
    ensures
        ({
            let r = key_index(e, k);
            &&& -1 <= r < e.len()
            &&& r >= 0 ==> e[r].0 == k
            &&& r >= 0 ==> forall|j: int| 0 <= j < r ==> e[j].0 != k
            &&& r < 0 ==> forall|j: int| 0 <= j < e.len() ==> e[j].0 != k
        }),
{
    lemma_key_index_from(e, k, 0);
}

/// The first entry holding a key is where [`key_index`] points.
pub proof fn lemma_key_index_at<V>(e: Seq<(Seq<char>, V)>, k: Seq<char>, i: int)
    requires
        0 <= i < e.len(),
        e[i].0 == k,
        forall|j: int| 0 <= j < i ==> e[j].0 != k,
    ensures
        key_index(e, k) == i,
{
    lemma_key_index(e, k);
}

/// `IndexMap::new()`: the empty map.
#[verifier::external_body]
pub(crate) fn positions_new() -> (r: IndexMap<String, Point>)
    ensures
        position_entries(r) == Seq::<(Seq<char>, Point)>::empty(),
{
    IndexMap::new()
}

/// `IndexMap::insert`: an existing key keeps its place and takes the new
/// value, a new key is appended.
#[verifier::external_body]
pub(crate) fn positions_insert(m: &mut IndexMap<String, Point>, key: String, value: Point)
    ensures
        position_entries(*final(m)) == entries_insert(position_entries(*old(m)), key@, value),
{
    m.insert(key, value);
}

/// `IndexMap::get`: the value stored under `key`.
#[verifier::external_body]
pub(crate) fn positions_get(m: &IndexMap<String, Point>, key: &str) -> (r: Option<Point>)
    ensures
        r == entries_lookup(position_entries(*m), key@),
{
    m.get(key).copied()
}

/// `IndexMap::shift_remove`: removes `key`, keeping the order of the rest,
/// and returns its value.
#[verifier::external_body]
pub(crate) fn positions_shift_remove(m: &mut IndexMap<String, Point>, key: &str) -> (r: Option<Point>)
    ensures
        r == entries_lookup(position_entries(*old(m)), key@),
        position_entries(*final(m)) == entries_remove(position_entries(*old(m)), key@),
{
    m.shift_remove(key)
}

/// `IndexMap::len`: the number of entries.
#[verifier::external_body]
pub(crate) fn positions_len(m: &IndexMap<String, Point>) -> (r: usize)
    ensures
        r == position_entries(*m).len(),
{
    m.len()
}

/// `IndexMap::get_index`: the entry at position `i`.
#[verifier::external_body]
pub(crate) fn positions_entry(m: &IndexMap<String, Point>, i: usize) -> (r: (String, Point))
    requires
        i < position_entries(*m).len(),
    ensures
        r.0@ == position_entries(*m)[i as int].0,
        r.1 == position_entries(*m)[i as int].1,
{
    let (k, v) = m.get_index(i).unwrap();
    (k.clone(), *v)
}

/// `IndexMap::clone`: a map with the same entries. Like every
/// `IndexMap`, they hold each key once.
#[verifier::external_body]
pub(crate) fn positions_clone(m: &IndexMap<String, Point>) -> (r: IndexMap<String, Point>)
    ensures
        position_entries(r) == position_entries(*m),
        keys_unique(position_entries(r)),
{
    m.clone()
}

/// `IndexMap::new()`: the empty map.
#[verifier::external_body]
pub(crate) fn mapping_new() -> (r: IndexMap<String, String>)
    ensures
        mapping_entries(r) == Seq::<(Seq<char>, Seq<char>)>::empty(),
{
    IndexMap::new()
}

/// `IndexMap::insert`: an existing key keeps its place and takes the new
/// value, a new key is appended.
#[verifier::external_body]
pub(crate) fn mapping_insert(m: &mut IndexMap<String, String>, key: String, value: String)
    ensures
        mapping_entries(*final(m)) == entries_insert(mapping_entries(*old(m)), key@, value@),
{
    m.insert(key, value);
}

/// `IndexMap::clone`: a map with the same entries. Like every
/// `IndexMap`, they hold each key once.
#[verifier::external_body]
pub(crate) fn mapping_clone(m: &IndexMap<String, String>) -> (r: IndexMap<String, String>)
    ensures
        mapping_entries(r) == mapping_entries(*m),
        keys_unique(mapping_entries(r)),
{
    m.clone()
}

/// `IndexMap`'s `==`: same length, and every entry of `a` is found in
/// `b` with an equal value.
#[verifier::external_body]
pub(crate) fn positions_eq(a: &IndexMap<String, Point>, b: &IndexMap<String, Point>) -> (r: bool)
    ensures
        r == entries_equiv(position_entries(*a), position_entries(*b)),
{
    a == b
}

/// `IndexMap`'s `==`: same length, and every entry of `a` is found in
/// `b` with an equal value.
#[verifier::external_body]
pub(crate) fn mapping_eq(a: &IndexMap<String, String>, b: &IndexMap<String, String>) -> (r: bool)
    ensures
        r == entries_equiv(mapping_entries(*a), mapping_entries(*b)),
{
    a == b
}

/// `IndexMap::get`, borrowing the stored value.
#[verifier::external_body]
pub(crate) fn mapping_get_ref<'a>(m: &'a IndexMap<String, String>, key: &str) -> (r: Option<&'a String>)
    ensures
        match r {
            Some(v) => entries_lookup(mapping_entries(*m), key@) == Some(v@),
            None => entries_lookup(mapping_entries(*m), key@) == None::<Seq<char>>,
        },
{
    m.get(key)
}

/// No key occurs twice, as in every `IndexMap`.
pub open spec fn keys_unique<V>(e: Seq<(Seq<char>, V)>) -> bool {
    forall|i: int, j: int| 0 <= i < j < e.len() ==> e[i].0 != e[j].0
}

/// Entries with distinct keys are equivalent to themselves.
pub proof fn lemma_equiv_refl<V>(e: Seq<(Seq<char>, V)>)
    requires
        keys_unique(e),
    ensures
        entries_equiv(e, e),
{
    assert forall|i: int| 0 <= i < e.len() implies #[trigger] entries_lookup(e, e[i].0) == Some(
        e[i].1,
    ) by {
        lemma_key_index_at(e, e[i].0, i);
    }
}

/// A value inserted under a key is what a lookup of that key gives.
pub proof fn lemma_insert_then_lookup<V>(e: Seq<(Seq<char>, V)>, k: Seq<char>, v: V)
    ensures
        entries_lookup(entries_insert(e, k, v), k) == Some(v),
{
    lemma_key_index(e, k);
    let i = key_index(e, k);
    let e2 = entries_insert(e, k, v);
    if i >= 0 {
        assert forall|j: int| 0 <= j < i implies e2[j].0 != k by {}
        lemma_key_index_at(e2, k, i);
    } else {
        assert forall|j: int| 0 <= j < e.len() implies e2[j].0 != k by {}
        lemma_key_index_at(e2, k, e.len() as int);
    }
}

/// Inserting under one key leaves the lookups of every other key as
/// they were.
pub proof fn lemma_insert_keeps_others<V>(e: Seq<(Seq<char>, V)>, k: Seq<char>, v: V, other: Seq<char>)
    requires
        other != k,
    ensures
        entries_lookup(entries_insert(e, k, v), other) == entries_lookup(e, other),
{
    lemma_key_index(e, k);
    lemma_key_index(e, other);
    let e2 = entries_insert(e, k, v);
    lemma_key_index(e2, other);
    let i = key_index(e, other);
    if i >= 0 {
        assert forall|j: int| 0 <= j < i implies e2[j].0 != other by {}
        lemma_key_index_at(e2, other, i);
    } else {
        assert forall|j: int| 0 <= j < e2.len() implies e2[j].0 != other by {
            if j < e.len() {
            }
        }
    }
}

/// Removing a key from a map whose keys are distinct makes its lookup
/// empty.
pub proof fn lemma_remove_then_lookup<V>(e: Seq<(Seq<char>, V)>, k: Seq<char>)
    requires
        keys_unique(e),
    ensures
        entries_lookup(entries_remove(e, k), k) is None,
{
    lemma_key_index(e, k);
    let i = key_index(e, k);
    let e2 = entries_remove(e, k);
    lemma_key_index(e2, k);
    if i >= 0 {
        assert forall|j: int| 0 <= j < e2.len() implies e2[j].0 != k by {
            if j < i {
            } else {
                assert(e2[j] == e[j + 1]);
            }
        }
    }
}

/// Inserting keeps the keys of a map distinct.
pub proof fn lemma_insert_keeps_unique<V>(e: Seq<(Seq<char>, V)>, k: Seq<char>, v: V)
    requires
        keys_unique(e),
    ensures
        keys_unique(entries_insert(e, k, v)),
{
    lemma_key_index(e, k);
}

} // verus!
