//! Insertion-ordered string maps, held in `indexmap::IndexMap`.
//!
//! The contents of a map are modelled as the sequence of its key/value pairs in
//! insertion order. Lookups speak of the first pair with a given key; in an
//! `IndexMap` keys are unique, so that pair is the only one.
use crate::accounts::{CourseMapping, CourseView};
use crate::comparable::{Change, ModuleEntry};
use indexmap::IndexMap;
use vstd::prelude::*;

verus! {

#[verifier::external_type_specification]
#[verifier::external_body]
#[verifier::reject_recursive_types(K)]
#[verifier::reject_recursive_types(V)]
#[verifier::reject_recursive_types(S)]
pub struct ExIndexMap<K, V, S>(IndexMap<K, V, S>);

/// The pairs of a text map, in insertion order, as character sequences.
pub uninterp spec fn text_entries(m: IndexMap<String, String>) -> Seq<(Seq<char>, Seq<char>)>;

/// Index of the first pair whose key is `k`, if any.
pub open spec fn index_of<V>(s: Seq<(Seq<char>, V)>, k: Seq<char>) -> Option<int>
    decreases s.len(),
{
    if s.len() == 0 {
        None
    } else if s[0].0 == k {
        Some(0)
    } else {
        match index_of(s.drop_first(), k) {
            Some(i) => Some(i + 1),
            None => None,
        }
    }
}

/// Value stored under `k`, if any.
pub open spec fn lookup<V>(s: Seq<(Seq<char>, V)>, k: Seq<char>) -> Option<V> {
    match index_of(s, k) {
        Some(i) => Some(s[i].1),
        None => None,
    }
}

/// Pairs after inserting `(k, v)`: an existing key keeps its place and takes the
/// new value, a new key goes last.
pub open spec fn insert_pair<V>(s: Seq<(Seq<char>, V)>, k: Seq<char>, v: V) -> Seq<(Seq<char>, V)> {
    match index_of(s, k) {
        Some(i) => s.update(i, (k, v)),
        None => s.push((k, v)),
    }
}

/// No key occurs twice.
pub open spec fn keys_unique<V>(s: Seq<(Seq<char>, V)>) -> bool {
    forall|i: int, j: int| 0 <= i < j < s.len() ==> s[i].0 != s[j].0
}

/// Relies on `IndexMap::new`: the new map is empty.
#[verifier::external_body]
pub(crate) fn text_map_new() -> (r: IndexMap<String, String>)
    ensures
        text_entries(r) == Seq::<(Seq<char>, Seq<char>)>::empty(),
{
    IndexMap::new()
}

/// Relies on `IndexMap::len`: the number of pairs.
#[verifier::external_body]
pub(crate) fn text_map_len(m: &IndexMap<String, String>) -> (r: usize)
    ensures
        r == text_entries(*m).len(),
{
    m.len()
}

/// Relies on `IndexMap::get_index`: the pair at position `i`.
#[verifier::external_body]
pub(crate) fn text_map_get_index(m: &IndexMap<String, String>, i: usize) -> (r: (&String, &String))
    requires
        i < text_entries(*m).len(),
    ensures
        (r.0@, r.1@) == text_entries(*m)[i as int],
{
    m.get_index(i).unwrap()
}

/// Relies on `IndexMap::get`: the value stored under `k`.
#[verifier::external_body]
pub(crate) fn text_map_get<'a>(m: &'a IndexMap<String, String>, k: &String) -> (r: Option<&'a String>)
    ensures
        match r {
            Some(v) => lookup(text_entries(*m), k@) == Some(v@),
            None => lookup(text_entries(*m), k@) is None,
        },
{
    m.get(k)
}

/// Relies on `IndexMap::insert`: an existing key keeps its place and takes the
/// new value, a new key goes last.
#[verifier::external_body]
pub(crate) fn text_map_insert(m: &mut IndexMap<String, String>, k: String, v: String)
    ensures
        text_entries(*final(m)) == insert_pair(text_entries(*old(m)), k@, v@),
{
    m.insert(k, v);
}

/// The pairs of a map of changes, in insertion order, with each change as its view.
pub uninterp spec fn change_entries(m: IndexMap<String, ModuleEntry>) -> Seq<(Seq<char>, Change)>;

/// Relies on `IndexMap::new`: the new map is empty.
#[verifier::external_body]
pub(crate) fn change_map_new() -> (r: IndexMap<String, ModuleEntry>)
    ensures
        change_entries(r) == Seq::<(Seq<char>, Change)>::empty(),
{
    IndexMap::new()
}

/// Relies on `IndexMap::len`: the number of pairs.
#[verifier::external_body]
pub(crate) fn change_map_len(m: &IndexMap<String, ModuleEntry>) -> (r: usize)
    ensures
        r == change_entries(*m).len(),
{
    m.len()
}

/// Relies on `IndexMap::get_index`: the pair at position `i`.
#[verifier::external_body]
pub(crate) fn change_map_get_index(m: &IndexMap<String, ModuleEntry>, i: usize) -> (r: (&String, &ModuleEntry))
    requires
        i < change_entries(*m).len(),
    ensures
        (r.0@, r.1@) == change_entries(*m)[i as int],
{
    m.get_index(i).unwrap()
}

/// Relies on `IndexMap::insert`: an existing key keeps its place and takes the
/// new value, a new key goes last.
#[verifier::external_body]
pub(crate) fn change_map_insert(m: &mut IndexMap<String, ModuleEntry>, k: String, v: ModuleEntry)
    ensures
        change_entries(*final(m)) == insert_pair(change_entries(*old(m)), k@, v@),
{
    m.insert(k, v);
}

/// Pairs after inserting each pair of `l` in turn into `s`.
pub open spec fn insert_all<V>(s: Seq<(Seq<char>, V)>, l: Seq<(Seq<char>, V)>) -> Seq<(Seq<char>, V)>
    decreases l.len(),
{
    if l.len() == 0 {
        s
    } else {
        insert_pair(insert_all(s, l.drop_last()), l.last().0, l.last().1)
    }
}

/// With unique keys, the key of each pair leads back to that pair.
pub proof fn lemma_index_of_unique<V>(s: Seq<(Seq<char>, V)>, i: int)
    requires
        keys_unique(s),
        0 <= i < s.len(),
    ensures
        index_of(s, s[i].0) == Some(i),
    decreases s.len(),
{
    if i > 0 {
        let t = s.drop_first();
        assert(keys_unique(t)) by {
            assert forall|a: int, b: int| 0 <= a < b < t.len() implies t[a].0 != t[b].0 by {
                assert(t[a] == s[a + 1] && t[b] == s[b + 1]);
            }
        }
        assert(t[i - 1] == s[i]);
        lemma_index_of_unique(t, i - 1);
        assert(s[0].0 != s[i].0);
    }
}

/// The rows of a course mapping, in insertion order, as plain values.
pub uninterp spec fn course_entries(m: IndexMap<String, CourseMapping>) -> Seq<(Seq<char>, CourseView)>;

/// Relies on `IndexMap::new`: the new map is empty.
#[verifier::external_body]
pub(crate) fn course_map_new() -> (r: IndexMap<String, CourseMapping>)
    ensures
        course_entries(r) == Seq::<(Seq<char>, CourseView)>::empty(),
{
    IndexMap::new()
}

/// Relies on `IndexMap::len`: the number of rows.
#[verifier::external_body]
pub(crate) fn course_map_len(m: &IndexMap<String, CourseMapping>) -> (r: usize)
    ensures
        r == course_entries(*m).len(),
{
    m.len()
}

/// Relies on `IndexMap::get_index`: the row at position `i`.
#[verifier::external_body]
pub(crate) fn course_map_get_index(m: &IndexMap<String, CourseMapping>, i: usize) -> (r: (&String, &CourseMapping))
    requires
        i < course_entries(*m).len(),
    ensures
        (r.0@, r.1@) == course_entries(*m)[i as int],
{
    m.get_index(i).unwrap()
}

/// Relies on `IndexMap::get`: the row stored under `k`.
#[verifier::external_body]
pub(crate) fn course_map_get<'a>(m: &'a IndexMap<String, CourseMapping>, k: &str) -> (r: Option<&'a CourseMapping>)
    ensures
        match r {
            Some(v) => lookup(course_entries(*m), k@) == Some(v@),
            None => lookup(course_entries(*m), k@) is None,
        },
{
    m.get(k)
}

/// Relies on `IndexMap::insert`: an existing key keeps its place and takes the
/// new value, a new key goes last.
#[verifier::external_body]
pub(crate) fn course_map_insert(m: &mut IndexMap<String, CourseMapping>, k: String, v: CourseMapping)
    ensures
        course_entries(*final(m)) == insert_pair(course_entries(*old(m)), k@, v@),
{
    m.insert(k, v);
}

/// The first pair with a key is found at or before any position holding that key.
pub proof fn lemma_index_of_at_most<V>(s: Seq<(Seq<char>, V)>, i: int)
    requires
        0 <= i < s.len(),
    ensures
        index_of(s, s[i].0) matches Some(j) && 0 <= j <= i && s[j].0 == s[i].0,
    decreases s.len(),
{
    if i > 0 && s[0].0 != s[i].0 {
        assert(s.drop_first()[i - 1] == s[i]);
        lemma_index_of_at_most(s.drop_first(), i - 1);
    }
}

/// Where the first pair with key `k` stands, if any.
pub proof fn lemma_index_of<V>(s: Seq<(Seq<char>, V)>, k: Seq<char>)
    ensures
        match index_of(s, k) {
            Some(j) => 0 <= j < s.len() && s[j].0 == k && forall|m: int| 0 <= m < j ==> s[m].0 != k,
            None => forall|m: int| 0 <= m < s.len() ==> s[m].0 != k,
        },
    decreases s.len(),
{
    if s.len() > 0 {
        lemma_index_of(s.drop_first(), k);
        assert forall|m: int| 1 <= m < s.len() implies s[m] == s.drop_first()[m - 1] by {}
    }
}

/// A lookup after an insertion.
pub proof fn lemma_lookup_insert<V>(s: Seq<(Seq<char>, V)>, k: Seq<char>, v: V, q: Seq<char>)
    ensures
        lookup(insert_pair(s, k, v), q) == if q == k {
            Some(v)
        } else {
            lookup(s, q)
        },
{
    let t = insert_pair(s, k, v);
    lemma_index_of(s, k);
    lemma_index_of(s, q);
    lemma_index_of(t, q);
    match index_of(s, k) {
        Some(i) => {
            assert(t[i] == (k, v));
            assert forall|m: int| 0 <= m < s.len() && m != i implies t[m] == s[m] by {}
            assert forall|m: int| 0 <= m < s.len() implies t[m].0 == s[m].0 by {}
            if q == k {
                assert(index_of(t, q) == Some(i));
            } else {
                match index_of(s, q) {
                    Some(j) => {
                        assert(index_of(t, q) == Some(j));
                    },
                    None => {},
                }
            }
        },
        None => {
            assert(t[s.len() as int] == (k, v));
            assert forall|m: int| 0 <= m < s.len() implies t[m] == s[m] by {}
            if q == k {
                assert(index_of(t, q) == Some(s.len() as int));
            } else {
                match index_of(s, q) {
                    Some(j) => {
                        assert(index_of(t, q) == Some(j));
                    },
                    None => {},
                }
            }
        },
    }
}

/// A lookup after appending a pair.
pub proof fn lemma_lookup_push<V>(s: Seq<(Seq<char>, V)>, k: Seq<char>, v: V, q: Seq<char>)
    ensures
        lookup(s.push((k, v)), q) == if lookup(s, q) is Some {
            lookup(s, q)
        } else if q == k {
            Some(v)
        } else {
            None::<V>
        },
{
    let t = s.push((k, v));
    lemma_index_of(s, q);
    lemma_index_of(t, q);
    assert forall|m: int| 0 <= m < s.len() implies t[m] == s[m] by {}
    assert(t[s.len() as int] == (k, v));
    match index_of(s, q) {
        Some(j) => {
            assert(index_of(t, q) == Some(j));
        },
        None => {
            if q == k {
                assert(index_of(t, q) == Some(s.len() as int));
            }
        },
    }
}

} // verus!
