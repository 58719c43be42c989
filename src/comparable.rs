//! Matching two versions of a list by stable identity.
use crate::entry_map::{
    change_entries, change_map_insert, change_map_new, insert_all, keys_unique, lemma_index_of,
    lemma_index_of_unique,
    lookup, text_entries,
    text_map_get, text_map_get_index, text_map_len,
};
use indexmap::IndexMap;
use vstd::multiset::Multiset;
use vstd::prelude::*;

verus! {

/// A value with a stable integer identity.
pub trait Id {
    spec fn spec_id(&self) -> i64;

    fn get_id(&self) -> (r: i64)
        ensures
            r == self.spec_id(),
    ;
}

/// Result of matching two lists: the elements found only in the first, those
/// found only in the second, and the matched pairs.
pub struct Comparison<A, B> {
    pub a: Vec<A>,
    pub b: Vec<B>,
    pub common: Vec<(A, B)>,
}

/// Position of the first element of `b` with identity `id`.
pub open spec fn first_with_id<B: Id>(b: Seq<B>, id: i64) -> Option<int>
    decreases b.len(),
{
    if b.len() == 0 {
        None
    } else if b[0].spec_id() == id {
        Some(0)
    } else {
        match first_with_id(b.drop_first(), id) {
            Some(j) => Some(j + 1),
            None => None,
        }
    }
}

/// Matching of `a` against `b`, taking the elements of `a` in order: each is
/// paired with the first element left in `b` that has its identity, which then
/// leaves `b`; one without a partner is kept apart. Returns the unmatched part
/// of `a`, what is left of `b`, and the pairs, each in order.
pub open spec fn pairing<A: Id, B: Id>(a: Seq<A>, b: Seq<B>) -> (Seq<A>, Seq<B>, Seq<(A, B)>)
    decreases a.len(),
{
    if a.len() == 0 {
        (Seq::empty(), b, Seq::empty())
    } else {
        let prev = pairing(a.drop_last(), b);
        let x = a.last();
        match first_with_id(prev.1, x.spec_id()) {
            None => (prev.0.push(x), prev.1, prev.2),
            Some(j) => (prev.0, prev.1.remove(j), prev.2.push((x, prev.1[j]))),
        }
    }
}

proof fn lemma_first_with_id<B: Id>(b: Seq<B>, id: i64)
    ensures
        match first_with_id(b, id) {
            Some(j) => 0 <= j < b.len() && b[j].spec_id() == id && forall|k: int|
                0 <= k < j ==> b[k].spec_id() != id,
            None => forall|k: int| 0 <= k < b.len() ==> b[k].spec_id() != id,
        },
    decreases b.len(),
{
    if b.len() > 0 {
        lemma_first_with_id(b.drop_first(), id);
        assert forall|k: int| 1 <= k < b.len() implies b[k] == b.drop_first()[k - 1] by {}
    }
}

fn find_id<B: Id>(b: &Vec<B>, id: i64) -> (r: Option<usize>)
    ensures
        match r {
            Some(j) => j < b@.len() && first_with_id(b@, id) == Some(j as int),
            None => first_with_id(b@, id) is None,
        },
{
    let mut j: usize = 0;
    while j < b.len()
        invariant
            j <= b.len(),
            forall|k: int| 0 <= k < j ==> b@[k].spec_id() != id,
        decreases b.len() - j,
    {
        if b[j].get_id() == id {
            proof {
                lemma_first_with_id(b@, id);
            }
            return Some(j);
        }
        j = j + 1;
    }
    proof {
        lemma_first_with_id(b@, id);
    }
    None
}

/// Matches the elements of `a` and `b` by identity. Each element of `a`, in
/// order, is paired with the first remaining element of `b` with the same
/// identity; elements without a partner end up in `a` or `b` of the result.
pub fn compare<A: Id, B: Id>(a: Vec<A>, b: Vec<B>) -> (r: Comparison<A, B>)
    ensures
        (r.a@, r.b@, r.common@) == pairing(a@, b@),
{
    let ghost a0 = a@;
    let ghost b0 = b@;
    let mut b = b;
    let mut only_a: Vec<A> = Vec::new();
    let mut common: Vec<(A, B)> = Vec::new();
    for element_a in iter: a
        invariant
            iter.seq() == a0,
            (only_a@, b@, common@) == pairing(a0.subrange(0, iter.index() as int), b0),
    {
        let ghost done = a0.subrange(0, iter.index() as int);
        let ghost next = a0.subrange(0, iter.index() + 1);
        assert(next.drop_last() == done);
        assert(next.last() == element_a);
        let id_a = element_a.get_id();
        match find_id(&b, id_a) {
            None => only_a.push(element_a),
            Some(pos) => {
                let element_b = b.remove(pos);
                common.push((element_a, element_b));
            },
        }
    }
    assert(a0.subrange(0, a0.len() as int) == a0);
    Comparison { a: only_a, b, common }
}

/// Pairs of elements of `a` and `b` with the same identity, as `compare`
/// matches them.
pub fn merge<A: Id, B: Id>(a: Vec<A>, b: Vec<B>) -> (r: Vec<(A, B)>)
    ensures
        r@ == pairing(a@, b@).2,
{
    compare(a, b).common
}

/// The elements of the matched pairs that came from the first list.
pub open spec fn firsts<A, B>(c: Seq<(A, B)>) -> Seq<A> {
    c.map_values(|p: (A, B)| p.0)
}

/// The elements of the matched pairs that came from the second list.
pub open spec fn seconds<A, B>(c: Seq<(A, B)>) -> Seq<B> {
    c.map_values(|p: (A, B)| p.1)
}

/// No two elements share an identity.
pub open spec fn ids_unique<A: Id>(s: Seq<A>) -> bool {
    forall|i: int, j: int| 0 <= i < j < s.len() ==> s[i].spec_id() != s[j].spec_id()
}

/// Matching by identity partitions both inputs: every element of `a` is either
/// unmatched or the first half of exactly one pair, every element of `b` is either
/// left over or the second half of one pair, the two halves of a pair share their
/// identity, and no unmatched element of `a` has the identity of a leftover
/// element of `b`.
pub proof fn lemma_pairing_partitions<A: Id, B: Id>(a: Seq<A>, b: Seq<B>)
    ensures
        pairing(a, b).0.to_multiset().add(firsts(pairing(a, b).2).to_multiset())
            == a.to_multiset(),
        pairing(a, b).1.to_multiset().add(seconds(pairing(a, b).2).to_multiset())
            == b.to_multiset(),
        forall|i: int|
            0 <= i < pairing(a, b).2.len() ==> (#[trigger] pairing(a, b).2[i]).0.spec_id()
                == pairing(a, b).2[i].1.spec_id(),
        forall|i: int, j: int|
            0 <= i < pairing(a, b).0.len() && 0 <= j < pairing(a, b).1.len() ==> (
            #[trigger] pairing(a, b).0[i]).spec_id() != (#[trigger] pairing(a, b).1[j]).spec_id(),
    decreases a.len(),
{
    broadcast use vstd::seq_lib::group_to_multiset_ensures;
    broadcast use vstd::multiset::group_multiset_axioms;

    if a.len() == 0 {
        assert(firsts(Seq::<(A, B)>::empty()) =~= Seq::<A>::empty());
        assert(seconds(Seq::<(A, B)>::empty()) =~= Seq::<B>::empty());
        assert(a.to_multiset() =~= Multiset::empty());
        assert(Seq::<A>::empty().to_multiset().add(Seq::<A>::empty().to_multiset())
            =~= Multiset::empty());
        assert(b.to_multiset().add(Seq::<B>::empty().to_multiset()) =~= b.to_multiset());
    } else {
        let prev = pairing(a.drop_last(), b);
        let x = a.last();
        lemma_pairing_partitions(a.drop_last(), b);
        lemma_first_with_id(prev.1, x.spec_id());
        assert(a.drop_last().push(x) == a);
        match first_with_id(prev.1, x.spec_id()) {
            None => {
                assert(pairing(a, b) == (prev.0.push(x), prev.1, prev.2));
                assert(prev.0.push(x).to_multiset().add(firsts(prev.2).to_multiset())
                    =~= a.to_multiset());
            },
            Some(j) => {
                let y = prev.1[j];
                let c = prev.2.push((x, y));
                assert(pairing(a, b) == (prev.0, prev.1.remove(j), c));
                assert(firsts(c) =~= firsts(prev.2).push(x));
                assert(seconds(c) =~= seconds(prev.2).push(y));
                assert(prev.0.to_multiset().add(firsts(c).to_multiset()) =~= a.to_multiset());
                assert(prev.1.remove(j).to_multiset().add(seconds(c).to_multiset())
                    =~= b.to_multiset());
                assert forall|i: int| 0 <= i < c.len() implies (#[trigger] c[i]).0.spec_id()
                    == c[i].1.spec_id() by {
                    if i < prev.2.len() {
                        assert(c[i] == prev.2[i]);
                    }
                }
                assert forall|i: int, k: int|
                    0 <= i < prev.0.len() && 0 <= k < prev.1.remove(j).len() implies (
                    #[trigger] prev.0[i]).spec_id() != (
                    #[trigger] prev.1.remove(j)[k]).spec_id() by {
                    if k < j {
                        assert(prev.1.remove(j)[k] == prev.1[k]);
                    } else {
                        assert(prev.1.remove(j)[k] == prev.1[k + 1]);
                    }
                }
            },
        }
    }
}

/// Some element of `s` has identity `id`.
pub open spec fn has_id<A: Id>(s: Seq<A>, id: i64) -> bool {
    exists|k: int| 0 <= k < s.len() && (#[trigger] s[k]).spec_id() == id
}

proof fn lemma_pairing_origins<A: Id, B: Id>(a: Seq<A>, b: Seq<B>)
    requires
        ids_unique(a),
        ids_unique(b),
    ensures
        forall|i: int|
            0 <= i < pairing(a, b).0.len() ==> has_id(a, (#[trigger] pairing(a, b).0[i]).spec_id()),
        forall|i: int|
            0 <= i < pairing(a, b).2.len() ==> has_id(
                a,
                (#[trigger] pairing(a, b).2[i]).0.spec_id(),
            ),
        ids_unique(pairing(a, b).1),
        forall|i: int, j: int|
            0 <= i < pairing(a, b).0.len() && 0 <= j < pairing(a, b).2.len() ==> (
            #[trigger] pairing(a, b).0[i]).spec_id() != (#[trigger] pairing(a, b).2[j]).0.spec_id(),
        forall|i: int, j: int|
            0 <= i < pairing(a, b).1.len() && 0 <= j < pairing(a, b).2.len() ==> (
            #[trigger] pairing(a, b).1[i]).spec_id() != (#[trigger] pairing(a, b).2[j]).1.spec_id(),
    decreases a.len(),
{
    if a.len() > 0 {
        let a0 = a.drop_last();
        let prev = pairing(a0, b);
        let x = a.last();
        let n = a.len() - 1;
        assert(ids_unique(a0)) by {
            assert forall|i: int, j: int| 0 <= i < j < a0.len() implies a0[i].spec_id()
                != a0[j].spec_id() by {
                assert(a0[i] == a[i] && a0[j] == a[j]);
            }
        }
        lemma_pairing_origins(a0, b);
        lemma_first_with_id(prev.1, x.spec_id());
        assert(a[n] == x);
        assert forall|id: i64| has_id(a0, id) implies has_id(a, id) && id != x.spec_id() by {
            let k = choose|k: int| 0 <= k < a0.len() && (#[trigger] a0[k]).spec_id() == id;
            assert(a[k] == a0[k]);
        }
        assert(has_id(a, x.spec_id()));
        match first_with_id(prev.1, x.spec_id()) {
            None => {
                let oa = prev.0.push(x);
                assert(pairing(a, b) == (oa, prev.1, prev.2));
                assert forall|i: int| 0 <= i < oa.len() implies has_id(
                    a,
                    (#[trigger] oa[i]).spec_id(),
                ) by {
                    if i < prev.0.len() {
                        assert(oa[i] == prev.0[i]);
                    }
                }
                assert forall|i: int, j: int|
                    0 <= i < oa.len() && 0 <= j < prev.2.len() implies (#[trigger] oa[i]).spec_id()
                    != (#[trigger] prev.2[j]).0.spec_id() by {
                    if i < prev.0.len() {
                        assert(oa[i] == prev.0[i]);
                    }
                }
            },
            Some(j) => {
                let y = prev.1[j];
                let ob = prev.1.remove(j);
                let c = prev.2.push((x, y));
                assert(pairing(a, b) == (prev.0, ob, c));
                assert forall|i: int| 0 <= i < ob.len() implies ob[i] == (if i < j {
                    prev.1[i]
                } else {
                    prev.1[i + 1]
                }) by {}
                assert forall|i: int| 0 <= i < c.len() implies has_id(
                    a,
                    (#[trigger] c[i]).0.spec_id(),
                ) by {
                    if i < prev.2.len() {
                        assert(c[i] == prev.2[i]);
                    }
                }
                assert forall|i: int, k: int|
                    0 <= i < prev.0.len() && 0 <= k < c.len() implies (
                    #[trigger] prev.0[i]).spec_id() != (#[trigger] c[k]).0.spec_id() by {
                    if k < prev.2.len() {
                        assert(c[k] == prev.2[k]);
                    }
                }
                assert forall|i: int, k: int|
                    0 <= i < ob.len() && 0 <= k < c.len() implies (#[trigger] ob[i]).spec_id()
                    != (#[trigger] c[k]).1.spec_id() by {
                    if k < prev.2.len() {
                        assert(c[k] == prev.2[k]);
                    }
                }
            },
        }
    }
}

/// When neither list repeats an identity, no identity is found in more than one
/// part of the matching: an unmatched element of `a` shares its identity with no
/// pair, nor does a leftover element of `b`.
pub proof fn lemma_pairing_disjoint<A: Id, B: Id>(a: Seq<A>, b: Seq<B>)
    requires
        ids_unique(a),
        ids_unique(b),
    ensures
        forall|i: int, j: int|
            0 <= i < pairing(a, b).0.len() && 0 <= j < pairing(a, b).2.len() ==> (
            #[trigger] pairing(a, b).0[i]).spec_id() != (#[trigger] pairing(a, b).2[j]).0.spec_id(),
        forall|i: int, j: int|
            0 <= i < pairing(a, b).1.len() && 0 <= j < pairing(a, b).2.len() ==> (
            #[trigger] pairing(a, b).1[i]).spec_id() != (#[trigger] pairing(a, b).2[j]).1.spec_id(),
        forall|i: int, j: int|
            0 <= i < pairing(a, b).0.len() && 0 <= j < pairing(a, b).1.len() ==> (
            #[trigger] pairing(a, b).0[i]).spec_id() != (#[trigger] pairing(a, b).1[j]).spec_id(),
{
    lemma_pairing_origins(a, b);
    lemma_pairing_partitions(a, b);
}

/// How the value under one key differs between an old and a new map.
pub enum ModuleEntry {
    Added(String),
    Removed(String),
    /// The old value, then the new one.
    Changed(String, String),
}

/// A change as character sequences.
pub enum Change {
    Added(Seq<char>),
    Removed(Seq<char>),
    Changed(Seq<char>, Seq<char>),
}

impl View for ModuleEntry {
    type V = Change;

    open spec fn view(&self) -> Change {
        match self {
            ModuleEntry::Added(v) => Change::Added(v@),
            ModuleEntry::Removed(v) => Change::Removed(v@),
            ModuleEntry::Changed(o, n) => Change::Changed(o@, n@),
        }
    }
}

/// Changes for the keys of `new`, in its order: `Added` for a key absent from
/// `old`, `Changed` for one whose value differs; an equal value gives nothing.
pub open spec fn added_or_changed(
    old: Seq<(Seq<char>, Seq<char>)>,
    new: Seq<(Seq<char>, Seq<char>)>,
) -> Seq<(Seq<char>, Change)>
    decreases new.len(),
{
    if new.len() == 0 {
        Seq::empty()
    } else {
        let prev = added_or_changed(old, new.drop_last());
        let (k, v) = new.last();
        match lookup(old, k) {
            None => prev.push((k, Change::Added(v))),
            Some(ov) => if ov != v {
                prev.push((k, Change::Changed(ov, v)))
            } else {
                prev
            },
        }
    }
}

/// `Removed` for each key of `old`, in its order, that `new` lacks.
pub open spec fn removed(
    old: Seq<(Seq<char>, Seq<char>)>,
    new: Seq<(Seq<char>, Seq<char>)>,
) -> Seq<(Seq<char>, Change)>
    decreases old.len(),
{
    if old.len() == 0 {
        Seq::empty()
    } else {
        let prev = removed(old.drop_last(), new);
        let (k, ov) = old.last();
        if lookup(new, k) is None {
            prev.push((k, Change::Removed(ov)))
        } else {
            prev
        }
    }
}

/// All changes from `old` to `new`: those of the new keys, then the removals.
pub open spec fn entry_changes(
    old: Seq<(Seq<char>, Seq<char>)>,
    new: Seq<(Seq<char>, Seq<char>)>,
) -> Seq<(Seq<char>, Change)> {
    added_or_changed(old, new) + removed(old, new)
}

/// Compares two maps key by key. The result holds the changes of
/// `entry_changes`, inserted in that order; with unique keys, as in any map,
/// it holds exactly those changes.
pub fn diff_module_entries(old: IndexMap<String, String>, new: IndexMap<String, String>) -> (r:
    IndexMap<String, ModuleEntry>)
    ensures
        change_entries(r) == insert_all(Seq::empty(), entry_changes(text_entries(old), text_entries(new))),
        keys_unique(text_entries(old)) && keys_unique(text_entries(new)) ==> change_entries(r)
            == entry_changes(text_entries(old), text_entries(new)),
{
    let ghost o = text_entries(old);
    let ghost nw = text_entries(new);
    let mut mapped = change_map_new();
    let n = text_map_len(&new);
    let mut i: usize = 0;
    while i < n
        invariant
            n == nw.len(),
            i <= n,
            o == text_entries(old),
            nw == text_entries(new),
            change_entries(mapped) == insert_all(Seq::empty(), added_or_changed(o, nw.subrange(0, i as int))),
        decreases n - i,
    {
        let (k, v) = text_map_get_index(&new, i);
        let ghost prev = added_or_changed(o, nw.subrange(0, i as int));
        assert(nw.subrange(0, i + 1).drop_last() == nw.subrange(0, i as int));
        assert(nw.subrange(0, i + 1).last() == nw[i as int]);
        match text_map_get(&old, k) {
            None => {
                change_map_insert(&mut mapped, k.clone(), ModuleEntry::Added(v.clone()));
                assert(prev.push((k@, Change::Added(v@))).drop_last() == prev);
            },
            Some(ov) => {
                if !ov.eq(v) {
                    change_map_insert(&mut mapped, k.clone(), ModuleEntry::Changed(ov.clone(), v.clone()));
                    assert(prev.push((k@, Change::Changed(ov@, v@))).drop_last() == prev);
                }
            },
        }
        i = i + 1;
    }
    assert(nw.subrange(0, n as int) == nw);
    let ghost head = added_or_changed(o, nw);
    let m = text_map_len(&old);
    let mut j: usize = 0;
    while j < m
        invariant
            m == o.len(),
            j <= m,
            o == text_entries(old),
            nw == text_entries(new),
            head == added_or_changed(o, nw),
            change_entries(mapped) == insert_all(Seq::empty(), head + removed(o.subrange(0, j as int), nw)),
        decreases m - j,
    {
        let (k, ov) = text_map_get_index(&old, j);
        let ghost prev = head + removed(o.subrange(0, j as int), nw);
        assert(o.subrange(0, j + 1).drop_last() == o.subrange(0, j as int));
        assert(o.subrange(0, j + 1).last() == o[j as int]);
        if text_map_get(&new, k).is_none() {
            change_map_insert(&mut mapped, k.clone(), ModuleEntry::Removed(ov.clone()));
            assert(head + removed(o.subrange(0, j + 1), nw) == prev.push((k@, Change::Removed(ov@))));
            assert(prev.push((k@, Change::Removed(ov@))).drop_last() == prev);
        } else {
            assert(head + removed(o.subrange(0, j + 1), nw) == prev);
        }
        j = j + 1;
    }
    assert(o.subrange(0, m as int) == o);
    proof {
        if keys_unique(o) && keys_unique(nw) {
            lemma_diff_exact(o, nw);
        }
    }
    mapped
}

proof fn lemma_no_changes_against_self(m: Seq<(Seq<char>, Seq<char>)>, n: int)
    requires
        keys_unique(m),
        0 <= n <= m.len(),
    ensures
        added_or_changed(m, m.subrange(0, n)) == Seq::<(Seq<char>, Change)>::empty(),
        removed(m.subrange(0, n), m) == Seq::<(Seq<char>, Change)>::empty(),
    decreases n,
{
    if n > 0 {
        lemma_no_changes_against_self(m, n - 1);
        assert(m.subrange(0, n).drop_last() == m.subrange(0, n - 1));
        assert(m.subrange(0, n).last() == m[n - 1]);
        lemma_index_of_unique(m, n - 1);
    }
}

/// A map compared with itself has no changes.
pub proof fn lemma_diff_of_equal_maps(m: Seq<(Seq<char>, Seq<char>)>)
    requires
        keys_unique(m),
    ensures
        insert_all(Seq::empty(), entry_changes(m, m)) == Seq::<(Seq<char>, Change)>::empty(),
{
    lemma_no_changes_against_self(m, m.len() as int);
    assert(m.subrange(0, m.len() as int) == m);
    assert(entry_changes(m, m) == Seq::<(Seq<char>, Change)>::empty());
}

/// Some pair of `s` has key `k`.
pub open spec fn has_key<V>(s: Seq<(Seq<char>, V)>, k: Seq<char>) -> bool {
    exists|j: int| 0 <= j < s.len() && (#[trigger] s[j]).0 == k
}

proof fn lemma_unique_last<V>(s: Seq<(Seq<char>, V)>)
    requires
        keys_unique(s),
        s.len() > 0,
    ensures
        keys_unique(s.drop_last()),
        !has_key(s.drop_last(), s.last().0),
{
    let p = s.drop_last();
    assert forall|i: int, j: int| 0 <= i < j < p.len() implies p[i].0 != p[j].0 by {
        assert(p[i] == s[i] && p[j] == s[j]);
    }
    if has_key(p, s.last().0) {
        let j = choose|j: int| 0 <= j < p.len() && (#[trigger] p[j]).0 == s.last().0;
        assert(p[j] == s[j]);
    }
}

proof fn lemma_push_unique<V>(s: Seq<(Seq<char>, V)>, k: Seq<char>, v: V)
    requires
        keys_unique(s),
        !has_key(s, k),
    ensures
        keys_unique(s.push((k, v))),
        forall|q: Seq<char>| has_key(s.push((k, v)), q) <==> (has_key(s, q) || q == k),
{
    let t = s.push((k, v));
    assert forall|i: int, j: int| 0 <= i < j < t.len() implies t[i].0 != t[j].0 by {
        if j == s.len() {
            assert(t[i] == s[i]);
        } else {
            assert(t[i] == s[i] && t[j] == s[j]);
        }
    }
    assert forall|q: Seq<char>| has_key(t, q) implies (has_key(s, q) || q == k) by {
        let j = choose|j: int| 0 <= j < t.len() && (#[trigger] t[j]).0 == q;
        if j < s.len() {
            assert(t[j] == s[j]);
        }
    }
    assert forall|q: Seq<char>| has_key(s, q) implies has_key(t, q) by {
        let j = choose|j: int| 0 <= j < s.len() && (#[trigger] s[j]).0 == q;
        assert(t[j] == s[j]);
    }
    assert(t[s.len() as int].0 == k);
}

proof fn lemma_insert_all_unique<V>(l: Seq<(Seq<char>, V)>)
    requires
        keys_unique(l),
    ensures
        insert_all(Seq::empty(), l) == l,
    decreases l.len(),
{
    if l.len() > 0 {
        lemma_unique_last(l);
        lemma_insert_all_unique(l.drop_last());
        lemma_index_of(l.drop_last(), l.last().0);
        assert(l.drop_last().push(l.last()) == l);
    }
}

proof fn lemma_added_or_changed_keys(o: Seq<(Seq<char>, Seq<char>)>, n: Seq<(Seq<char>, Seq<char>)>)
    requires
        keys_unique(n),
    ensures
        keys_unique(added_or_changed(o, n)),
        forall|q: Seq<char>| has_key(added_or_changed(o, n), q) ==> has_key(n, q),
    decreases n.len(),
{
    if n.len() > 0 {
        let p = n.drop_last();
        lemma_unique_last(n);
        lemma_added_or_changed_keys(o, p);
        let prev = added_or_changed(o, p);
        let (k, v) = n.last();
        assert(!has_key(prev, k));
        assert forall|q: Seq<char>| has_key(p, q) implies has_key(n, q) by {
            let j = choose|j: int| 0 <= j < p.len() && (#[trigger] p[j]).0 == q;
            assert(n[j] == p[j]);
        }
        assert(n[n.len() - 1].0 == k);
        match lookup(o, k) {
            None => lemma_push_unique(prev, k, Change::Added(v)),
            Some(ov) => if ov != v {
                lemma_push_unique(prev, k, Change::Changed(ov, v));
            },
        }
    }
}

proof fn lemma_removed_keys(o: Seq<(Seq<char>, Seq<char>)>, n: Seq<(Seq<char>, Seq<char>)>)
    requires
        keys_unique(o),
    ensures
        keys_unique(removed(o, n)),
        forall|q: Seq<char>| has_key(removed(o, n), q) ==> lookup(n, q) is None,
    decreases o.len(),
{
    if o.len() > 0 {
        let p = o.drop_last();
        lemma_unique_last(o);
        lemma_removed_keys(p, n);
        let prev = removed(p, n);
        let (k, ov) = o.last();
        if lookup(n, k) is None {
            assert forall|q: Seq<char>| has_key(prev, q) implies has_key(p, q) by {
                lemma_removed_origin(p, n, q);
            }
            assert(!has_key(prev, k));
            lemma_push_unique(prev, k, Change::Removed(ov));
            assert(removed(o, n) == prev.push((k, Change::Removed(ov))));
            assert forall|q: Seq<char>| has_key(removed(o, n), q) implies lookup(n, q) is None by {
                if q != k {
                    assert(has_key(prev, q));
                }
            }
        } else {
            assert(removed(o, n) == prev);
        }
    }
}

proof fn lemma_removed_origin(o: Seq<(Seq<char>, Seq<char>)>, n: Seq<(Seq<char>, Seq<char>)>, q: Seq<char>)
    ensures
        has_key(removed(o, n), q) ==> has_key(o, q),
    decreases o.len(),
{
    if o.len() > 0 {
        let p = o.drop_last();
        lemma_removed_origin(p, n, q);
        let prev = removed(p, n);
        let (k, ov) = o.last();
        if has_key(removed(o, n), q) {
            if has_key(prev, q) {
                let j = choose|j: int| 0 <= j < p.len() && (#[trigger] p[j]).0 == q;
                assert(o[j] == p[j]);
            } else {
                assert(lookup(n, k) is None);
                let r = prev.push((k, Change::Removed(ov)));
                let j = choose|j: int| 0 <= j < r.len() && (#[trigger] r[j]).0 == q;
                assert(j == prev.len());
                assert(o[o.len() - 1].0 == q);
            }
        }
    }
}

/// With unique keys on both sides, as in any `IndexMap`, the map of changes holds
/// exactly `entry_changes`, in that order.
pub proof fn lemma_diff_exact(o: Seq<(Seq<char>, Seq<char>)>, n: Seq<(Seq<char>, Seq<char>)>)
    requires
        keys_unique(o),
        keys_unique(n),
    ensures
        insert_all(Seq::empty(), entry_changes(o, n)) == entry_changes(o, n),
{
    lemma_added_or_changed_keys(o, n);
    lemma_removed_keys(o, n);
    let a = added_or_changed(o, n);
    let r = removed(o, n);
    let l = a + r;
    assert forall|i: int, j: int| 0 <= i < j < l.len() implies l[i].0 != l[j].0 by {
        if j < a.len() {
            assert(l[i] == a[i] && l[j] == a[j]);
        } else if i >= a.len() {
            assert(l[i] == r[i - a.len()] && l[j] == r[j - a.len()]);
        } else {
            assert(l[i] == a[i] && l[j] == r[j - a.len()]);
            assert(has_key(a, a[i].0));
            assert(has_key(r, r[j - a.len()].0));
            if a[i].0 == r[j - a.len()].0 {
                assert(has_key(n, a[i].0));
                let m = choose|m: int| 0 <= m < n.len() && (#[trigger] n[m]).0 == a[i].0;
                lemma_index_of(n, a[i].0);
            }
        }
    }
    lemma_insert_all_unique(l);
}

} // verus!
