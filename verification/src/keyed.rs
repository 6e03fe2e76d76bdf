//! Maps seen as lists of entries.
//!
//! A collection keyed by `K` is taken apart into its entries, one pair for
//! each key, and built again by inserting pairs one after the other. The
//! functions here do that for the two maps of std; the predicates say what
//! the lists have to do with the maps.
use std::collections::{BTreeMap, HashMap};
use std::hash::{BuildHasher, Hash};
use vstd::prelude::*;
use vstd::std_specs::btree::{increasing_seq, key_obeys_cmp_spec};
use vstd::std_specs::hash::{builds_valid_hashers, obeys_key_model};
use vstd::std_specs::iter::IteratorSpec;

verus! {

/// `s` lists the entries of `m`: every pair in `s` is an entry of `m`, no key
/// comes twice, and every key of `m` comes.
pub open spec fn lists_entries<K, V>(m: Map<K, V>, s: Seq<(K, V)>) -> bool {
    &&& forall|i: int| 0 <= i < s.len() ==> m.contains_pair((#[trigger] s[i]).0, s[i].1)
    &&& forall|i: int, j: int| 0 <= i < j < s.len() ==> (#[trigger] s[i]).0 != (#[trigger] s[j]).0
    &&& forall|k: K| #[trigger]
        m.contains_key(k) ==> exists|i: int| 0 <= i < s.len() && (#[trigger] s[i]).0 == k
}

/// The map that inserting the pairs of `s` one after the other, first to
/// last, into an empty map gives. Where a key comes twice, the later pair
/// stays.
pub open spec fn entries_map<K, V>(s: Seq<(K, V)>) -> Map<K, V>
    decreases s.len(),
{
    if s.len() == 0 {
        Map::empty()
    } else {
        entries_map(s.drop_last()).insert(s.last().0, s.last().1)
    }
}

/// The keys of the pairs of `s`, in the order of `s`.
pub open spec fn keys_of<K, V>(s: Seq<(K, V)>) -> Seq<K> {
    Seq::new(s.len(), |i: int| s[i].0)
}

/// `s` lists the entries of `m` from the least key to the greatest.
pub open spec fn lists_entries_in_order<K, V>(m: Map<K, V>, s: Seq<(K, V)>) -> bool {
    lists_entries(m, s) && increasing_seq(keys_of(s))
}

/// The pairs that the references in `s` point to.
pub open spec fn pointees<'a, K, V>(s: Seq<(&'a K, &'a V)>) -> Seq<(K, V)> {
    Seq::new(s.len(), |i: int| (*s[i].0, *s[i].1))
}

/// The view of a `HashMap<K, _, S>` is the map it holds: `K` hashes and
/// compares as the model of hash maps asks, and `S` builds hashers that do.
pub open spec fn hashes<K, S>() -> bool {
    obeys_key_model::<K>() && builds_valid_hashers::<S>()
}

/// The view of a `BTreeMap<K, _>` is the map it holds: `K` is ordered as the
/// model of ordered maps asks.
pub open spec fn orders<K>() -> bool {
    key_obeys_cmp_spec::<K>()
}

/// A clone of a `K` is the `K` it was made from.
pub open spec fn clone_is_exact<K: Clone>() -> bool {
    forall|a: K, b: K| #[trigger] cloned(a, b) ==> b == a
}

/// `pre` holds of every value of `m`.
pub open spec fn all_values<K, T>(m: Map<K, T>, pre: spec_fn(T) -> bool) -> bool {
    forall|k: K| #[trigger] m.contains_key(k) ==> pre(m[k])
}

/// `r` has the keys of `m`, and under each key a value that `rel` relates to
/// the value that `m` has under it.
pub open spec fn values_related<K, T, U>(
    m: Map<K, T>,
    r: Map<K, U>,
    rel: spec_fn(T, U) -> bool,
) -> bool {
    &&& r.dom() == m.dom()
    &&& forall|k: K| #[trigger] m.contains_key(k) ==> rel(m[k], r[k])
}

/// As [`values_related`], where the keys of `r` are clones of the keys of
/// `m`. Every entry of `r` stands for an entry of `m` whose key it clones,
/// and every key of `m` has a clone among the keys of `r`; where a clone of
/// a key is that key, `r` has the keys of `m`.
pub open spec fn values_related_by_clone<K: Clone, T, U>(
    m: Map<K, T>,
    r: Map<K, U>,
    rel: spec_fn(T, U) -> bool,
) -> bool {
    &&& clone_is_exact::<K>() ==> values_related(m, r, rel)
    &&& forall|k2: K| #[trigger]
        r.contains_key(k2) ==> exists|k: K|
            #[trigger] m.contains_key(k) && cloned(k, k2) && rel(m[k], r[k2])
    &&& forall|k: K| #[trigger]
        m.contains_key(k) ==> exists|k2: K| #[trigger] r.contains_key(k2) && cloned(k, k2)
}

/// Every key of `entries_map(s)` comes from a pair of `s`, and is mapped to
/// the value of such a pair.
pub proof fn lemma_entries_map_from<K, V>(s: Seq<(K, V)>)
    ensures
        forall|k: K| #[trigger]
            entries_map(s).contains_key(k) ==> exists|i: int|
                0 <= i < s.len() && (#[trigger] s[i]).0 == k && entries_map(s)[k] == s[i].1,
    decreases s.len(),
{
    if s.len() > 0 {
        let t = s.drop_last();
        lemma_entries_map_from(t);
        assert forall|k: K| #[trigger] entries_map(s).contains_key(k) implies exists|i: int|
            0 <= i < s.len() && (#[trigger] s[i]).0 == k && entries_map(s)[k] == s[i].1 by {
            if k == s.last().0 {
                assert(s[s.len() - 1].0 == k && entries_map(s)[k] == s[s.len() - 1].1);
            } else {
                assert(entries_map(t).contains_key(k));
                let i = choose|i: int|
                    0 <= i < t.len() && (#[trigger] t[i]).0 == k && entries_map(t)[k] == t[i].1;
                assert(s[i].0 == k && entries_map(s)[k] == s[i].1);
            }
        }
    }
}

/// The key of every pair of `s` is a key of `entries_map(s)`.
pub proof fn lemma_entries_map_keys<K, V>(s: Seq<(K, V)>)
    ensures
        forall|i: int| 0 <= i < s.len() ==> entries_map(s).contains_key((#[trigger] s[i]).0),
    decreases s.len(),
{
    if s.len() > 0 {
        let t = s.drop_last();
        lemma_entries_map_keys(t);
        assert forall|i: int| 0 <= i < s.len() implies entries_map(s).contains_key(
            (#[trigger] s[i]).0,
        ) by {
            if i < s.len() - 1 {
                assert(entries_map(t).contains_key(t[i].0));
            }
        }
    }
}

/// Where no key comes twice in `s`, `entries_map(s)` holds the pairs of `s`
/// and no other.
pub proof fn lemma_entries_map_lists<K, V>(s: Seq<(K, V)>)
    requires
        forall|i: int, j: int| 0 <= i < j < s.len() ==> (#[trigger] s[i]).0 != (#[trigger] s[j]).0,
    ensures
        lists_entries(entries_map(s), s),
    decreases s.len(),
{
    if s.len() > 0 {
        let t = s.drop_last();
        assert forall|i: int, j: int| 0 <= i < j < t.len() implies (#[trigger] t[i]).0 != (
        #[trigger] t[j]).0 by {
            assert(s[i].0 != s[j].0);
        }
        lemma_entries_map_lists(t);
        lemma_entries_map_from(s);
        assert forall|i: int| 0 <= i < s.len() implies entries_map(s).contains_pair(
            (#[trigger] s[i]).0,
            s[i].1,
        ) by {
            if i < s.len() - 1 {
                assert(entries_map(t).contains_pair(t[i].0, t[i].1));
                assert(s[i].0 != s[s.len() - 1].0);
            }
        }
    }
}

/// Entries mapped one by one, each keeping its key, make a map with the
/// same keys and the mapped values.
pub proof fn lemma_entries_mapped<K, T, U>(
    m: Map<K, T>,
    s: Seq<(K, T)>,
    s2: Seq<(K, U)>,
    rel: spec_fn(T, U) -> bool,
)
    requires
        lists_entries(m, s),
        s.len() == s2.len(),
        forall|i: int|
            0 <= i < s.len() ==> (#[trigger] s2[i]).0 == s[i].0 && rel(s[i].1, s2[i].1),
    ensures
        values_related(m, entries_map(s2), rel),
{
    let r = entries_map(s2);
    assert forall|i: int, j: int| 0 <= i < j < s2.len() implies (#[trigger] s2[i]).0 != (
    #[trigger] s2[j]).0 by {
        assert(s[i].0 != s[j].0);
    }
    lemma_entries_map_lists(s2);
    assert forall|k: K| #[trigger] m.contains_key(k) implies r.contains_key(k) && rel(m[k], r[k]) by {
        let i = choose|i: int| 0 <= i < s.len() && (#[trigger] s[i]).0 == k;
        assert(m.contains_pair(s[i].0, s[i].1));
        assert(r.contains_pair(s2[i].0, s2[i].1));
    }
    assert forall|k: K| #[trigger] r.contains_key(k) implies m.contains_key(k) by {
        let i = choose|i: int| 0 <= i < s2.len() && (#[trigger] s2[i]).0 == k;
        assert(m.contains_pair(s[i].0, s[i].1));
    }
    assert(r.dom() =~= m.dom());
}

/// Entries mapped one by one, each with a clone of its key, make a map
/// whose entries stand for entries of the first.
pub proof fn lemma_entries_mapped_by_clone<K: Clone, T, U>(
    m: Map<K, T>,
    s: Seq<(K, T)>,
    s2: Seq<(K, U)>,
    rel: spec_fn(T, U) -> bool,
)
    requires
        lists_entries(m, s),
        s.len() == s2.len(),
        forall|i: int|
            0 <= i < s.len() ==> cloned(s[i].0, (#[trigger] s2[i]).0) && rel(s[i].1, s2[i].1),
    ensures
        values_related_by_clone(m, entries_map(s2), rel),
{
    let r = entries_map(s2);
    lemma_entries_map_from(s2);
    assert forall|k2: K| #[trigger] r.contains_key(k2) implies exists|k: K|
        #[trigger] m.contains_key(k) && cloned(k, k2) && rel(m[k], r[k2]) by {
        let i = choose|i: int| 0 <= i < s2.len() && (#[trigger] s2[i]).0 == k2 && r[k2] == s2[i].1;
        assert(m.contains_pair(s[i].0, s[i].1));
        assert(m.contains_key(s[i].0) && cloned(s[i].0, k2) && rel(m[s[i].0], r[k2]));
    }
    lemma_entries_map_keys(s2);
    assert forall|k: K| #[trigger] m.contains_key(k) implies exists|k2: K|
        #[trigger] r.contains_key(k2) && cloned(k, k2) by {
        let i = choose|i: int| 0 <= i < s.len() && (#[trigger] s[i]).0 == k;
        assert(r.contains_key(s2[i].0) && cloned(k, s2[i].0));
    }
    if clone_is_exact::<K>() {
        assert forall|i: int| 0 <= i < s.len() implies (#[trigger] s2[i]).0 == s[i].0 && rel(
            s[i].1,
            s2[i].1,
        ) by {
            assert(cloned(s[i].0, s2[i].0));
        }
        lemma_entries_mapped(m, s, s2, rel);
    }
}

/// What insertion into a `BTreeMap` asks of its key type.
pub open spec fn inserts_in_order<K: Ord>() -> bool {
    vstd::laws_cmp::obeys_cmp::<K>()
}

/// For an ordered key type, `orders` is what insertion into a `BTreeMap`
/// asks of it.
proof fn lemma_orders<K: Ord>()
    ensures
        orders::<K>() ==> inserts_in_order::<K>(),
{
    broadcast use vstd::std_specs::btree::axiom_key_obeys_cmp_spec_meaning;

}

/// `Vec::from_iter` of std on a hash map, which gathers what
/// `HashMap::into_iter` hands out: the entries of the map, each moved out
/// once, in an order that is not specified.
#[verifier::external_body]
pub(crate) fn hash_map_into_entries<K, V, S>(m: HashMap<K, V, S>) -> (v: Vec<(K, V)>)
    ensures
        (hashes::<K, S>() ==> lists_entries(m@, v@)),
{
    Vec::from_iter(m)
}

/// `Vec::from_iter` of std on an ordered map, which gathers what
/// `BTreeMap::into_iter` hands out: the entries of the map, each moved out
/// once, from the least key to the greatest.
#[verifier::external_body]
pub(crate) fn btree_map_into_entries<K, V>(m: BTreeMap<K, V>) -> (v: Vec<(K, V)>)
    ensures
        orders::<K>() ==> lists_entries_in_order(m@, v@),
{
    Vec::from_iter(m)
}

/// The next item of an iterator that keeps to what it foretold: the first of
/// those that remained, or none where none remained.
fn advance<I: Iterator>(it: &mut I) -> (r: Option<I::Item>)
    ensures
        (*final(it)).obeys_prophetic_iter_laws() == (*old(it)).obeys_prophetic_iter_laws(),
        (*old(it)).obeys_prophetic_iter_laws() ==> (if (*old(it)).remaining().len() > 0 {
            &&& (*final(it)).remaining() == (*old(it)).remaining().drop_first()
            &&& r == Some((*old(it)).remaining()[0])
        } else {
            (*final(it)).remaining() == (*old(it)).remaining() && r is None
        }),
{
    it.next()
}

/// The entries of a hash map, by reference, in the order in which the map
/// hands them out.
pub fn hash_map_ref_entries<'a, K, V, S>(m: &'a HashMap<K, V, S>) -> (v: Vec<
    (&'a K, &'a V),
>)
    ensures
        hashes::<K, S>() ==> lists_entries(m@, pointees(v@)),
{
    broadcast use vstd::std_specs::hash::group_hash_axioms;

    let n = m.len();
    let mut it = m.iter();
    let ghost all = it.remaining();
    let mut v: Vec<(&'a K, &'a V)> = Vec::new();
    let mut i: usize = 0;
    while i < n
        invariant
            i <= n,
            hashes::<K, S>() ==> {
                &&& n == all.len()
                &&& it.remaining() == all.skip(i as int)
                &&& v@ == all.take(i as int)
            },
        decreases n - i,
    {
        let e = advance(&mut it);
        if let Some(kv) = e {
            v.push(kv);
        }
        proof {
            if hashes::<K, S>() {
                assert(all.skip(i as int)[0] == all[i as int]);
                assert(all.skip(i as int).drop_first() =~= all.skip(i + 1));
                assert(all.take(i as int).push(all[i as int]) =~= all.take(i + 1));
            }
        }
        i = i + 1;
    }
    proof {
        if hashes::<K, S>() {
            assert(all.take(n as int) =~= all);
            lemma_ref_entries(m@, all);
        }
    }
    v
}

/// The entries of an ordered map, by reference, in the order of their keys.
pub fn btree_map_ref_entries<'a, K, V>(m: &'a BTreeMap<K, V>) -> (v: Vec<(&'a K, &'a V)>)
    ensures
        orders::<K>() ==> lists_entries_in_order(m@, pointees(v@)),
{
    broadcast use vstd::std_specs::btree::group_btree_axioms;

    let n = m.len();
    let mut it = m.iter();
    let ghost all = it.remaining();
    let mut v: Vec<(&'a K, &'a V)> = Vec::new();
    let mut i: usize = 0;
    while i < n
        invariant
            i <= n,
            orders::<K>() ==> {
                &&& n == all.len()
                &&& it.remaining() == all.skip(i as int)
                &&& v@ == all.take(i as int)
            },
        decreases n - i,
    {
        let e = advance(&mut it);
        if let Some(kv) = e {
            v.push(kv);
        }
        proof {
            if orders::<K>() {
                assert(all.skip(i as int)[0] == all[i as int]);
                assert(all.skip(i as int).drop_first() =~= all.skip(i + 1));
                assert(all.take(i as int).push(all[i as int]) =~= all.take(i + 1));
            }
        }
        i = i + 1;
    }
    proof {
        if orders::<K>() {
            assert(all.take(n as int) =~= all);
            lemma_ref_entries(m@, all);
            assert(keys_of(pointees(all)) =~= all.map_values(|kv: (&K, &V)| *kv.0));
        }
    }
    v
}

/// What an iterator over a map yields lists the entries of the map.
proof fn lemma_ref_entries<'a, K, V>(m: Map<K, V>, all: Seq<(&'a K, &'a V)>)
    requires
        all.no_duplicates(),
        forall|i: int|
            #![trigger m.contains_key(*all[i].0)]
            0 <= i < all.len() ==> m.contains_key(*all[i].0) && m[*all[i].0] == *all[i].1,
        forall|k: K| #[trigger] m.contains_key(k) ==> all.contains((&k, &m[k])),
    ensures
        lists_entries(m, pointees(all)),
{
    let s = pointees(all);
    assert forall|i: int| 0 <= i < s.len() implies m.contains_pair((#[trigger] s[i]).0, s[i].1) by {
        assert(m.contains_key(*all[i].0));
    }
    assert forall|i: int, j: int| 0 <= i < j < s.len() implies (#[trigger] s[i]).0 != (
    #[trigger] s[j]).0 by {
        assert(m.contains_key(*all[i].0));
        assert(m.contains_key(*all[j].0));
        if s[i].0 == s[j].0 {
            assert(all[i] == all[j]);
        }
    }
    assert forall|k: K| #[trigger] m.contains_key(k) implies exists|i: int|
        0 <= i < s.len() && (#[trigger] s[i]).0 == k by {
        assert(all.contains((&k, &m[k])));
        let i = choose|i: int| 0 <= i < all.len() && all[i] == (&k, &m[k]);
        assert(s[i].0 == k);
    }
}

/// The hash map that inserting the given pairs, first to last, gives.
pub fn hash_map_from_entries<K: Eq + Hash, V, S: BuildHasher + Default>(
    v: Vec<(K, V)>,
) -> (m: HashMap<K, V, S>)
    ensures
        hashes::<K, S>() ==> m@ == entries_map(v@),
{
    let ghost src = v@;
    let mut m: HashMap<K, V, S> = HashMap::default();
    for e in it: v.into_iter()
        invariant
            it.seq() == src,
            hashes::<K, S>() ==> m@ == entries_map(src.take(it.index() as int)),
    {
        let ghost i = it.index() as int;
        proof {
            assert(src.take(i + 1).drop_last() =~= src.take(i));
        }
        let (k, x) = e;
        m.insert(k, x);
    }
    proof {
        assert(src.take(src.len() as int) =~= src);
    }
    m
}

/// The ordered map that inserting the given pairs, first to last, gives.
pub fn btree_map_from_entries<K: Ord, V>(v: Vec<(K, V)>) -> (m: BTreeMap<K, V>)
    ensures
        orders::<K>() ==> m@ == entries_map(v@),
{
    let ghost src = v@;
    let mut m: BTreeMap<K, V> = BTreeMap::new();
    proof {
        lemma_orders::<K>();
    }
    for e in it: v.into_iter()
        invariant
            it.seq() == src,
            orders::<K>() ==> m@ == entries_map(src.take(it.index() as int)),
            orders::<K>() ==> inserts_in_order::<K>(),
    {
        let ghost i = it.index() as int;
        proof {
            assert(src.take(i + 1).drop_last() =~= src.take(i));
        }
        let (k, x) = e;
        m.insert(k, x);
    }
    proof {
        assert(src.take(src.len() as int) =~= src);
    }
    m
}

} // verus!
