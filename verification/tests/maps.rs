use functors::bimapable;
use functors::derived_mapable;
use functors::keyed::{
    btree_map_from_entries, btree_map_ref_entries, hash_map_from_entries, hash_map_ref_entries,
};
use functors::{BiMapable, Coherent, Comp1, DerivedMapable, DerivedMapableRef, Functor, FunctorOnce};
use std::collections::{BTreeMap, HashMap};

#[test]
fn bimapable_hash_map_test() {
    let hm: HashMap<u32, &str> = [(1, "One"), (2, "Two"), (3, "Three")].into_iter().collect();
    let lengths = Functor::<&str, usize, bimapable::Derived<u32, ()>>::fmap(&hm, |x: &&str| x.len());
    let expect = [(1, 3), (2, 3), (3, 5)].into_iter().collect();
    assert_eq!(lengths, expect);

    let mapped = FunctorOnce::<&str, bool, bimapable::Derived<u32, ()>>::into_fmap(hm, |x: &str| x == "Two");
    let expect = [(1, false), (2, true), (3, false)].into_iter().collect();
    assert_eq!(mapped, expect);
}

#[test]
fn bimapable_btree_test() {
    let bm: BTreeMap<u32, &str> = [(1, "One"), (2, "Two"), (3, "Three")].into_iter().collect();
    let mapped = FunctorOnce::<&str, bool, bimapable::Derived<u32, ()>>::into_fmap(bm, |x: &str| x == "Two");
    let expect = [(1, false), (2, true), (3, false)].into_iter().collect();
    assert_eq!(mapped, expect);
}

#[test]
fn derived_mapable_hash_map_test() {
    let hm: HashMap<u32, &str> = [(1, "One"), (2, "Two"), (3, "Three")].into_iter().collect();
    let lengths = Functor::<&str, usize, derived_mapable::Derived<Comp1>>::fmap(&hm, |x: &&str| x.len());
    let expect = [(1, 3), (2, 3), (3, 5)].into_iter().collect();
    assert_eq!(lengths, expect);

    let mapped = FunctorOnce::<&str, bool, derived_mapable::Derived<Comp1>>::into_fmap(hm, |x: &str| x == "Two");
    let expect = [(1, false), (2, true), (3, false)].into_iter().collect();
    assert_eq!(mapped, expect);
}

#[test]
fn derived_mapable_btree_test() {
    let bm: BTreeMap<u32, &str> = [(1, "One"), (2, "Two"), (3, "Three")].into_iter().collect();
    let mapped = FunctorOnce::<&str, bool, derived_mapable::Derived<Comp1>>::into_fmap(bm, |x: &str| x == "Two");
    let expect = [(1, false), (2, true), (3, false)].into_iter().collect();
    assert_eq!(mapped, expect);
}

#[test]
fn keys_and_count_stay() {
    let hm: HashMap<u32, &str> = [(1, "One"), (2, "Two"), (3, "Three")].into_iter().collect();
    let lengths: HashMap<u32, usize> =
        Functor::<&str, usize, derived_mapable::Derived<Comp1>>::fmap(&hm, |x: &&str| x.len());
    assert_eq!(lengths.len(), hm.len());
    let mut keys: Vec<u32> = lengths.keys().copied().collect();
    keys.sort();
    assert_eq!(keys, [1, 2, 3]);
    assert_eq!(hm.len(), 3);
}

#[test]
fn btree_maps_by_reference_with_cloned_keys() {
    let bm: BTreeMap<String, u32> =
        [("a".to_string(), 1), ("b".to_string(), 2)].into_iter().collect();
    let r = Functor::<u32, u32, derived_mapable::Derived<Comp1>>::fmap(&bm, |x: &u32| x * 10);
    let expect: BTreeMap<String, u32> =
        [("a".to_string(), 10), ("b".to_string(), 20)].into_iter().collect();
    assert_eq!(r, expect);
    let r = Functor::<u32, u32, bimapable::Derived<String, ()>>::fmap(&bm, |x: &u32| x + 1);
    let expect: BTreeMap<String, u32> =
        [("a".to_string(), 2), ("b".to_string(), 3)].into_iter().collect();
    assert_eq!(r, expect);
    assert_eq!(bm.len(), 2);
}

#[test]
fn empty_maps_map_to_empty_maps() {
    let hm: HashMap<u8, u8> = HashMap::new();
    let r: HashMap<u8, u8> =
        FunctorOnce::<u8, u8, derived_mapable::Derived<Comp1>>::into_fmap(hm, |_: u8| panic!("called"));
    assert!(r.is_empty());
    let bm: BTreeMap<u8, u8> = BTreeMap::new();
    let r: BTreeMap<u8, u8> =
        Functor::<u8, u8, bimapable::Derived<u8, ()>>::fmap(&bm, |_: &u8| panic!("called"));
    assert!(r.is_empty());
}

#[test]
fn map_identity_and_composition() {
    let bm: BTreeMap<u8, u32> = [(1, 10), (2, 20)].into_iter().collect();
    let same = FunctorOnce::<u32, u32, derived_mapable::Derived<Comp1>>::into_fmap(bm.clone(), |x: u32| x);
    assert_eq!(same, bm);
    let f = |x: u32| x + 1;
    let g = |x: u32| x * 2;
    let two_steps = FunctorOnce::<u32, u32, derived_mapable::Derived<Comp1>>::into_fmap(
        FunctorOnce::<u32, u32, derived_mapable::Derived<Comp1>>::into_fmap(bm.clone(), f),
        g,
    );
    let one_step = FunctorOnce::<u32, u32, derived_mapable::Derived<Comp1>>::into_fmap(bm, |x: u32| g(f(x)));
    assert_eq!(two_steps, one_step);
    let expect: BTreeMap<u8, u32> = [(1, 22), (2, 42)].into_iter().collect();
    assert_eq!(two_steps, expect);
}

#[test]
fn protocol_of_a_map() {
    let hm: HashMap<u8, char> = [(1, 'a'), (2, 'b')].into_iter().collect();
    let refs = <HashMap<u8, char> as DerivedMapableRef<char, bool, Comp1>>::ref_members(&hm);
    assert_eq!(refs.len(), 2);
    let mut owned: Vec<(u8, &char)> = refs
        .into_iter()
        .map(<HashMap<u8, char> as DerivedMapableRef<char, bool, Comp1>>::convert_ref)
        .collect();
    owned.sort();
    assert_eq!(owned, [(1, &'a'), (2, &'b')]);
    let mut members = <HashMap<u8, char> as DerivedMapable<char, bool, Comp1>>::into_members(hm);
    members.sort();
    assert_eq!(members, [(1, 'a'), (2, 'b')]);
    let built = <HashMap<u8, char> as DerivedMapable<char, bool, Comp1>>::from_members(vec![
        (1, true),
        (2, false),
        (1, false),
    ]);
    let expect: HashMap<u8, bool> = [(1, false), (2, false)].into_iter().collect();
    assert_eq!(built, expect);
    let bm: BTreeMap<u8, char> = [(2, 'b'), (1, 'a')].into_iter().collect();
    let members = <BTreeMap<u8, char> as BiMapable<u8, char, bool>>::into_members(bm);
    assert_eq!(members, [(1, 'a'), (2, 'b')]);
    let c = <BTreeMap<u8, char> as Coherent<char, bool, u32, derived_mapable::Derived<Comp1>>>::cohere(
        [(1u8, 5u32)].into_iter().collect(),
    );
    assert_eq!(c.get(&1), Some(&5));
}

#[test]
fn transform_is_called_once_for_each_value() {
    let bm: BTreeMap<u8, char> = [(3, 'c'), (1, 'a'), (2, 'b')].into_iter().collect();
    let mut seen: Vec<char> = Vec::new();
    let r = Functor::<char, u32, derived_mapable::Derived<Comp1>>::fmap(&bm, |c: &char| {
        seen.push(*c);
        *c as u32
    });
    assert_eq!(seen, ['a', 'b', 'c']);
    assert_eq!(r.len(), 3);
    let mut seen: Vec<char> = Vec::new();
    let r: BTreeMap<u8, char> = FunctorOnce::<char, char, bimapable::Derived<u8, ()>>::into_fmap(bm, |c: char| {
        seen.push(c);
        c
    });
    assert_eq!(seen, ['a', 'b', 'c']);
    assert_eq!(r.len(), 3);
    let hm: HashMap<u8, u8> = [(1, 10), (2, 20), (3, 30)].into_iter().collect();
    let mut calls = 0;
    let r = FunctorOnce::<u8, u8, derived_mapable::Derived<Comp1>>::into_fmap(hm, |x: u8| {
        calls += 1;
        x
    });
    assert_eq!(calls, 3);
    assert_eq!(r.len(), 3);
}

#[test]
fn entries_of_maps() {
    let bm: BTreeMap<u8, char> = btree_map_from_entries(vec![(2, 'b'), (1, 'a'), (2, 'c')]);
    let expect: BTreeMap<u8, char> = [(1, 'a'), (2, 'c')].into_iter().collect();
    assert_eq!(bm, expect);
    assert_eq!(btree_map_ref_entries(&bm), [(&1, &'a'), (&2, &'c')]);
    let hm: HashMap<u8, char> = hash_map_from_entries(vec![(2, 'b'), (1, 'a'), (2, 'c')]);
    let expect: HashMap<u8, char> = [(1, 'a'), (2, 'c')].into_iter().collect();
    assert_eq!(hm, expect);
    let mut refs = hash_map_ref_entries(&hm);
    refs.sort();
    assert_eq!(refs, [(&1, &'a'), (&2, &'c')]);
    let none: HashMap<u8, char> = hash_map_from_entries(Vec::new());
    assert!(hash_map_ref_entries(&none).is_empty());
}
