//! Collections as functors by way of members that are bifunctors.
//!
//! As in [`crate::derived_mapable`], the collection is mapped member by
//! member. Here a member has slots of two kinds, keys and values: the
//! values are mapped, the keys go through the identity.
use crate::bifunctor::{BiCoherent, BiFunctorOnce, BiTypeMap};
use crate::functor::{followed_by, Coherent, Functor, FunctorOnce, TypeMap};
use crate::keyed::{
    all_values, btree_map_from_entries, btree_map_into_entries, btree_map_ref_entries,
    entries_map, hash_map_from_entries, hash_map_into_entries, hash_map_ref_entries, hashes,
    lemma_entries_mapped, lemma_entries_mapped_by_clone, lists_entries, lists_entries_in_order,
    orders, pointees, values_related, values_related_by_clone,
};
use std::collections::{BTreeMap, HashMap};
use std::hash::{BuildHasher, Hash};
use std::marker::PhantomData;
use vstd::prelude::*;

verus! {

/// A collection of members, each a bifunctor with keys of type `K` and
/// values of type `T`, that is mapped on its values.
///
/// Only the type of the values changes: a mapped member has keys of type `K`
/// and values of type `U`.
pub trait BiMapable<K, T, U, Tag = ()>: Sized {
    /// What the collection is made of.
    type Member: BiFunctorOnce<K, T, K, U, Tag>;

    /// The collection of the mapped members.
    type Collection;

    /// `pre` holds of every value of every member of `self`.
    spec fn derived_all(&self, pre: spec_fn(T) -> bool) -> bool;

    /// `r` is `self` with the values of every member mapped under `rel`, and
    /// nothing else changed.
    spec fn derived(&self, r: &Self::Collection, rel: spec_fn(T, U) -> bool) -> bool;

    /// `s` holds the members of `self`, each once, in an order in which
    /// `self` may hand them out.
    spec fn lists(&self, s: Seq<Self::Member>) -> bool;

    /// `r` is the collection that the members `s`, gathered first to last,
    /// make.
    spec fn collects(
        s: Seq<<Self::Member as BiTypeMap<K, T, K, U, Tag>>::BiFunctor>,
        r: &Self::Collection,
    ) -> bool;

    /// Takes the collection apart into its members.
    fn into_members(self) -> (v: Vec<Self::Member>)
        ensures
            self.lists(v@),
    ;

    /// Gathers mapped members into a collection.
    fn from_members(v: Vec<<Self::Member as BiTypeMap<K, T, K, U, Tag>>::BiFunctor>) -> (r:
        Self::Collection)
        ensures
            Self::collects(v@, &r),
    ;

    /// What holds of every value under `p` holds under any weaker `q`.
    proof fn lemma_derived_all_weaken(&self, p: spec_fn(T) -> bool, q: spec_fn(T) -> bool)
        requires
            self.derived_all(p),
            forall|x: T| #[trigger] p(x) ==> q(x),
        ensures
            self.derived_all(q),
    ;

    /// A collection mapped under `p` is mapped under any weaker `q`.
    proof fn lemma_derived_weaken(
        &self,
        r: &Self::Collection,
        p: spec_fn(T, U) -> bool,
        q: spec_fn(T, U) -> bool,
    )
        requires
            self.derived(r, p),
            forall|x: T, y: U| #[trigger] p(x, y) ==> q(x, y),
        ensures
            self.derived(r, q),
    ;

    /// What holds of every value of the collection holds of every value of
    /// each of its members.
    proof fn lemma_members_all(&self, s: Seq<Self::Member>, pre: spec_fn(T) -> bool)
        requires
            self.derived_all(pre),
            self.lists(s),
        ensures
            forall|i: int| 0 <= i < s.len() ==> (#[trigger] s[i]).bi_all(|k: K| true, pre),
    ;

    /// The members of a collection, each with its keys kept and its values
    /// mapped, gather into the collection mapped.
    proof fn lemma_members_mapped(
        &self,
        s: Seq<Self::Member>,
        s2: Seq<<Self::Member as BiTypeMap<K, T, K, U, Tag>>::BiFunctor>,
        r: &Self::Collection,
        rel: spec_fn(T, U) -> bool,
    )
        requires
            self.lists(s),
            s.len() == s2.len(),
            forall|i: int|
                0 <= i < s.len() ==> s[i].bimapped(&#[trigger] s2[i], |k: K, k2: K| k2 == k, rel),
            Self::collects(s2, r),
        ensures
            self.derived(r, rel),
    ;
}

/// Marks a collection as a functor on its values by way of its members,
/// which are bifunctors of the kind that `Tag` picks with keys of type `K`.
pub struct Derived<K, Tag>(PhantomData<K>, PhantomData<Tag>);

impl<K, T, U, Tag, C: BiMapable<K, T, U, Tag>> TypeMap<T, U, Derived<K, Tag>> for C {
    type Functor = C::Collection;

    open spec fn all(&self, pre: spec_fn(T) -> bool) -> bool {
        self.derived_all(pre)
    }

    open spec fn mapped(&self, r: &C::Collection, rel: spec_fn(T, U) -> bool) -> bool {
        self.derived(r, rel)
    }

    proof fn lemma_all_weaken(&self, p: spec_fn(T) -> bool, q: spec_fn(T) -> bool) {
        self.lemma_derived_all_weaken(p, q);
    }

    proof fn lemma_mapped_weaken(
        &self,
        r: &C::Collection,
        p: spec_fn(T, U) -> bool,
        q: spec_fn(T, U) -> bool,
    ) {
        self.lemma_derived_weaken(r, p, q);
    }
}

/// Maps one member, its keys with `keep` and its values with a transform
/// that is only lent, and is given back as it was.
fn map_member<M, A, B, T, U, Tag, G, F>(m: M, keep: G, f: &mut F) -> (r: M::BiFunctor) where
    M: BiFunctorOnce<A, B, T, U, Tag>,
    G: FnMut(A) -> T,
    F: FnMut(B) -> U,

    requires
        m.bi_all(|k: A| call_requires(keep, (k,)), |x: B| call_requires(*old(f), (x,))),
    ensures
        m.bimapped(
            &r,
            |k: A, k2: T| call_ensures(keep, (k,), k2),
            |x: B, y: U| call_ensures(*old(f), (x,), y),
        ),
        *final(f) == *old(f),
{
    proof {
        m.lemma_bi_all_weaken(
            |k: A| call_requires(keep, (k,)),
            |x: B| call_requires(*old(f), (x,)),
            |k: A| call_requires(keep, (k,)),
            |x: B| call_requires(old(f), (x,)),
        );
    }
    let r = m.into_fmap2(keep, f);
    proof {
        m.lemma_bimapped_weaken(
            &r,
            |k: A, k2: T| call_ensures(keep, (k,), k2),
            |x: B, y: U| call_ensures(old(f), (x,), y),
            |k: A, k2: T| call_ensures(keep, (k,), k2),
            |x: B, y: U| call_ensures(*old(f), (x,), y),
        );
        assert(has_resolved(old(f)));
        assert(*old(f) == *final(old(f)));
    }
    r
}

/// Every member is mapped with its own map, the identity on its keys and
/// `f` on its values, and the mapped members are gathered in the order in
/// which the members came.
impl<K, T, U, Tag, C: BiMapable<K, T, U, Tag>> FunctorOnce<T, U, Derived<K, Tag>> for C {
    fn into_fmap<F: FnMut(T) -> U>(self, mut f: F) -> (r: C::Collection) {
        let ghost this = self;
        let ghost f0 = f;
        let ghost pre = |x: T| call_requires(f0, (x,));
        let ghost post = |x: T, y: U| call_ensures(f0, (x,), y);
        let ghost same = |k: K, k2: K| k2 == k;
        let members = self.into_members();
        let ghost src = members@;
        proof {
            this.lemma_members_all(src, pre);
        }
        let mut out: Vec<<C::Member as BiTypeMap<K, T, K, U, Tag>>::BiFunctor> = Vec::new();
        for m in it: members.into_iter()
            invariant
                it.seq() == src,
                out@.len() == it.index(),
                f == f0,
                pre == |x: T| call_requires(f0, (x,)),
                post == |x: T, y: U| call_ensures(f0, (x,), y),
                same == |k: K, k2: K| k2 == k,
                forall|i: int| 0 <= i < src.len() ==> (#[trigger] src[i]).bi_all(|k: K| true, pre),
                forall|i: int|
                    0 <= i < out@.len() ==> src[i].bimapped(&#[trigger] out@[i], same, post),
        {
            let keep = |k: K| -> (k2: K)
                ensures
                    k2 == k,
                {
                    k
                };
            proof {
                m.lemma_bi_all_weaken(
                    |k: K| true,
                    pre,
                    |k: K| call_requires(keep, (k,)),
                    |x: T| call_requires(f0, (x,)),
                );
            }
            let m2 = map_member(m, keep, &mut f);
            proof {
                m.lemma_bimapped_weaken(
                    &m2,
                    |k: K, k2: K| call_ensures(keep, (k,), k2),
                    |x: T, y: U| call_ensures(f0, (x,), y),
                    same,
                    post,
                );
            }
            out.push(m2);
        }
        let r = C::from_members(out);
        proof {
            this.lemma_members_mapped(src, out@, &r, post);
        }
        r
    }
}

/// A collection that can be mapped by way of its members while it is only
/// borrowed.
///
/// A borrowed collection hands out members whose keys and values refer into
/// it. Such a member is mapped on both kinds of slot: a key to a clone of
/// what it refers to, a value through the transform.
pub trait BiMapableRef<'a, K: Clone + 'a, T: 'a, U, Tag = ()>: BiMapable<K, T, U, Tag> where
    Self::Member: BiCoherent<K, T, &'a K, &'a T, K, U, Tag>,
    <Self::Member as BiTypeMap<K, T, &'a K, &'a T, Tag>>::BiFunctor: BiFunctorOnce<
        &'a K,
        &'a T,
        K,
        U,
        Tag,
    >,
 {
    /// `r` is `self` with the values of every member mapped under `rel`,
    /// and with a clone in the place of every key.
    spec fn ref_derived(&self, r: &Self::Collection, rel: spec_fn(T, U) -> bool) -> bool;

    /// `s` holds what `self` hands out when borrowed: one member of
    /// references for each member, in an order in which `self` may hand them
    /// out.
    spec fn ref_lists(
        &self,
        s: Seq<<Self::Member as BiTypeMap<K, T, &'a K, &'a T, Tag>>::BiFunctor>,
    ) -> bool;

    /// What the borrowed collection hands out.
    fn ref_members(&'a self) -> (v: Vec<
        <Self::Member as BiTypeMap<K, T, &'a K, &'a T, Tag>>::BiFunctor,
    >)
        ensures
            self.ref_lists(v@),
    ;

    /// What holds of every value of the collection holds of what every
    /// value of a member of references refers to.
    proof fn lemma_ref_members_all(
        &self,
        s: Seq<<Self::Member as BiTypeMap<K, T, &'a K, &'a T, Tag>>::BiFunctor>,
        pre: spec_fn(T) -> bool,
    )
        requires
            self.derived_all(pre),
            self.ref_lists(s),
        ensures
            forall|i: int|
                0 <= i < s.len() ==> (#[trigger] s[i]).bi_all(|k: &'a K| true, |x: &'a T| pre(*x)),
    ;

    /// What the borrowed collection hands out, each member mapped to
    /// clones of its keys and to its mapped values and brought to the type
    /// of a mapped member, gathers into the collection mapped.
    proof fn lemma_ref_members_mapped(
        &self,
        s: Seq<<Self::Member as BiTypeMap<K, T, &'a K, &'a T, Tag>>::BiFunctor>,
        qs: Seq<
            <<Self::Member as BiTypeMap<K, T, &'a K, &'a T, Tag>>::BiFunctor as BiTypeMap<
                &'a K,
                &'a T,
                K,
                U,
                Tag,
            >>::BiFunctor,
        >,
        ms: Seq<<Self::Member as BiTypeMap<K, T, K, U, Tag>>::BiFunctor>,
        r: &Self::Collection,
        rel: spec_fn(T, U) -> bool,
    )
        requires
            self.ref_lists(s),
            s.len() == qs.len(),
            s.len() == ms.len(),
            forall|i: int|
                0 <= i < s.len() ==> s[i].bimapped(
                    &#[trigger] qs[i],
                    |k: &'a K, k2: K| cloned(*k, k2),
                    |x: &'a T, y: U| rel(*x, y),
                ),
            forall|i: int|
                0 <= i < s.len() ==> <Self::Member as BiCoherent<
                    K,
                    T,
                    &'a K,
                    &'a T,
                    K,
                    U,
                    Tag,
                >>::bi_coheres(&qs[i], &#[trigger] ms[i]),
            Self::collects(ms, r),
        ensures
            self.ref_derived(r, rel),
    ;
}

/// Every member that the borrowed collection hands out is mapped with its
/// own map, cloning on its keys and `f` on its values, and the mapped
/// members are gathered in the order in which they came.
impl<'a, K: Clone + 'a, T: 'a, U, Tag, C> Functor<'a, T, U, Derived<K, Tag>> for C where
    C: BiMapableRef<'a, K, T, U, Tag>,
    C::Member: BiCoherent<K, T, &'a K, &'a T, K, U, Tag>,
    <C::Member as BiTypeMap<K, T, &'a K, &'a T, Tag>>::BiFunctor: BiFunctorOnce<
        &'a K,
        &'a T,
        K,
        U,
        Tag,
    >,
 {
    open spec fn ref_mapped(&self, r: &C::Collection, rel: spec_fn(T, U) -> bool) -> bool {
        self.ref_derived(r, rel)
    }

    fn fmap<F: FnMut(&T) -> U>(&'a self, mut f: F) -> (r: C::Collection) {
        let ghost f0 = f;
        let ghost pre = |x: T| call_requires(f0, (&x,));
        let ghost post = |x: T, y: U| call_ensures(f0, (&x,), y);
        let ghost ref_pre = |x: &'a T| pre(*x);
        let ghost ref_post = |x: &'a T, y: U| post(*x, y);
        let ghost clones = |k: &'a K, k2: K| cloned(*k, k2);
        let refs = self.ref_members();
        let ghost src = refs@;
        proof {
            self.lemma_ref_members_all(src, pre);
        }
        let ghost mut qs = Seq::<
            <<C::Member as BiTypeMap<K, T, &'a K, &'a T, Tag>>::BiFunctor as BiTypeMap<
                &'a K,
                &'a T,
                K,
                U,
                Tag,
            >>::BiFunctor,
        >::empty();
        let mut out: Vec<<C::Member as BiTypeMap<K, T, K, U, Tag>>::BiFunctor> = Vec::new();
        for v in it: refs.into_iter()
            invariant
                it.seq() == src,
                f == f0,
                pre == |x: T| call_requires(f0, (&x,)),
                post == |x: T, y: U| call_ensures(f0, (&x,), y),
                ref_pre == |x: &'a T| pre(*x),
                ref_post == |x: &'a T, y: U| post(*x, y),
                clones == |k: &'a K, k2: K| cloned(*k, k2),
                qs.len() == it.index(),
                out@.len() == it.index(),
                forall|i: int|
                    0 <= i < src.len() ==> (#[trigger] src[i]).bi_all(|k: &'a K| true, ref_pre),
                forall|i: int|
                    0 <= i < qs.len() ==> src[i].bimapped(&#[trigger] qs[i], clones, ref_post),
                forall|i: int|
                    0 <= i < qs.len() ==> <C::Member as BiCoherent<
                        K,
                        T,
                        &'a K,
                        &'a T,
                        K,
                        U,
                        Tag,
                    >>::bi_coheres(&qs[i], &#[trigger] out@[i]),
        {
            let keep = |k: &'a K| -> (k2: K)
                ensures
                    cloned(*k, k2),
                {
                    k.clone()
                };
            proof {
                v.lemma_bi_all_weaken(
                    |k: &'a K| true,
                    ref_pre,
                    |k: &'a K| call_requires(keep, (k,)),
                    |x: &'a T| call_requires(f0, (x,)),
                );
            }
            let q = map_member(v, keep, &mut f);
            proof {
                v.lemma_bimapped_weaken(
                    &q,
                    |k: &'a K, k2: K| call_ensures(keep, (k,), k2),
                    |x: &'a T, y: U| call_ensures(f0, (x,), y),
                    clones,
                    ref_post,
                );
                qs = qs.push(q);
            }
            let m = <C::Member as BiCoherent<K, T, &'a K, &'a T, K, U, Tag>>::cohere(q);
            out.push(m);
        }
        let r = C::from_members(out);
        proof {
            self.lemma_ref_members_mapped(src, qs, out@, &r, post);
        }
        r
    }
}

/// A hash map is a collection of pairs of key and value: mapping changes the
/// values and keeps the keys.
impl<K, T, U, S> BiMapable<K, T, U> for HashMap<K, T, S> where
    K: Eq + Hash,
    S: BuildHasher + Default,
 {
    type Member = (K, T);

    type Collection = HashMap<K, U, S>;

    open spec fn derived_all(&self, pre: spec_fn(T) -> bool) -> bool {
        if hashes::<K, S>() {
            all_values(self@, pre)
        } else {
            forall|x: T| #[trigger] pre(x)
        }
    }

    open spec fn derived(&self, r: &HashMap<K, U, S>, rel: spec_fn(T, U) -> bool) -> bool {
        hashes::<K, S>() ==> values_related(self@, r@, rel)
    }

    open spec fn lists(&self, s: Seq<(K, T)>) -> bool {
        hashes::<K, S>() ==> lists_entries(self@, s)
    }

    open spec fn collects(s: Seq<(K, U)>, r: &HashMap<K, U, S>) -> bool {
        hashes::<K, S>() ==> r@ == entries_map(s)
    }

    fn into_members(self) -> (v: Vec<(K, T)>) {
        hash_map_into_entries(self)
    }

    fn from_members(v: Vec<(K, U)>) -> (r: HashMap<K, U, S>) {
        hash_map_from_entries(v)
    }

    proof fn lemma_derived_all_weaken(&self, p: spec_fn(T) -> bool, q: spec_fn(T) -> bool) {
        assert forall|x: T| p(x) implies #[trigger] q(x) by {}
    }

    proof fn lemma_derived_weaken(
        &self,
        r: &HashMap<K, U, S>,
        p: spec_fn(T, U) -> bool,
        q: spec_fn(T, U) -> bool,
    ) {
    }

    proof fn lemma_members_all(&self, s: Seq<(K, T)>, pre: spec_fn(T) -> bool) {
        assert forall|i: int| 0 <= i < s.len() implies <(K, T) as BiTypeMap<K, T, K, U>>::bi_all(
            &#[trigger] s[i],
            |k: K| true,
            pre,
        ) by {
            if hashes::<K, S>() {
                assert(self@.contains_pair(s[i].0, s[i].1));
            }
        }
    }

    proof fn lemma_members_mapped(
        &self,
        s: Seq<(K, T)>,
        s2: Seq<(K, U)>,
        r: &HashMap<K, U, S>,
        rel: spec_fn(T, U) -> bool,
    ) {
        if hashes::<K, S>() {
            assert forall|i: int| 0 <= i < s.len() implies (#[trigger] s2[i]).0 == s[i].0 && rel(
                s[i].1,
                s2[i].1,
            ) by {
                assert(s[i].bimapped(&s2[i], |k: K, k2: K| k2 == k, rel));
            }
            lemma_entries_mapped(self@, s, s2, rel);
        }
    }
}

/// By reference the keys are cloned: the map keeps its own.
impl<'a, K, T: 'a, U, S> BiMapableRef<'a, K, T, U> for HashMap<K, T, S> where
    K: Clone + Eq + Hash + 'a,
    S: BuildHasher + Default,
 {
    open spec fn ref_derived(&self, r: &HashMap<K, U, S>, rel: spec_fn(T, U) -> bool) -> bool {
        hashes::<K, S>() ==> values_related_by_clone(self@, r@, rel)
    }

    open spec fn ref_lists(&self, s: Seq<(&'a K, &'a T)>) -> bool {
        hashes::<K, S>() ==> lists_entries(self@, pointees(s))
    }

    fn ref_members(&'a self) -> (v: Vec<(&'a K, &'a T)>) {
        hash_map_ref_entries(self)
    }

    proof fn lemma_ref_members_all(&self, s: Seq<(&'a K, &'a T)>, pre: spec_fn(T) -> bool) {
        assert forall|i: int| 0 <= i < s.len() implies <(&'a K, &'a T) as BiTypeMap<
            &'a K,
            &'a T,
            K,
            U,
        >>::bi_all(&#[trigger] s[i], |k: &'a K| true, |x: &'a T| pre(*x)) by {
            if hashes::<K, S>() {
                assert(self@.contains_pair(pointees(s)[i].0, pointees(s)[i].1));
            }
        }
    }

    proof fn lemma_ref_members_mapped(
        &self,
        s: Seq<(&'a K, &'a T)>,
        qs: Seq<(K, U)>,
        ms: Seq<(K, U)>,
        r: &HashMap<K, U, S>,
        rel: spec_fn(T, U) -> bool,
    ) {
        if hashes::<K, S>() {
            let e = pointees(s);
            assert forall|i: int| 0 <= i < e.len() implies cloned(e[i].0, (#[trigger] ms[i]).0)
                && rel(e[i].1, ms[i].1) by {
                assert(s[i].bimapped(
                    &qs[i],
                    |k: &'a K, k2: K| cloned(*k, k2),
                    |x: &'a T, y: U| rel(*x, y),
                ));
                assert(<(K, T) as BiCoherent<K, T, &'a K, &'a T, K, U>>::bi_coheres(
                    &qs[i],
                    &ms[i],
                ));
            }
            lemma_entries_mapped_by_clone(self@, e, ms, rel);
        }
    }
}

/// The laws of the substitution, for a hash map mapped on its values.
impl<K, T, U, V, S> Coherent<T, U, V, Derived<K, ()>> for HashMap<K, T, S> where
    K: Eq + Hash,
    S: BuildHasher + Default,
 {
    open spec fn coheres(x: &HashMap<K, V, S>, r: &HashMap<K, V, S>) -> bool {
        r@ == x@
    }

    open spec fn injects(x: &HashMap<K, T, S>, r: &HashMap<K, T, S>) -> bool {
        hashes::<K, S>() ==> r@ == x@
    }

    fn cohere(x: HashMap<K, V, S>) -> (r: HashMap<K, V, S>) {
        x
    }

    fn inject(x: HashMap<K, T, S>) -> (r: HashMap<K, T, S>) {
        x
    }

    proof fn identity_law(c: &HashMap<K, T, S>, r: &HashMap<K, T, S>, id: spec_fn(T, T) -> bool) {
        if hashes::<K, S>() {
            assert forall|k: K| c@.contains_key(k) implies r@[k] == c@[k] by {
                assert(id(c@[k], r@[k]));
            }
            assert(r@ =~= c@);
        }
    }

    proof fn composition_law(
        c: &HashMap<K, T, S>,
        m: &HashMap<K, U, S>,
        x: &HashMap<K, V, S>,
        r: &HashMap<K, V, S>,
        p: spec_fn(T, U) -> bool,
        q: spec_fn(U, V) -> bool,
    ) {
        if hashes::<K, S>() {
            assert forall|k: K| #[trigger] c@.contains_key(k) implies followed_by(p, q)(
                c@[k],
                r@[k],
            ) by {
                assert(m@.contains_key(k));
                assert(p(c@[k], m@[k]) && q(m@[k], x@[k]));
            }
        }
    }
}

/// A ordered map is a collection of pairs of key and value: mapping changes the
/// values and keeps the keys.
impl<K: Ord, T, U> BiMapable<K, T, U> for BTreeMap<K, T> {
    type Member = (K, T);

    type Collection = BTreeMap<K, U>;

    open spec fn derived_all(&self, pre: spec_fn(T) -> bool) -> bool {
        if orders::<K>() {
            all_values(self@, pre)
        } else {
            forall|x: T| #[trigger] pre(x)
        }
    }

    open spec fn derived(&self, r: &BTreeMap<K, U>, rel: spec_fn(T, U) -> bool) -> bool {
        orders::<K>() ==> values_related(self@, r@, rel)
    }

    open spec fn lists(&self, s: Seq<(K, T)>) -> bool {
        orders::<K>() ==> lists_entries_in_order(self@, s)
    }

    open spec fn collects(s: Seq<(K, U)>, r: &BTreeMap<K, U>) -> bool {
        orders::<K>() ==> r@ == entries_map(s)
    }

    fn into_members(self) -> (v: Vec<(K, T)>) {
        btree_map_into_entries(self)
    }

    fn from_members(v: Vec<(K, U)>) -> (r: BTreeMap<K, U>) {
        btree_map_from_entries(v)
    }

    proof fn lemma_derived_all_weaken(&self, p: spec_fn(T) -> bool, q: spec_fn(T) -> bool) {
        assert forall|x: T| p(x) implies #[trigger] q(x) by {}
    }

    proof fn lemma_derived_weaken(
        &self,
        r: &BTreeMap<K, U>,
        p: spec_fn(T, U) -> bool,
        q: spec_fn(T, U) -> bool,
    ) {
    }

    proof fn lemma_members_all(&self, s: Seq<(K, T)>, pre: spec_fn(T) -> bool) {
        assert forall|i: int| 0 <= i < s.len() implies <(K, T) as BiTypeMap<K, T, K, U>>::bi_all(
            &#[trigger] s[i],
            |k: K| true,
            pre,
        ) by {
            if orders::<K>() {
                assert(self@.contains_pair(s[i].0, s[i].1));
            }
        }
    }

    proof fn lemma_members_mapped(
        &self,
        s: Seq<(K, T)>,
        s2: Seq<(K, U)>,
        r: &BTreeMap<K, U>,
        rel: spec_fn(T, U) -> bool,
    ) {
        if orders::<K>() {
            assert forall|i: int| 0 <= i < s.len() implies (#[trigger] s2[i]).0 == s[i].0 && rel(
                s[i].1,
                s2[i].1,
            ) by {
                assert(s[i].bimapped(&s2[i], |k: K, k2: K| k2 == k, rel));
            }
            lemma_entries_mapped(self@, s, s2, rel);
        }
    }
}

/// By reference the keys are cloned: the map keeps its own.
impl<'a, K: Clone + Ord + 'a, T: 'a, U> BiMapableRef<'a, K, T, U> for BTreeMap<K, T> {
    open spec fn ref_derived(&self, r: &BTreeMap<K, U>, rel: spec_fn(T, U) -> bool) -> bool {
        orders::<K>() ==> values_related_by_clone(self@, r@, rel)
    }

    open spec fn ref_lists(&self, s: Seq<(&'a K, &'a T)>) -> bool {
        orders::<K>() ==> lists_entries_in_order(self@, pointees(s))
    }

    fn ref_members(&'a self) -> (v: Vec<(&'a K, &'a T)>) {
        btree_map_ref_entries(self)
    }

    proof fn lemma_ref_members_all(&self, s: Seq<(&'a K, &'a T)>, pre: spec_fn(T) -> bool) {
        assert forall|i: int| 0 <= i < s.len() implies <(&'a K, &'a T) as BiTypeMap<
            &'a K,
            &'a T,
            K,
            U,
        >>::bi_all(&#[trigger] s[i], |k: &'a K| true, |x: &'a T| pre(*x)) by {
            if orders::<K>() {
                assert(self@.contains_pair(pointees(s)[i].0, pointees(s)[i].1));
            }
        }
    }

    proof fn lemma_ref_members_mapped(
        &self,
        s: Seq<(&'a K, &'a T)>,
        qs: Seq<(K, U)>,
        ms: Seq<(K, U)>,
        r: &BTreeMap<K, U>,
        rel: spec_fn(T, U) -> bool,
    ) {
        if orders::<K>() {
            let e = pointees(s);
            assert forall|i: int| 0 <= i < e.len() implies cloned(e[i].0, (#[trigger] ms[i]).0)
                && rel(e[i].1, ms[i].1) by {
                assert(s[i].bimapped(
                    &qs[i],
                    |k: &'a K, k2: K| cloned(*k, k2),
                    |x: &'a T, y: U| rel(*x, y),
                ));
                assert(<(K, T) as BiCoherent<K, T, &'a K, &'a T, K, U>>::bi_coheres(
                    &qs[i],
                    &ms[i],
                ));
            }
            lemma_entries_mapped_by_clone(self@, e, ms, rel);
        }
    }
}

/// The laws of the substitution, for a ordered map mapped on its values.
impl<K: Ord, T, U, V> Coherent<T, U, V, Derived<K, ()>> for BTreeMap<K, T> {
    open spec fn coheres(x: &BTreeMap<K, V>, r: &BTreeMap<K, V>) -> bool {
        r@ == x@
    }

    open spec fn injects(x: &BTreeMap<K, T>, r: &BTreeMap<K, T>) -> bool {
        orders::<K>() ==> r@ == x@
    }

    fn cohere(x: BTreeMap<K, V>) -> (r: BTreeMap<K, V>) {
        x
    }

    fn inject(x: BTreeMap<K, T>) -> (r: BTreeMap<K, T>) {
        x
    }

    proof fn identity_law(c: &BTreeMap<K, T>, r: &BTreeMap<K, T>, id: spec_fn(T, T) -> bool) {
        if orders::<K>() {
            assert forall|k: K| c@.contains_key(k) implies r@[k] == c@[k] by {
                assert(id(c@[k], r@[k]));
            }
            assert(r@ =~= c@);
        }
    }

    proof fn composition_law(
        c: &BTreeMap<K, T>,
        m: &BTreeMap<K, U>,
        x: &BTreeMap<K, V>,
        r: &BTreeMap<K, V>,
        p: spec_fn(T, U) -> bool,
        q: spec_fn(U, V) -> bool,
    ) {
        if orders::<K>() {
            assert forall|k: K| #[trigger] c@.contains_key(k) implies followed_by(p, q)(
                c@[k],
                r@[k],
            ) by {
                assert(m@.contains_key(k));
                assert(p(c@[k], m@[k]) && q(m@[k], x@[k]));
            }
        }
    }
}

} // verus!
