//! Collections as functors by way of their members.
//!
//! A collection whose members are themselves functors is mapped by mapping
//! each member with its own map and gathering the results. An associative
//! map is the case in point: its members are the pairs of key and value, a
//! pair is a functor on its value, so the map is a functor on its values,
//! and its keys stay.
use crate::functor::{followed_by, Coherent, Comp1, Functor, FunctorOnce, TypeMap};
use crate::keyed::{
    all_values, btree_map_from_entries, btree_map_into_entries, btree_map_ref_entries,
    entries_map, hash_map_from_entries, hash_map_into_entries, hash_map_ref_entries, hashes,
    lemma_entries_mapped, lemma_entries_mapped_by_clone, lists_entries, lists_entries_in_order,
    orders, pointees, values_related, values_related_by_clone,
};
use std::collections::{BTreeMap, HashMap};
use std::hash::{BuildHasher, Hash};
use vstd::prelude::*;

verus! {

/// A collection of members, each a functor from `T` to `U` of the kind
/// that `Tag` picks.
///
/// The collection says how it is taken apart into members and how the
/// mapped members are gathered, and what a mapped collection is. Its two
/// last laws tie the three together.
pub trait DerivedMapable<T, U, Tag = ()>: Sized {
    /// What the collection is made of.
    type Member: FunctorOnce<T, U, Tag>;

    /// The collection of the mapped members.
    type Collection;

    /// `pre` holds of every slot of every member of `self`.
    spec fn derived_all(&self, pre: spec_fn(T) -> bool) -> bool;

    /// `r` is `self` with every member mapped under `rel`, and nothing else
    /// changed.
    spec fn derived(&self, r: &Self::Collection, rel: spec_fn(T, U) -> bool) -> bool;

    /// `s` holds the members of `self`, each once, in an order in which
    /// `self` may hand them out.
    spec fn lists(&self, s: Seq<Self::Member>) -> bool;

    /// `r` is the collection that the members `s`, gathered first to last,
    /// make.
    spec fn collects(
        s: Seq<<Self::Member as TypeMap<T, U, Tag>>::Functor>,
        r: &Self::Collection,
    ) -> bool;

    /// Takes the collection apart into its members.
    fn into_members(self) -> (v: Vec<Self::Member>)
        ensures
            self.lists(v@),
    ;

    /// Gathers mapped members into a collection.
    fn from_members(v: Vec<<Self::Member as TypeMap<T, U, Tag>>::Functor>) -> (r: Self::Collection)
        ensures
            Self::collects(v@, &r),
    ;

    /// What holds of every slot under `p` holds under any weaker `q`.
    proof fn lemma_derived_all_weaken(&self, p: spec_fn(T) -> bool, q: spec_fn(T) -> bool)
        requires
            self.derived_all(p),
            forall|x: T| #[trigger] p(x) ==> q(x),
        ensures
            self.derived_all(q),
    ;

    /// A collection mapped under `p` is mapped under any weaker `q`.
    proof fn lemma_derived_weaken(
        &self,
        r: &Self::Collection,
        p: spec_fn(T, U) -> bool,
        q: spec_fn(T, U) -> bool,
    )
        requires
            self.derived(r, p),
            forall|x: T, y: U| #[trigger] p(x, y) ==> q(x, y),
        ensures
            self.derived(r, q),
    ;

    /// What holds of every slot of the collection holds of every slot of
    /// each of its members.
    proof fn lemma_members_all(&self, s: Seq<Self::Member>, pre: spec_fn(T) -> bool)
        requires
            self.derived_all(pre),
            self.lists(s),
        ensures
            forall|i: int| 0 <= i < s.len() ==> (#[trigger] s[i]).all(pre),
    ;

    /// The members of a collection, each mapped, gather into the collection
    /// mapped.
    proof fn lemma_members_mapped(
        &self,
        s: Seq<Self::Member>,
        s2: Seq<<Self::Member as TypeMap<T, U, Tag>>::Functor>,
        r: &Self::Collection,
        rel: spec_fn(T, U) -> bool,
    )
        requires
            self.lists(s),
            s.len() == s2.len(),
            forall|i: int| 0 <= i < s.len() ==> s[i].mapped(&#[trigger] s2[i], rel),
            Self::collects(s2, r),
        ensures
            self.derived(r, rel),
    ;
}

/// Marks a collection as a functor by way of its members, which are
/// functors of the kind that `Tag` picks.
pub struct Derived<Tag>(Tag);

impl<T, U, Tag, C: DerivedMapable<T, U, Tag>> TypeMap<T, U, Derived<Tag>> for C {
    type Functor = C::Collection;

    open spec fn all(&self, pre: spec_fn(T) -> bool) -> bool {
        self.derived_all(pre)
    }

    open spec fn mapped(&self, r: &C::Collection, rel: spec_fn(T, U) -> bool) -> bool {
        self.derived(r, rel)
    }

    proof fn lemma_all_weaken(&self, p: spec_fn(T) -> bool, q: spec_fn(T) -> bool) {
        self.lemma_derived_all_weaken(p, q);
    }

    proof fn lemma_mapped_weaken(
        &self,
        r: &C::Collection,
        p: spec_fn(T, U) -> bool,
        q: spec_fn(T, U) -> bool,
    ) {
        self.lemma_derived_weaken(r, p, q);
    }
}

/// Maps one member with a transform that is only lent, and is given back
/// as it was.
fn map_member<M: FunctorOnce<T, U, Tag>, T, U, Tag, F: FnMut(T) -> U>(m: M, f: &mut F) -> (r:
    M::Functor)
    requires
        m.all(|x: T| call_requires(*old(f), (x,))),
    ensures
        m.mapped(&r, |x: T, y: U| call_ensures(*old(f), (x,), y)),
        *final(f) == *old(f),
{
    proof {
        m.lemma_all_weaken(
            |x: T| call_requires(*old(f), (x,)),
            |x: T| call_requires(old(f), (x,)),
        );
    }
    let r = m.into_fmap(f);
    proof {
        m.lemma_mapped_weaken(
            &r,
            |x: T, y: U| call_ensures(old(f), (x,), y),
            |x: T, y: U| call_ensures(*old(f), (x,), y),
        );
        assert(has_resolved(old(f)));
        assert(*old(f) == *final(old(f)));
    }
    r
}

/// Every member is mapped with its own map, and the mapped members are
/// gathered in the order in which the members came.
impl<T, U, Tag, C: DerivedMapable<T, U, Tag>> FunctorOnce<T, U, Derived<Tag>> for C {
    fn into_fmap<F: FnMut(T) -> U>(self, mut f: F) -> (r: C::Collection) {
        let ghost this = self;
        let ghost f0 = f;
        let ghost pre = |x: T| call_requires(f0, (x,));
        let ghost post = |x: T, y: U| call_ensures(f0, (x,), y);
        let members = self.into_members();
        let ghost src = members@;
        proof {
            this.lemma_members_all(src, pre);
        }
        let mut out: Vec<<C::Member as TypeMap<T, U, Tag>>::Functor> = Vec::new();
        for m in it: members.into_iter()
            invariant
                it.seq() == src,
                out@.len() == it.index(),
                f == f0,
                pre == |x: T| call_requires(f0, (x,)),
                post == |x: T, y: U| call_ensures(f0, (x,), y),
                forall|i: int| 0 <= i < src.len() ==> (#[trigger] src[i]).all(pre),
                forall|i: int| 0 <= i < out@.len() ==> src[i].mapped(&#[trigger] out@[i], post),
        {
            let m2 = map_member(m, &mut f);
            out.push(m2);
        }
        let r = C::from_members(out);
        proof {
            this.lemma_members_mapped(src, out@, &r, post);
        }
        r
    }
}

/// A collection that can be mapped by way of its members while it is only
/// borrowed.
///
/// A borrowed collection hands out members that refer into it. Such a
/// member is converted into a member that owns what the map leaves alone and
/// refers to its slots; what it owns is a clone, since the collection keeps
/// its own.
pub trait DerivedMapableRef<'a, T: 'a, U, Tag = ()>: DerivedMapable<T, U, Tag> where
    Self::Member: Coherent<T, &'a T, U, Tag>,
    <Self::Member as TypeMap<T, &'a T, Tag>>::Functor: FunctorOnce<&'a T, U, Tag>,
 {
    /// What a borrowed collection hands out.
    type MemberRef;

    /// `r` is `self` with every member mapped under `rel`, and with a clone
    /// in the place of whatever else a member holds.
    spec fn ref_derived(&self, r: &Self::Collection, rel: spec_fn(T, U) -> bool) -> bool;

    /// `s` holds what `self` hands out when borrowed: one item for each
    /// member, in an order in which `self` may hand them out.
    spec fn ref_lists(&self, s: Seq<Self::MemberRef>) -> bool;

    /// `p` refers to the slots that `x` refers to, and owns a clone of what
    /// else `x` refers to.
    spec fn converts(
        x: Self::MemberRef,
        p: <Self::Member as TypeMap<T, &'a T, Tag>>::Functor,
    ) -> bool;

    /// What the borrowed collection hands out.
    fn ref_members(&'a self) -> (v: Vec<Self::MemberRef>)
        ensures
            self.ref_lists(v@),
    ;

    /// Makes a member that refers to its slots of what the borrowed
    /// collection hands out.
    fn convert_ref(x: Self::MemberRef) -> (p: <Self::Member as TypeMap<T, &'a T, Tag>>::Functor)
        ensures
            Self::converts(x, p),
    ;

    /// What holds of every slot of the collection holds of what every slot
    /// of a converted member refers to.
    proof fn lemma_ref_member_all(
        &self,
        s: Seq<Self::MemberRef>,
        i: int,
        p: <Self::Member as TypeMap<T, &'a T, Tag>>::Functor,
        pre: spec_fn(T) -> bool,
    )
        requires
            self.derived_all(pre),
            self.ref_lists(s),
            0 <= i < s.len(),
            Self::converts(s[i], p),
        ensures
            p.all(|x: &'a T| pre(*x)),
    ;

    /// What the borrowed collection hands out, each item converted, mapped
    /// and brought to the type of a mapped member, gathers into the
    /// collection mapped.
    proof fn lemma_ref_members_mapped(
        &self,
        s: Seq<Self::MemberRef>,
        ps: Seq<<Self::Member as TypeMap<T, &'a T, Tag>>::Functor>,
        qs: Seq<
            <<Self::Member as TypeMap<T, &'a T, Tag>>::Functor as TypeMap<&'a T, U, Tag>>::Functor,
        >,
        ms: Seq<<Self::Member as TypeMap<T, U, Tag>>::Functor>,
        r: &Self::Collection,
        rel: spec_fn(T, U) -> bool,
    )
        requires
            self.ref_lists(s),
            s.len() == ps.len(),
            s.len() == qs.len(),
            s.len() == ms.len(),
            forall|i: int| 0 <= i < s.len() ==> Self::converts(s[i], #[trigger] ps[i]),
            forall|i: int|
                0 <= i < s.len() ==> ps[i].mapped(&#[trigger] qs[i], |x: &'a T, y: U| rel(*x, y)),
            forall|i: int|
                0 <= i < s.len() ==> <Self::Member as Coherent<T, &'a T, U, Tag>>::coheres(
                    &qs[i],
                    &#[trigger] ms[i],
                ),
            Self::collects(ms, r),
        ensures
            self.ref_derived(r, rel),
    ;
}

/// Every item that the borrowed collection hands out is converted into a
/// member that refers to its slots, that member is mapped with its own map,
/// and the mapped members are gathered in the order in which the items
/// came.
impl<'a, T: 'a, U, Tag, C> Functor<'a, T, U, Derived<Tag>> for C where
    C: DerivedMapableRef<'a, T, U, Tag>,
    C::Member: Coherent<T, &'a T, U, Tag>,
    <C::Member as TypeMap<T, &'a T, Tag>>::Functor: FunctorOnce<&'a T, U, Tag>,
 {
    open spec fn ref_mapped(&self, r: &C::Collection, rel: spec_fn(T, U) -> bool) -> bool {
        self.ref_derived(r, rel)
    }

    fn fmap<F: FnMut(&T) -> U>(&'a self, mut f: F) -> (r: C::Collection) {
        let ghost f0 = f;
        let ghost pre = |x: T| call_requires(f0, (&x,));
        let ghost post = |x: T, y: U| call_ensures(f0, (&x,), y);
        let ghost ref_post = |x: &'a T, y: U| post(*x, y);
        let refs = self.ref_members();
        let ghost src = refs@;
        let ghost mut ps = Seq::<<C::Member as TypeMap<T, &'a T, Tag>>::Functor>::empty();
        let ghost mut qs = Seq::<
            <<C::Member as TypeMap<T, &'a T, Tag>>::Functor as TypeMap<&'a T, U, Tag>>::Functor,
        >::empty();
        let mut out: Vec<<C::Member as TypeMap<T, U, Tag>>::Functor> = Vec::new();
        for x in it: refs.into_iter()
            invariant
                it.seq() == src,
                self.ref_lists(src),
                self.derived_all(pre),
                f == f0,
                pre == |x: T| call_requires(f0, (&x,)),
                post == |x: T, y: U| call_ensures(f0, (&x,), y),
                ref_post == |x: &'a T, y: U| post(*x, y),
                ps.len() == it.index(),
                qs.len() == it.index(),
                out@.len() == it.index(),
                forall|i: int| 0 <= i < ps.len() ==> C::converts(src[i], #[trigger] ps[i]),
                forall|i: int| 0 <= i < ps.len() ==> ps[i].mapped(&#[trigger] qs[i], ref_post),
                forall|i: int|
                    0 <= i < ps.len() ==> <C::Member as Coherent<T, &'a T, U, Tag>>::coheres(
                        &qs[i],
                        &#[trigger] out@[i],
                    ),
        {
            let ghost i = it.index() as int;
            let p = C::convert_ref(x);
            proof {
                self.lemma_ref_member_all(src, i, p, pre);
                p.lemma_all_weaken(|x: &'a T| pre(*x), |x: &'a T| call_requires(f0, (x,)));
            }
            let q = map_member(p, &mut f);
            proof {
                p.lemma_mapped_weaken(&q, |x: &'a T, y: U| call_ensures(f0, (x,), y), ref_post);
                ps = ps.push(p);
                qs = qs.push(q);
            }
            let m = <C::Member as Coherent<T, &'a T, U, Tag>>::cohere(q);
            out.push(m);
        }
        let r = C::from_members(out);
        proof {
            self.lemma_ref_members_mapped(src, ps, qs, out@, &r, post);
        }
        r
    }
}

/// A hash map is a collection of pairs of key and value, each a functor on
/// its value: mapping changes the values and keeps the keys.
impl<K, T, U, S> DerivedMapable<T, U, Comp1> for HashMap<K, T, S> where
    K: Eq + Hash,
    S: BuildHasher + Default,
 {
    type Member = (K, T);

    type Collection = HashMap<K, U, S>;

    open spec fn derived_all(&self, pre: spec_fn(T) -> bool) -> bool {
        if hashes::<K, S>() {
            all_values(self@, pre)
        } else {
            forall|x: T| #[trigger] pre(x)
        }
    }

    open spec fn derived(&self, r: &HashMap<K, U, S>, rel: spec_fn(T, U) -> bool) -> bool {
        hashes::<K, S>() ==> values_related(self@, r@, rel)
    }

    open spec fn lists(&self, s: Seq<(K, T)>) -> bool {
        hashes::<K, S>() ==> lists_entries(self@, s)
    }

    open spec fn collects(s: Seq<(K, U)>, r: &HashMap<K, U, S>) -> bool {
        hashes::<K, S>() ==> r@ == entries_map(s)
    }

    fn into_members(self) -> (v: Vec<(K, T)>) {
        hash_map_into_entries(self)
    }

    fn from_members(v: Vec<(K, U)>) -> (r: HashMap<K, U, S>) {
        hash_map_from_entries(v)
    }

    proof fn lemma_derived_all_weaken(&self, p: spec_fn(T) -> bool, q: spec_fn(T) -> bool) {
        assert forall|x: T| p(x) implies #[trigger] q(x) by {}
    }

    proof fn lemma_derived_weaken(
        &self,
        r: &HashMap<K, U, S>,
        p: spec_fn(T, U) -> bool,
        q: spec_fn(T, U) -> bool,
    ) {
    }

    proof fn lemma_members_all(&self, s: Seq<(K, T)>, pre: spec_fn(T) -> bool) {
        assert forall|i: int| 0 <= i < s.len() implies <(K, T) as TypeMap<T, U, Comp1>>::all(
            &#[trigger] s[i],
            pre,
        ) by {
            if hashes::<K, S>() {
                assert(self@.contains_pair(s[i].0, s[i].1));
            }
        }
    }

    proof fn lemma_members_mapped(
        &self,
        s: Seq<(K, T)>,
        s2: Seq<(K, U)>,
        r: &HashMap<K, U, S>,
        rel: spec_fn(T, U) -> bool,
    ) {
        if hashes::<K, S>() {
            assert forall|i: int| 0 <= i < s.len() implies (#[trigger] s2[i]).0 == s[i].0 && rel(
                s[i].1,
                s2[i].1,
            ) by {
                assert(<(K, T) as TypeMap<T, U, Comp1>>::mapped(&s[i], &s2[i], rel));
            }
            lemma_entries_mapped(self@, s, s2, rel);
        }
    }
}

/// By reference the keys are cloned: the map keeps its own.
impl<'a, K, T: 'a, U, S> DerivedMapableRef<'a, T, U, Comp1> for HashMap<K, T, S> where
    K: Clone + Eq + Hash + 'a,
    S: BuildHasher + Default,
 {
    type MemberRef = (&'a K, &'a T);

    open spec fn ref_derived(&self, r: &HashMap<K, U, S>, rel: spec_fn(T, U) -> bool) -> bool {
        hashes::<K, S>() ==> values_related_by_clone(self@, r@, rel)
    }

    open spec fn ref_lists(&self, s: Seq<(&'a K, &'a T)>) -> bool {
        hashes::<K, S>() ==> lists_entries(self@, pointees(s))
    }

    open spec fn converts(x: (&'a K, &'a T), p: (K, &'a T)) -> bool {
        cloned(*x.0, p.0) && *p.1 == *x.1
    }

    fn ref_members(&'a self) -> (v: Vec<(&'a K, &'a T)>) {
        hash_map_ref_entries(self)
    }

    #[inline]
    fn convert_ref(x: (&'a K, &'a T)) -> (p: (K, &'a T)) {
        (x.0.clone(), x.1)
    }

    proof fn lemma_ref_member_all(
        &self,
        s: Seq<(&'a K, &'a T)>,
        i: int,
        p: (K, &'a T),
        pre: spec_fn(T) -> bool,
    ) {
        if hashes::<K, S>() {
            assert(self@.contains_pair(pointees(s)[i].0, pointees(s)[i].1));
        }
    }

    proof fn lemma_ref_members_mapped(
        &self,
        s: Seq<(&'a K, &'a T)>,
        ps: Seq<(K, &'a T)>,
        qs: Seq<(K, U)>,
        ms: Seq<(K, U)>,
        r: &HashMap<K, U, S>,
        rel: spec_fn(T, U) -> bool,
    ) {
        if hashes::<K, S>() {
            let e = pointees(s);
            assert forall|i: int| 0 <= i < e.len() implies cloned(e[i].0, (#[trigger] ms[i]).0)
                && rel(e[i].1, ms[i].1) by {
                assert(<Self as DerivedMapableRef<'a, T, U, Comp1>>::converts(s[i], ps[i]));
                assert(<(K, &'a T) as TypeMap<&'a T, U, Comp1>>::mapped(
                    &ps[i],
                    &qs[i],
                    |x: &'a T, y: U| rel(*x, y),
                ));
                assert(<(K, T) as Coherent<T, &'a T, U, Comp1>>::coheres(&qs[i], &ms[i]));
            }
            lemma_entries_mapped_by_clone(self@, e, ms, rel);
        }
    }
}

/// The laws of the substitution, for a hash map mapped on its values.
impl<K, T, U, V, S> Coherent<T, U, V, Derived<Comp1>> for HashMap<K, T, S> where
    K: Eq + Hash,
    S: BuildHasher + Default,
 {
    open spec fn coheres(x: &HashMap<K, V, S>, r: &HashMap<K, V, S>) -> bool {
        r@ == x@
    }

    open spec fn injects(x: &HashMap<K, T, S>, r: &HashMap<K, T, S>) -> bool {
        hashes::<K, S>() ==> r@ == x@
    }

    fn cohere(x: HashMap<K, V, S>) -> (r: HashMap<K, V, S>) {
        x
    }

    fn inject(x: HashMap<K, T, S>) -> (r: HashMap<K, T, S>) {
        x
    }

    proof fn identity_law(c: &HashMap<K, T, S>, r: &HashMap<K, T, S>, id: spec_fn(T, T) -> bool) {
        if hashes::<K, S>() {
            assert forall|k: K| c@.contains_key(k) implies r@[k] == c@[k] by {
                assert(id(c@[k], r@[k]));
            }
            assert(r@ =~= c@);
        }
    }

    proof fn composition_law(
        c: &HashMap<K, T, S>,
        m: &HashMap<K, U, S>,
        x: &HashMap<K, V, S>,
        r: &HashMap<K, V, S>,
        p: spec_fn(T, U) -> bool,
        q: spec_fn(U, V) -> bool,
    ) {
        if hashes::<K, S>() {
            assert forall|k: K| #[trigger] c@.contains_key(k) implies followed_by(p, q)(
                c@[k],
                r@[k],
            ) by {
                assert(m@.contains_key(k));
                assert(p(c@[k], m@[k]) && q(m@[k], x@[k]));
            }
        }
    }
}

/// A ordered map is a collection of pairs of key and value, each a functor on
/// its value: mapping changes the values and keeps the keys.
impl<K: Ord, T, U> DerivedMapable<T, U, Comp1> for BTreeMap<K, T> {
    type Member = (K, T);

    type Collection = BTreeMap<K, U>;

    open spec fn derived_all(&self, pre: spec_fn(T) -> bool) -> bool {
        if orders::<K>() {
            all_values(self@, pre)
        } else {
            forall|x: T| #[trigger] pre(x)
        }
    }

    open spec fn derived(&self, r: &BTreeMap<K, U>, rel: spec_fn(T, U) -> bool) -> bool {
        orders::<K>() ==> values_related(self@, r@, rel)
    }

    open spec fn lists(&self, s: Seq<(K, T)>) -> bool {
        orders::<K>() ==> lists_entries_in_order(self@, s)
    }

    open spec fn collects(s: Seq<(K, U)>, r: &BTreeMap<K, U>) -> bool {
        orders::<K>() ==> r@ == entries_map(s)
    }

    fn into_members(self) -> (v: Vec<(K, T)>) {
        btree_map_into_entries(self)
    }

    fn from_members(v: Vec<(K, U)>) -> (r: BTreeMap<K, U>) {
        btree_map_from_entries(v)
    }

    proof fn lemma_derived_all_weaken(&self, p: spec_fn(T) -> bool, q: spec_fn(T) -> bool) {
        assert forall|x: T| p(x) implies #[trigger] q(x) by {}
    }

    proof fn lemma_derived_weaken(
        &self,
        r: &BTreeMap<K, U>,
        p: spec_fn(T, U) -> bool,
        q: spec_fn(T, U) -> bool,
    ) {
    }

    proof fn lemma_members_all(&self, s: Seq<(K, T)>, pre: spec_fn(T) -> bool) {
        assert forall|i: int| 0 <= i < s.len() implies <(K, T) as TypeMap<T, U, Comp1>>::all(
            &#[trigger] s[i],
            pre,
        ) by {
            if orders::<K>() {
                assert(self@.contains_pair(s[i].0, s[i].1));
            }
        }
    }

    proof fn lemma_members_mapped(
        &self,
        s: Seq<(K, T)>,
        s2: Seq<(K, U)>,
        r: &BTreeMap<K, U>,
        rel: spec_fn(T, U) -> bool,
    ) {
        if orders::<K>() {
            assert forall|i: int| 0 <= i < s.len() implies (#[trigger] s2[i]).0 == s[i].0 && rel(
                s[i].1,
                s2[i].1,
            ) by {
                assert(<(K, T) as TypeMap<T, U, Comp1>>::mapped(&s[i], &s2[i], rel));
            }
            lemma_entries_mapped(self@, s, s2, rel);
        }
    }
}

/// By reference the keys are cloned: the map keeps its own.
impl<'a, K: Clone + Ord + 'a, T: 'a, U> DerivedMapableRef<'a, T, U, Comp1> for BTreeMap<K, T> {
    type MemberRef = (&'a K, &'a T);

    open spec fn ref_derived(&self, r: &BTreeMap<K, U>, rel: spec_fn(T, U) -> bool) -> bool {
        orders::<K>() ==> values_related_by_clone(self@, r@, rel)
    }

    open spec fn ref_lists(&self, s: Seq<(&'a K, &'a T)>) -> bool {
        orders::<K>() ==> lists_entries_in_order(self@, pointees(s))
    }

    open spec fn converts(x: (&'a K, &'a T), p: (K, &'a T)) -> bool {
        cloned(*x.0, p.0) && *p.1 == *x.1
    }

    fn ref_members(&'a self) -> (v: Vec<(&'a K, &'a T)>) {
        btree_map_ref_entries(self)
    }

    #[inline]
    fn convert_ref(x: (&'a K, &'a T)) -> (p: (K, &'a T)) {
        (x.0.clone(), x.1)
    }

    proof fn lemma_ref_member_all(
        &self,
        s: Seq<(&'a K, &'a T)>,
        i: int,
        p: (K, &'a T),
        pre: spec_fn(T) -> bool,
    ) {
        if orders::<K>() {
            assert(self@.contains_pair(pointees(s)[i].0, pointees(s)[i].1));
        }
    }

    proof fn lemma_ref_members_mapped(
        &self,
        s: Seq<(&'a K, &'a T)>,
        ps: Seq<(K, &'a T)>,
        qs: Seq<(K, U)>,
        ms: Seq<(K, U)>,
        r: &BTreeMap<K, U>,
        rel: spec_fn(T, U) -> bool,
    ) {
        if orders::<K>() {
            let e = pointees(s);
            assert forall|i: int| 0 <= i < e.len() implies cloned(e[i].0, (#[trigger] ms[i]).0)
                && rel(e[i].1, ms[i].1) by {
                assert(<Self as DerivedMapableRef<'a, T, U, Comp1>>::converts(s[i], ps[i]));
                assert(<(K, &'a T) as TypeMap<&'a T, U, Comp1>>::mapped(
                    &ps[i],
                    &qs[i],
                    |x: &'a T, y: U| rel(*x, y),
                ));
                assert(<(K, T) as Coherent<T, &'a T, U, Comp1>>::coheres(&qs[i], &ms[i]));
            }
            lemma_entries_mapped_by_clone(self@, e, ms, rel);
        }
    }
}

/// The laws of the substitution, for a ordered map mapped on its values.
impl<K: Ord, T, U, V> Coherent<T, U, V, Derived<Comp1>> for BTreeMap<K, T> {
    open spec fn coheres(x: &BTreeMap<K, V>, r: &BTreeMap<K, V>) -> bool {
        r@ == x@
    }

    open spec fn injects(x: &BTreeMap<K, T>, r: &BTreeMap<K, T>) -> bool {
        orders::<K>() ==> r@ == x@
    }

    fn cohere(x: BTreeMap<K, V>) -> (r: BTreeMap<K, V>) {
        x
    }

    fn inject(x: BTreeMap<K, T>) -> (r: BTreeMap<K, T>) {
        x
    }

    proof fn identity_law(c: &BTreeMap<K, T>, r: &BTreeMap<K, T>, id: spec_fn(T, T) -> bool) {
        if orders::<K>() {
            assert forall|k: K| c@.contains_key(k) implies r@[k] == c@[k] by {
                assert(id(c@[k], r@[k]));
            }
            assert(r@ =~= c@);
        }
    }

    proof fn composition_law(
        c: &BTreeMap<K, T>,
        m: &BTreeMap<K, U>,
        x: &BTreeMap<K, V>,
        r: &BTreeMap<K, V>,
        p: spec_fn(T, U) -> bool,
        q: spec_fn(U, V) -> bool,
    ) {
        if orders::<K>() {
            assert forall|k: K| #[trigger] c@.contains_key(k) implies followed_by(p, q)(
                c@[k],
                r@[k],
            ) by {
                assert(m@.contains_key(k));
                assert(p(c@[k], m@[k]) && q(m@[k], x@[k]));
            }
        }
    }
}

} // verus!
