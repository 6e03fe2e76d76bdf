//! Bifunctors: containers with slots of two types, each retyped by its own
//! transform.
//!
//! A bifunctor is also a functor on either kind of slot alone, the other
//! kind held fixed: [`Proj0`] and [`Proj1`] pick the kind that is mapped.
use crate::functor::{followed_by, Coherent, Functor, FunctorOnce, TypeMap};
use std::marker::PhantomData;
use vstd::prelude::*;

verus! {

/// The substitution of two element types at once, for the container kind
/// that `Tag` picks.
///
/// `Self` carries slots of type `A` and slots of type `B`; `Self::BiFunctor`
/// is the same container with the former retyped to `T` and the latter to
/// `U`.
pub trait BiTypeMap<A, B, T, U, Tag = ()>: Sized {
    /// `Self` with its slots retyped to `T` and `U`.
    type BiFunctor;

    /// `pa` holds of every slot of the first kind and `pb` of every slot of
    /// the second.
    spec fn bi_all(&self, pa: spec_fn(A) -> bool, pb: spec_fn(B) -> bool) -> bool;

    /// `r` has the shape of `self`; `ra` relates each slot of the first
    /// kind of `self` to the slot of `r` in its place, and `rb` each slot of
    /// the second kind.
    spec fn bimapped(
        &self,
        r: &Self::BiFunctor,
        ra: spec_fn(A, T) -> bool,
        rb: spec_fn(B, U) -> bool,
    ) -> bool;

    /// What holds of every slot under `pa` and `pb` holds under any weaker
    /// `qa` and `qb`.
    proof fn lemma_bi_all_weaken(
        &self,
        pa: spec_fn(A) -> bool,
        pb: spec_fn(B) -> bool,
        qa: spec_fn(A) -> bool,
        qb: spec_fn(B) -> bool,
    )
        requires
            self.bi_all(pa, pb),
            forall|x: A| #[trigger] pa(x) ==> qa(x),
            forall|x: B| #[trigger] pb(x) ==> qb(x),
        ensures
            self.bi_all(qa, qb),
    ;

    /// A container mapped under `pa` and `pb` is mapped under any weaker
    /// `qa` and `qb`.
    proof fn lemma_bimapped_weaken(
        &self,
        r: &Self::BiFunctor,
        pa: spec_fn(A, T) -> bool,
        pb: spec_fn(B, U) -> bool,
        qa: spec_fn(A, T) -> bool,
        qb: spec_fn(B, U) -> bool,
    )
        requires
            self.bimapped(r, pa, pb),
            forall|x: A, y: T| #[trigger] pa(x, y) ==> qa(x, y),
            forall|x: B, y: U| #[trigger] pb(x, y) ==> qb(x, y),
        ensures
            self.bimapped(r, qa, qb),
    ;
}

/// A bifunctor whose mapping consumes the container.
pub trait BiFunctorOnce<A, B, T, U, Tag = ()>: BiTypeMap<A, B, T, U, Tag> {
    /// Hands every slot of the first kind to `f` and every slot of the
    /// second kind to `g`, and puts what they return in its place. The map
    /// uses `f` and `g` up: what they borrowed is free again when it returns.
    fn into_fmap2<F: FnMut(A) -> T, G: FnMut(B) -> U>(self, f: F, g: G) -> (r: Self::BiFunctor)
        requires
            self.bi_all(|x: A| call_requires(f, (x,)), |x: B| call_requires(g, (x,))),
        ensures
            self.bimapped(
                &r,
                |x: A, y: T| call_ensures(f, (x,), y),
                |x: B, y: U| call_ensures(g, (x,), y),
            ),
            has_resolved(f),
            has_resolved(g),
    ;
}

/// A bifunctor whose mapping borrows the container.
pub trait BiFunctor<A, B, T, U, Tag = ()>: BiTypeMap<A, B, T, U, Tag> {
    /// Shows every slot of the first kind to `f` and every slot of the
    /// second kind to `g`, and builds a container of what they return. The
    /// map uses `f` and `g` up: what they borrowed is free again when it
    /// returns.
    fn fmap2<F: FnMut(&A) -> T, G: FnMut(&B) -> U>(&self, f: F, g: G) -> (r: Self::BiFunctor)
        requires
            self.bi_all(|x: A| call_requires(f, (&x,)), |x: B| call_requires(g, (&x,))),
        ensures
            self.bimapped(
                &r,
                |x: A, y: T| call_ensures(f, (&x,), y),
                |x: B, y: U| call_ensures(g, (&x,), y),
            ),
            has_resolved(f),
            has_resolved(g),
    ;
}

/// A bifunctor whose mapping may change the container's slots in place.
pub trait BiFunctorMut<A, B, T, U, Tag = ()>: BiTypeMap<A, B, T, U, Tag> {
    /// `after` and `r` have the shape of `self`; in each place of the first
    /// kind `ra` relates the slot of `self`, that of `after` and that of
    /// `r`, and in each place of the second kind `rb` does.
    spec fn mut_bimapped(
        &self,
        after: &Self,
        r: &Self::BiFunctor,
        ra: spec_fn(A, A, T) -> bool,
        rb: spec_fn(B, B, U) -> bool,
    ) -> bool;

    /// Lends every slot of the first kind to `f` and every slot of the
    /// second kind to `g`, which may change it, and builds a container of
    /// what they return.
    fn mut_fmap2<F: FnMut(&mut A) -> T, G: FnMut(&mut B) -> U>(&mut self, f: F, g: G) -> (r:
        Self::BiFunctor)
        requires
            old(self).bi_all(
                |x: A| forall|m: &mut A| *m == x ==> call_requires(f, (m,)),
                |x: B| forall|m: &mut B| *m == x ==> call_requires(g, (m,)),
            ),
        ensures
            old(self).mut_bimapped(
                final(self),
                &r,
                |x: A, x2: A, y: T|
                    exists|m: &mut A| *m == x && *final(m) == x2 && call_ensures(f, (m,), y),
                |x: B, x2: B, y: U|
                    exists|m: &mut B| *m == x && *final(m) == x2 && call_ensures(g, (m,), y),
            ),
    ;
}

/// A pair is a bifunctor: one slot of each kind.
impl<A, B, T, U> BiTypeMap<A, B, T, U> for (A, B) {
    type BiFunctor = (T, U);

    open spec fn bi_all(&self, pa: spec_fn(A) -> bool, pb: spec_fn(B) -> bool) -> bool {
        pa(self.0) && pb(self.1)
    }

    open spec fn bimapped(
        &self,
        r: &(T, U),
        ra: spec_fn(A, T) -> bool,
        rb: spec_fn(B, U) -> bool,
    ) -> bool {
        ra(self.0, r.0) && rb(self.1, r.1)
    }

    proof fn lemma_bi_all_weaken(
        &self,
        pa: spec_fn(A) -> bool,
        pb: spec_fn(B) -> bool,
        qa: spec_fn(A) -> bool,
        qb: spec_fn(B) -> bool,
    ) {
    }

    proof fn lemma_bimapped_weaken(
        &self,
        r: &(T, U),
        pa: spec_fn(A, T) -> bool,
        pb: spec_fn(B, U) -> bool,
        qa: spec_fn(A, T) -> bool,
        qb: spec_fn(B, U) -> bool,
    ) {
    }
}

impl<A, B, T, U> BiFunctorOnce<A, B, T, U> for (A, B) {
    fn into_fmap2<F: FnMut(A) -> T, G: FnMut(B) -> U>(self, mut f: F, mut g: G) -> (r: (T, U)) {
        (f(self.0), g(self.1))
    }
}

impl<A, B, T, U> BiFunctor<A, B, T, U> for (A, B) {
    fn fmap2<F: FnMut(&A) -> T, G: FnMut(&B) -> U>(&self, mut f: F, mut g: G) -> (r: (T, U)) {
        (f(&self.0), g(&self.1))
    }
}

impl<A, B, T, U> BiFunctorMut<A, B, T, U> for (A, B) {
    open spec fn mut_bimapped(
        &self,
        after: &(A, B),
        r: &(T, U),
        ra: spec_fn(A, A, T) -> bool,
        rb: spec_fn(B, B, U) -> bool,
    ) -> bool {
        ra(self.0, after.0, r.0) && rb(self.1, after.1, r.1)
    }

    fn mut_fmap2<F: FnMut(&mut A) -> T, G: FnMut(&mut B) -> U>(
        &mut self,
        mut f: F,
        mut g: G,
    ) -> (r: (T, U)) {
        let t = f(&mut self.0);
        let u = g(&mut self.1);
        (t, u)
    }
}

/// Marks the first kind of slot of a bifunctor as the one that is mapped;
/// the second kind, of type `B`, is held fixed.
pub struct Proj0<B>(PhantomData<B>);

/// Marks the second kind of slot of a bifunctor as the one that is mapped;
/// the first kind, of type `A`, is held fixed.
pub struct Proj1<A>(PhantomData<A>);

/// A bifunctor is a functor on its first kind of slot: mapping it is mapping
/// both kinds, the second by the identity.
impl<A, B, T, C: BiTypeMap<A, B, T, B>> TypeMap<A, T, Proj0<B>> for C {
    type Functor = C::BiFunctor;

    open spec fn all(&self, pre: spec_fn(A) -> bool) -> bool {
        self.bi_all(pre, |y: B| true)
    }

    open spec fn mapped(&self, r: &C::BiFunctor, rel: spec_fn(A, T) -> bool) -> bool {
        self.bimapped(r, rel, |y: B, y2: B| y2 == y)
    }

    proof fn lemma_all_weaken(&self, p: spec_fn(A) -> bool, q: spec_fn(A) -> bool) {
        self.lemma_bi_all_weaken(p, |y: B| true, q, |y: B| true);
    }

    proof fn lemma_mapped_weaken(
        &self,
        r: &C::BiFunctor,
        p: spec_fn(A, T) -> bool,
        q: spec_fn(A, T) -> bool,
    ) {
        self.lemma_bimapped_weaken(r, p, |y: B, y2: B| y2 == y, q, |y: B, y2: B| y2 == y);
    }
}

impl<A, B, T, C: BiFunctorOnce<A, B, T, B>> FunctorOnce<A, T, Proj0<B>> for C {
    fn into_fmap<F: FnMut(A) -> T>(self, f: F) -> (r: C::BiFunctor) {
        let keep = |y: B| -> (y2: B)
            ensures
                y2 == y,
            {
                y
            };
        proof {
            self.lemma_bi_all_weaken(
                |x: A| call_requires(f, (x,)),
                |y: B| true,
                |x: A| call_requires(f, (x,)),
                |y: B| call_requires(keep, (y,)),
            );
        }
        let r = self.into_fmap2(f, keep);
        proof {
            self.lemma_bimapped_weaken(
                &r,
                |x: A, y: T| call_ensures(f, (x,), y),
                |y: B, y2: B| call_ensures(keep, (y,), y2),
                |x: A, y: T| call_ensures(f, (x,), y),
                |y: B, y2: B| y2 == y,
            );
        }
        r
    }
}

/// By reference the slots that are held fixed are cloned.
impl<'a, A: 'a, B: Clone, T, C: BiFunctor<A, B, T, B>> Functor<'a, A, T, Proj0<B>> for C {
    open spec fn ref_mapped(&self, r: &C::BiFunctor, rel: spec_fn(A, T) -> bool) -> bool {
        self.bimapped(r, rel, |y: B, y2: B| cloned(y, y2))
    }

    fn fmap<F: FnMut(&A) -> T>(&'a self, f: F) -> (r: C::BiFunctor) {
        let keep = |y: &B| -> (y2: B)
            ensures
                cloned(*y, y2),
            {
                y.clone()
            };
        proof {
            self.lemma_bi_all_weaken(
                |x: A| call_requires(f, (&x,)),
                |y: B| true,
                |x: A| call_requires(f, (&x,)),
                |y: B| call_requires(keep, (&y,)),
            );
        }
        let r = self.fmap2(f, keep);
        proof {
            self.lemma_bimapped_weaken(
                &r,
                |x: A, y: T| call_ensures(f, (&x,), y),
                |y: B, y2: B| call_ensures(keep, (&y,), y2),
                |x: A, y: T| call_ensures(f, (&x,), y),
                |y: B, y2: B| cloned(y, y2),
            );
        }
        r
    }
}

/// A bifunctor is a functor on its second kind of slot: mapping it is
/// mapping both kinds, the first by the identity.
impl<A, B, T, C: BiTypeMap<A, B, A, T>> TypeMap<B, T, Proj1<A>> for C {
    type Functor = C::BiFunctor;

    open spec fn all(&self, pre: spec_fn(B) -> bool) -> bool {
        self.bi_all(|x: A| true, pre)
    }

    open spec fn mapped(&self, r: &C::BiFunctor, rel: spec_fn(B, T) -> bool) -> bool {
        self.bimapped(r, |x: A, x2: A| x2 == x, rel)
    }

    proof fn lemma_all_weaken(&self, p: spec_fn(B) -> bool, q: spec_fn(B) -> bool) {
        self.lemma_bi_all_weaken(|x: A| true, p, |x: A| true, q);
    }

    proof fn lemma_mapped_weaken(
        &self,
        r: &C::BiFunctor,
        p: spec_fn(B, T) -> bool,
        q: spec_fn(B, T) -> bool,
    ) {
        self.lemma_bimapped_weaken(r, |x: A, x2: A| x2 == x, p, |x: A, x2: A| x2 == x, q);
    }
}

impl<A, B, T, C: BiFunctorOnce<A, B, A, T>> FunctorOnce<B, T, Proj1<A>> for C {
    fn into_fmap<F: FnMut(B) -> T>(self, f: F) -> (r: C::BiFunctor) {
        let keep = |x: A| -> (x2: A)
            ensures
                x2 == x,
            {
                x
            };
        proof {
            self.lemma_bi_all_weaken(
                |x: A| true,
                |y: B| call_requires(f, (y,)),
                |x: A| call_requires(keep, (x,)),
                |y: B| call_requires(f, (y,)),
            );
        }
        let r = self.into_fmap2(keep, f);
        proof {
            self.lemma_bimapped_weaken(
                &r,
                |x: A, x2: A| call_ensures(keep, (x,), x2),
                |y: B, z: T| call_ensures(f, (y,), z),
                |x: A, x2: A| x2 == x,
                |y: B, z: T| call_ensures(f, (y,), z),
            );
        }
        r
    }
}

/// By reference the slots that are held fixed are cloned.
impl<'a, A: Clone, B: 'a, T, C: BiFunctor<A, B, A, T>> Functor<'a, B, T, Proj1<A>> for C {
    open spec fn ref_mapped(&self, r: &C::BiFunctor, rel: spec_fn(B, T) -> bool) -> bool {
        self.bimapped(r, |x: A, x2: A| cloned(x, x2), rel)
    }

    fn fmap<F: FnMut(&B) -> T>(&'a self, f: F) -> (r: C::BiFunctor) {
        let keep = |x: &A| -> (x2: A)
            ensures
                cloned(*x, x2),
            {
                x.clone()
            };
        proof {
            self.lemma_bi_all_weaken(
                |x: A| true,
                |y: B| call_requires(f, (&y,)),
                |x: A| call_requires(keep, (&x,)),
                |y: B| call_requires(f, (&y,)),
            );
        }
        let r = self.fmap2(keep, f);
        proof {
            self.lemma_bimapped_weaken(
                &r,
                |x: A, x2: A| call_ensures(keep, (&x,), x2),
                |y: B, z: T| call_ensures(f, (&y,), z),
                |x: A, x2: A| cloned(x, x2),
                |y: B, z: T| call_ensures(f, (&y,), z),
            );
        }
        r
    }
}

/// The two laws of a substitution of two element types, and the conversions
/// that stand for the type equalities behind them.
///
/// Going from `A`, `B` to `S`, `T` and on to `U`, `V` gives the type that
/// going to `U`, `V` directly gives, and going from `A`, `B` to `A`, `B`
/// gives `Self`; `cohere` and `inject` carry a value across, and hand their
/// argument back as it is.
pub trait BiCoherent<A, B, S, T, U, V, Tag = ()>: BiTypeMap<A, B, S, T, Tag> + BiTypeMap<
    A,
    B,
    U,
    V,
    Tag,
> + BiTypeMap<A, B, A, B, Tag> where
    <Self as BiTypeMap<A, B, S, T, Tag>>::BiFunctor: BiTypeMap<S, T, U, V, Tag>,
 {
    /// `r` is `x`, seen at the type that the direct substitution gives.
    spec fn bi_coheres(
        x: &<<Self as BiTypeMap<A, B, S, T, Tag>>::BiFunctor as BiTypeMap<S, T, U, V, Tag>>::BiFunctor,
        r: &<Self as BiTypeMap<A, B, U, V, Tag>>::BiFunctor,
    ) -> bool;

    /// The identity, from the type reached in two steps to the type reached
    /// in one.
    fn cohere(
        x: <<Self as BiTypeMap<A, B, S, T, Tag>>::BiFunctor as BiTypeMap<S, T, U, V, Tag>>::BiFunctor,
    ) -> (r: <Self as BiTypeMap<A, B, U, V, Tag>>::BiFunctor)
        ensures
            Self::bi_coheres(&x, &r),
    ;

    /// `r` is `x`, seen at the type that substituting `A`, `B` for `A`, `B`
    /// gives.
    spec fn bi_injects(x: &Self, r: &<Self as BiTypeMap<A, B, A, B, Tag>>::BiFunctor) -> bool;

    /// The identity, from `Self` to what substituting `A`, `B` for `A`, `B`
    /// gives.
    fn inject(x: Self) -> (r: <Self as BiTypeMap<A, B, A, B, Tag>>::BiFunctor)
        ensures
            Self::bi_injects(&x, &r),
    ;

    /// Identity law: a container mapped by two transforms that return their
    /// argument is the container itself.
    proof fn identity_law(
        c: &Self,
        r: &<Self as BiTypeMap<A, B, A, B, Tag>>::BiFunctor,
        ida: spec_fn(A, A) -> bool,
        idb: spec_fn(B, B) -> bool,
    )
        requires
            <Self as BiTypeMap<A, B, A, B, Tag>>::bimapped(c, r, ida, idb),
            forall|x: A, y: A| #[trigger] ida(x, y) ==> y == x,
            forall|x: B, y: B| #[trigger] idb(x, y) ==> y == x,
        ensures
            Self::bi_injects(c, r),
    ;

    /// Composition law: mapping by `pa`, `pb` and then by `qa`, `qb` is
    /// mapping once by `pa` followed by `qa` and `pb` followed by `qb`.
    proof fn composition_law(
        c: &Self,
        m: &<Self as BiTypeMap<A, B, S, T, Tag>>::BiFunctor,
        x: &<<Self as BiTypeMap<A, B, S, T, Tag>>::BiFunctor as BiTypeMap<S, T, U, V, Tag>>::BiFunctor,
        r: &<Self as BiTypeMap<A, B, U, V, Tag>>::BiFunctor,
        pa: spec_fn(A, S) -> bool,
        pb: spec_fn(B, T) -> bool,
        qa: spec_fn(S, U) -> bool,
        qb: spec_fn(T, V) -> bool,
    )
        requires
            <Self as BiTypeMap<A, B, S, T, Tag>>::bimapped(c, m, pa, pb),
            m.bimapped(x, qa, qb),
            Self::bi_coheres(x, r),
        ensures
            <Self as BiTypeMap<A, B, U, V, Tag>>::bimapped(
                c,
                r,
                followed_by(pa, qa),
                followed_by(pb, qb),
            ),
    ;
}

impl<A, B, S, T, U, V> BiCoherent<A, B, S, T, U, V> for (A, B) {
    open spec fn bi_coheres(x: &(U, V), r: &(U, V)) -> bool {
        *r == *x
    }

    open spec fn bi_injects(x: &(A, B), r: &(A, B)) -> bool {
        *r == *x
    }

    fn cohere(x: (U, V)) -> (r: (U, V)) {
        x
    }

    fn inject(x: (A, B)) -> (r: (A, B)) {
        x
    }

    proof fn identity_law(
        c: &(A, B),
        r: &(A, B),
        ida: spec_fn(A, A) -> bool,
        idb: spec_fn(B, B) -> bool,
    ) {
    }

    proof fn composition_law(
        c: &(A, B),
        m: &(S, T),
        x: &(U, V),
        r: &(U, V),
        pa: spec_fn(A, S) -> bool,
        pb: spec_fn(B, T) -> bool,
        qa: spec_fn(S, U) -> bool,
        qb: spec_fn(T, V) -> bool,
    ) {
    }
}

/// The laws of the substitution, for a pair mapped on its first component
/// by way of the bifunctor.
impl<A, B, M, N> Coherent<A, M, N, Proj0<B>> for (A, B) {
    open spec fn coheres(x: &(N, B), r: &(N, B)) -> bool {
        *r == *x
    }

    open spec fn injects(x: &(A, B), r: &(A, B)) -> bool {
        *r == *x
    }

    fn cohere(x: (N, B)) -> (r: (N, B)) {
        x
    }

    fn inject(x: (A, B)) -> (r: (A, B)) {
        x
    }

    proof fn identity_law(c: &(A, B), r: &(A, B), id: spec_fn(A, A) -> bool) {
    }

    proof fn composition_law(
        c: &(A, B),
        m: &(M, B),
        x: &(N, B),
        r: &(N, B),
        p: spec_fn(A, M) -> bool,
        q: spec_fn(M, N) -> bool,
    ) {
    }
}

/// The laws of the substitution, for a pair mapped on its second component
/// by way of the bifunctor.
impl<A, B, M, N> Coherent<B, M, N, Proj1<A>> for (A, B) {
    open spec fn coheres(x: &(A, N), r: &(A, N)) -> bool {
        *r == *x
    }

    open spec fn injects(x: &(A, B), r: &(A, B)) -> bool {
        *r == *x
    }

    fn cohere(x: (A, N)) -> (r: (A, N)) {
        x
    }

    fn inject(x: (A, B)) -> (r: (A, B)) {
        x
    }

    proof fn identity_law(c: &(A, B), r: &(A, B), id: spec_fn(B, B) -> bool) {
    }

    proof fn composition_law(
        c: &(A, B),
        m: &(A, M),
        x: &(A, N),
        r: &(A, N),
        p: spec_fn(B, M) -> bool,
        q: spec_fn(M, N) -> bool,
    ) {
    }
}

} // verus!
