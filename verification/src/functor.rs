//! Functors: containers whose slots of one type can be retyped by a transform.
//!
//! A container kind declares once, in [`TypeMap`], what it becomes when its
//! `T` slots are retyped to `U`, and what it means for a container of the new
//! type to be *the old one mapped*: same shape, each new slot related to the
//! old slot in the same place. The three families of map operations
//! ([`FunctorOnce`], [`Functor`], [`FunctorMut`]) state their results through
//! that relation, applied to the caller's transform.
use vstd::prelude::*;

verus! {

/// The substitution of element types, for the container kind that `Tag` picks.
///
/// `Self` carries slots of type `T`; `Self::Functor` is the same container
/// with those slots retyped to `U`. `Tag` tells apart the several ways in
/// which one type can be a container (a pair carries a slot on either side).
///
/// A substitution is expected to give `Self` back when `U` is `T`, and to give
/// the same type whether one goes from `T` to `V` directly or by way of `U`.
/// [`Coherent`] states both, with the laws that go with them.
pub trait TypeMap<T, U, Tag = ()>: Sized {
    /// `Self` with its slots retyped to `U`.
    type Functor;

    /// `pre` holds of every slot of `self`.
    spec fn all(&self, pre: spec_fn(T) -> bool) -> bool;

    /// `r` has the shape of `self`, whatever `self` holds beside its slots is
    /// unchanged in `r`, and each slot of `r` is related by `rel` to the slot
    /// of `self` in the same place.
    spec fn mapped(&self, r: &Self::Functor, rel: spec_fn(T, U) -> bool) -> bool;

    /// What holds of every slot under `p` holds under any weaker `q`.
    proof fn lemma_all_weaken(&self, p: spec_fn(T) -> bool, q: spec_fn(T) -> bool)
        requires
            self.all(p),
            forall|x: T| #[trigger] p(x) ==> q(x),
        ensures
            self.all(q),
    ;

    /// A container mapped under `p` is mapped under any weaker `q`.
    proof fn lemma_mapped_weaken(
        &self,
        r: &Self::Functor,
        p: spec_fn(T, U) -> bool,
        q: spec_fn(T, U) -> bool,
    )
        requires
            self.mapped(r, p),
            forall|x: T, y: U| #[trigger] p(x, y) ==> q(x, y),
        ensures
            self.mapped(r, q),
    ;
}

/// A functor whose mapping consumes the container.
pub trait FunctorOnce<T, U, Tag = ()>: TypeMap<T, U, Tag> {
    /// Hands every slot to `f` and puts what `f` returns in its place. The
    /// map uses `f` up: what `f` borrowed is free again when it returns.
    fn into_fmap<F: FnMut(T) -> U>(self, f: F) -> (r: Self::Functor)
        requires
            self.all(|x: T| call_requires(f, (x,))),
        ensures
            self.mapped(&r, |x: T, y: U| call_ensures(f, (x,), y)),
            has_resolved(f),
    ;
}

/// A functor whose mapping borrows the container.
pub trait Functor<'a, T: 'a, U, Tag = ()>: TypeMap<T, U, Tag> {
    /// As [`TypeMap::mapped`], for a result built while `self` is only
    /// borrowed: what `self` holds beside its slots cannot be moved into `r`,
    /// so `r` holds a clone of it.
    spec fn ref_mapped(&self, r: &Self::Functor, rel: spec_fn(T, U) -> bool) -> bool;

    /// Shows every slot to `f` and builds a container of what `f` returns.
    /// The map uses `f` up: what `f` borrowed is free again when it returns.
    fn fmap<F: FnMut(&T) -> U>(&'a self, f: F) -> (r: Self::Functor)
        requires
            self.all(|x: T| call_requires(f, (&x,))),
        ensures
            self.ref_mapped(&r, |x: T, y: U| call_ensures(f, (&x,), y)),
            has_resolved(f),
    ;
}

/// A functor whose mapping may change the container's slots in place.
pub trait FunctorMut<'a, T: 'a, U, Tag = ()>: TypeMap<T, U, Tag> {
    /// `after` has the shape of `self` and `r` has it too; in each place
    /// `rel` relates the slot of `self`, the slot of `after` and the slot of
    /// `r`.
    spec fn mut_mapped(
        &self,
        after: &Self,
        r: &Self::Functor,
        rel: spec_fn(T, T, U) -> bool,
    ) -> bool;

    /// Lends every slot to `f`, which may change it, and builds a container
    /// of what `f` returns.
    ///
    /// In each place, the slot afterwards is the one `f` left behind when it
    /// was lent the slot as it was before, and the slot of the result is what
    /// that call returned: whether the result shows the slot before or after
    /// the change is for `f` to decide.
    fn fmap_mut<F: FnMut(&mut T) -> U>(&'a mut self, f: F) -> (r: Self::Functor)
        requires
            old(self).all(|x: T| forall|m: &mut T| *m == x ==> call_requires(f, (m,))),
        ensures
            old(self).mut_mapped(
                final(self),
                &r,
                |x: T, x2: T, y: U|
                    exists|m: &mut T| *m == x && *final(m) == x2 && call_ensures(f, (m,), y),
            ),
    ;
}

/// The two laws of a substitution, and the conversions that stand for the
/// type equalities behind them.
///
/// Going from `T` to `U` and on to `V` gives the type that going from `T` to
/// `V` gives, and going from `T` to `T` gives `Self`. Code that reaches a
/// container through two layers of substitution cannot see either equality;
/// `cohere` and `inject` carry a value across. Both hand their argument back
/// as it is.
pub trait Coherent<T, U, V, Tag = ()>: TypeMap<T, U, Tag> + TypeMap<T, V, Tag> + TypeMap<
    T,
    T,
    Tag,
> where <Self as TypeMap<T, U, Tag>>::Functor: TypeMap<U, V, Tag> {
    /// `r` is `x`, seen at the type that the direct substitution gives.
    spec fn coheres(
        x: &<<Self as TypeMap<T, U, Tag>>::Functor as TypeMap<U, V, Tag>>::Functor,
        r: &<Self as TypeMap<T, V, Tag>>::Functor,
    ) -> bool;

    /// `r` is `x`, seen at the type that substituting `T` for `T` gives.
    spec fn injects(x: &Self, r: &<Self as TypeMap<T, T, Tag>>::Functor) -> bool;

    /// The identity, from the type reached in two steps to the type reached
    /// in one.
    fn cohere(
        x: <<Self as TypeMap<T, U, Tag>>::Functor as TypeMap<U, V, Tag>>::Functor,
    ) -> (r: <Self as TypeMap<T, V, Tag>>::Functor)
        ensures
            Self::coheres(&x, &r),
    ;

    /// The identity, from `Self` to what substituting `T` for `T` gives.
    fn inject(x: Self) -> (r: <Self as TypeMap<T, T, Tag>>::Functor)
        ensures
            Self::injects(&x, &r),
    ;

    /// Identity law: a container mapped by a transform that returns its
    /// argument is the container itself.
    proof fn identity_law(
        c: &Self,
        r: &<Self as TypeMap<T, T, Tag>>::Functor,
        id: spec_fn(T, T) -> bool,
    )
        requires
            <Self as TypeMap<T, T, Tag>>::mapped(c, r, id),
            forall|x: T, y: T| #[trigger] id(x, y) ==> y == x,
        ensures
            Self::injects(c, r),
    ;

    /// Composition law: mapping by `p` and then by `q` is mapping once by
    /// `p` followed by `q`.
    proof fn composition_law(
        c: &Self,
        m: &<Self as TypeMap<T, U, Tag>>::Functor,
        x: &<<Self as TypeMap<T, U, Tag>>::Functor as TypeMap<U, V, Tag>>::Functor,
        r: &<Self as TypeMap<T, V, Tag>>::Functor,
        p: spec_fn(T, U) -> bool,
        q: spec_fn(U, V) -> bool,
    )
        requires
            <Self as TypeMap<T, U, Tag>>::mapped(c, m, p),
            m.mapped(x, q),
            Self::coheres(x, r),
        ensures
            <Self as TypeMap<T, V, Tag>>::mapped(c, r, followed_by(p, q)),
    ;
}

/// The relation `p` followed by `q`: `x` is related to `z` where some `y`
/// stands between them.
pub open spec fn followed_by<T, U, V>(p: spec_fn(T, U) -> bool, q: spec_fn(U, V) -> bool) -> spec_fn(
    T,
    V,
) -> bool {
    |x: T, z: V| exists|y: U| #[trigger] p(x, y) && q(y, z)
}

/// An optional value is a container of no slot or one.
impl<T, U> TypeMap<T, U> for Option<T> {
    type Functor = Option<U>;

    open spec fn all(&self, pre: spec_fn(T) -> bool) -> bool {
        *self matches Some(x) ==> pre(x)
    }

    open spec fn mapped(&self, r: &Option<U>, rel: spec_fn(T, U) -> bool) -> bool {
        match (*self, *r) {
            (Some(x), Some(y)) => rel(x, y),
            (None, None) => true,
            _ => false,
        }
    }

    proof fn lemma_all_weaken(&self, p: spec_fn(T) -> bool, q: spec_fn(T) -> bool) {
    }

    proof fn lemma_mapped_weaken(
        &self,
        r: &Option<U>,
        p: spec_fn(T, U) -> bool,
        q: spec_fn(T, U) -> bool,
    ) {
    }
}

/// An absent value maps to an absent value, and `f` is not called.
impl<T, U> FunctorOnce<T, U> for Option<T> {
    fn into_fmap<F: FnMut(T) -> U>(self, mut f: F) -> (r: Option<U>) {
        match self {
            Some(x) => Some(f(x)),
            None => None,
        }
    }
}

impl<'a, T: 'a, U> Functor<'a, T, U> for Option<T> {
    open spec fn ref_mapped(&self, r: &Option<U>, rel: spec_fn(T, U) -> bool) -> bool {
        self.mapped(r, rel)
    }

    fn fmap<F: FnMut(&T) -> U>(&'a self, mut f: F) -> (r: Option<U>) {
        match self {
            Some(x) => Some(f(x)),
            None => None,
        }
    }
}

impl<'a, T: 'a, U> FunctorMut<'a, T, U> for Option<T> {
    open spec fn mut_mapped(
        &self,
        after: &Self,
        r: &Option<U>,
        rel: spec_fn(T, T, U) -> bool,
    ) -> bool {
        match (*self, *after, *r) {
            (Some(x), Some(x2), Some(y)) => rel(x, x2, y),
            (None, None, None) => true,
            _ => false,
        }
    }

    fn fmap_mut<F: FnMut(&mut T) -> U>(&'a mut self, mut f: F) -> (r: Option<U>) {
        match self {
            Some(x) => Some(f(x)),
            None => None,
        }
    }
}

impl<T, U, V> Coherent<T, U, V> for Option<T> {
    open spec fn coheres(x: &Option<V>, r: &Option<V>) -> bool {
        *r == *x
    }

    open spec fn injects(x: &Option<T>, r: &Option<T>) -> bool {
        *r == *x
    }

    fn cohere(x: Option<V>) -> (r: Option<V>) {
        x
    }

    fn inject(x: Option<T>) -> (r: Option<T>) {
        x
    }

    proof fn identity_law(c: &Option<T>, r: &Option<T>, id: spec_fn(T, T) -> bool) {
    }

    proof fn composition_law(
        c: &Option<T>,
        m: &Option<U>,
        x: &Option<V>,
        r: &Option<V>,
        p: spec_fn(T, U) -> bool,
        q: spec_fn(U, V) -> bool,
    ) {
    }
}

/// `<[T; N]>::map` of std, handed a transform that is only lent: the array
/// of what the calls of `f` return for each element, in the place of that
/// element. Where the array is empty no call is made, and `f` is as it was.
/// `f` must accept every element.
#[verifier::external_body]
fn array_map<T, U, F: FnMut(T) -> U, const N: usize>(a: [T; N], f: &mut F) -> (r: [U; N])
    requires
        forall|i: int| 0 <= i < N ==> call_requires(old(f), (#[trigger] a@[i],)),
    ensures
        forall|i: int| 0 <= i < N ==> call_ensures(old(f), (a@[i],), #[trigger] r@[i]),
        N == 0 ==> *final(f) == *old(f),
{
    a.map(f)
}

/// An array is a container of `N` slots; its substitution keeps `N`.
impl<T, U, const N: usize> TypeMap<T, U> for [T; N] {
    type Functor = [U; N];

    open spec fn all(&self, pre: spec_fn(T) -> bool) -> bool {
        forall|i: int| 0 <= i < N ==> pre(#[trigger] self@[i])
    }

    open spec fn mapped(&self, r: &[U; N], rel: spec_fn(T, U) -> bool) -> bool {
        forall|i: int| 0 <= i < N ==> rel(self@[i], #[trigger] r@[i])
    }

    proof fn lemma_all_weaken(&self, p: spec_fn(T) -> bool, q: spec_fn(T) -> bool) {
    }

    proof fn lemma_mapped_weaken(
        &self,
        r: &[U; N],
        p: spec_fn(T, U) -> bool,
        q: spec_fn(T, U) -> bool,
    ) {
    }
}

impl<T, U, const N: usize> FunctorOnce<T, U> for [T; N] {
    fn into_fmap<F: FnMut(T) -> U>(self, mut f: F) -> (r: [U; N]) {
        let ghost f0 = f;
        let r = array_map(self, &mut f);
        proof {
            if N > 0 {
                // The call that made the first element left `f` as it was.
                let first = r@[0];
            }
            assert(f == f0);
        }
        r
    }
}

impl<T, U, V, const N: usize> Coherent<T, U, V> for [T; N] {
    open spec fn coheres(x: &[V; N], r: &[V; N]) -> bool {
        *r == *x
    }

    open spec fn injects(x: &[T; N], r: &[T; N]) -> bool {
        *r == *x
    }

    fn cohere(x: [V; N]) -> (r: [V; N]) {
        x
    }

    fn inject(x: [T; N]) -> (r: [T; N]) {
        x
    }

    proof fn identity_law(c: &[T; N], r: &[T; N], id: spec_fn(T, T) -> bool) {
        assert forall|i: int| 0 <= i < N implies r[i] == c[i] by {
            assert(id(c@[i], r@[i]));
        }
        assert(*r =~= *c);
    }

    proof fn composition_law(
        c: &[T; N],
        m: &[U; N],
        x: &[V; N],
        r: &[V; N],
        p: spec_fn(T, U) -> bool,
        q: spec_fn(U, V) -> bool,
    ) {
        assert forall|i: int| 0 <= i < N implies followed_by(p, q)(c@[i], #[trigger] r@[i]) by {
            assert(p(c@[i], m@[i]) && q(m@[i], x@[i]));
        }
    }
}

/// Marks the first component of a pair as its slot.
pub struct Comp0;

/// Marks the second component of a pair as its slot.
pub struct Comp1;

/// A pair is a container of its first component; the second stays.
impl<T, U, B> TypeMap<T, U, Comp0> for (T, B) {
    type Functor = (U, B);

    open spec fn all(&self, pre: spec_fn(T) -> bool) -> bool {
        pre(self.0)
    }

    open spec fn mapped(&self, r: &(U, B), rel: spec_fn(T, U) -> bool) -> bool {
        rel(self.0, r.0) && r.1 == self.1
    }

    proof fn lemma_all_weaken(&self, p: spec_fn(T) -> bool, q: spec_fn(T) -> bool) {
    }

    proof fn lemma_mapped_weaken(
        &self,
        r: &(U, B),
        p: spec_fn(T, U) -> bool,
        q: spec_fn(T, U) -> bool,
    ) {
    }
}

/// A pair is a container of its second component; the first stays.
impl<A, T, U> TypeMap<T, U, Comp1> for (A, T) {
    type Functor = (A, U);

    open spec fn all(&self, pre: spec_fn(T) -> bool) -> bool {
        pre(self.1)
    }

    open spec fn mapped(&self, r: &(A, U), rel: spec_fn(T, U) -> bool) -> bool {
        r.0 == self.0 && rel(self.1, r.1)
    }

    proof fn lemma_all_weaken(&self, p: spec_fn(T) -> bool, q: spec_fn(T) -> bool) {
    }

    proof fn lemma_mapped_weaken(
        &self,
        r: &(A, U),
        p: spec_fn(T, U) -> bool,
        q: spec_fn(T, U) -> bool,
    ) {
    }
}

impl<T, U, B> FunctorOnce<T, U, Comp0> for (T, B) {
    fn into_fmap<F: FnMut(T) -> U>(self, mut f: F) -> (r: (U, B)) {
        (f(self.0), self.1)
    }
}

impl<A, T, U> FunctorOnce<T, U, Comp1> for (A, T) {
    fn into_fmap<F: FnMut(T) -> U>(self, mut f: F) -> (r: (A, U)) {
        (self.0, f(self.1))
    }
}

/// By reference a pair is mapped on its second component where the first
/// can be copied.
impl<'a, A: Copy, T: 'a, U> Functor<'a, T, U, Comp1> for (A, T) {
    open spec fn ref_mapped(&self, r: &(A, U), rel: spec_fn(T, U) -> bool) -> bool {
        <(A, T) as TypeMap<T, U, Comp1>>::mapped(self, r, rel)
    }

    fn fmap<F: FnMut(&T) -> U>(&'a self, mut f: F) -> (r: (A, U)) {
        (self.0, f(&self.1))
    }
}

/// By mutable reference a pair is mapped on its second component where the
/// first can be copied.
impl<'a, A: Copy, T: 'a, U> FunctorMut<'a, T, U, Comp1> for (A, T) {
    open spec fn mut_mapped(
        &self,
        after: &(A, T),
        r: &(A, U),
        rel: spec_fn(T, T, U) -> bool,
    ) -> bool {
        after.0 == self.0 && r.0 == self.0 && rel(self.1, after.1, r.1)
    }

    fn fmap_mut<F: FnMut(&mut T) -> U>(&'a mut self, mut f: F) -> (r: (A, U)) {
        let y = f(&mut self.1);
        (self.0, y)
    }
}

impl<T, U, V, B> Coherent<T, U, V, Comp0> for (T, B) {
    open spec fn coheres(x: &(V, B), r: &(V, B)) -> bool {
        *r == *x
    }

    open spec fn injects(x: &(T, B), r: &(T, B)) -> bool {
        *r == *x
    }

    fn cohere(x: (V, B)) -> (r: (V, B)) {
        x
    }

    fn inject(x: (T, B)) -> (r: (T, B)) {
        x
    }

    proof fn identity_law(c: &(T, B), r: &(T, B), id: spec_fn(T, T) -> bool) {
    }

    proof fn composition_law(
        c: &(T, B),
        m: &(U, B),
        x: &(V, B),
        r: &(V, B),
        p: spec_fn(T, U) -> bool,
        q: spec_fn(U, V) -> bool,
    ) {
    }
}

impl<A, T, U, V> Coherent<T, U, V, Comp1> for (A, T) {
    open spec fn coheres(x: &(A, V), r: &(A, V)) -> bool {
        *r == *x
    }

    open spec fn injects(x: &(A, T), r: &(A, T)) -> bool {
        *r == *x
    }

    fn cohere(x: (A, V)) -> (r: (A, V)) {
        x
    }

    fn inject(x: (A, T)) -> (r: (A, T)) {
        x
    }

    proof fn identity_law(c: &(A, T), r: &(A, T), id: spec_fn(T, T) -> bool) {
    }

    proof fn composition_law(
        c: &(A, T),
        m: &(A, U),
        x: &(A, V),
        r: &(A, V),
        p: spec_fn(T, U) -> bool,
        q: spec_fn(U, V) -> bool,
    ) {
    }
}

} // verus!
