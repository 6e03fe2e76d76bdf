//! Applicative functors: a value is lifted into a container, and two
//! containers are combined slot by slot through a function of two arguments.
//!
//! In a combination the first operand is walked outermost: for each of its
//! slots in turn, the second operand is walked from its first slot to its
//! last. Where either operand has no slot the result has none, and the
//! function is not called.
use crate::functor::{Functor, FunctorMut, FunctorOnce, TypeMap};
use vstd::prelude::*;

verus! {

/// `y` is `x` or a clone of `x`.
pub open spec fn is_or_clones<T: Clone>(x: T, y: T) -> bool {
    y == x || cloned(x, y)
}

/// What lifting and combining mean for a container kind.
///
/// `Self` has slots of type `T`; it is combined with a container of `U` of
/// the same kind into one of `V`.
pub trait Lifting<T, U, V, Tag = ()>: TypeMap<T, U, Tag> + TypeMap<T, V, Tag> {
    /// `self` is the least container that holds `x`: one slot, and `x` in it.
    spec fn is_pure(&self, x: T) -> bool;

    /// `pre` holds of every slot of `a` taken with every slot of `b`.
    spec fn all2(
        a: &Self,
        b: &<Self as TypeMap<T, U, Tag>>::Functor,
        pre: spec_fn(T, U) -> bool,
    ) -> bool;

    /// `r` has one slot for each slot of `a` taken with each slot of `b`,
    /// those of the first slot of `a` first, and `rel` relates the two slots
    /// to the one that stands for them.
    spec fn lifted(
        a: &Self,
        b: &<Self as TypeMap<T, U, Tag>>::Functor,
        r: &<Self as TypeMap<T, V, Tag>>::Functor,
        rel: spec_fn(T, U, V) -> bool,
    ) -> bool;

    /// What holds of every two slots under `p` holds under any weaker `q`.
    proof fn lemma_all2_weaken(
        a: &Self,
        b: &<Self as TypeMap<T, U, Tag>>::Functor,
        p: spec_fn(T, U) -> bool,
        q: spec_fn(T, U) -> bool,
    )
        requires
            Self::all2(a, b, p),
            forall|x: T, y: U| #[trigger] p(x, y) ==> q(x, y),
        ensures
            Self::all2(a, b, q),
    ;

    /// A combination under `p` is one under any weaker `q`.
    proof fn lemma_lifted_weaken(
        a: &Self,
        b: &<Self as TypeMap<T, U, Tag>>::Functor,
        r: &<Self as TypeMap<T, V, Tag>>::Functor,
        p: spec_fn(T, U, V) -> bool,
        q: spec_fn(T, U, V) -> bool,
    )
        requires
            Self::lifted(a, b, r, p),
            forall|x: T, y: U, z: V| #[trigger] p(x, y, z) ==> q(x, y, z),
        ensures
            Self::lifted(a, b, r, q),
    ;
}

/// An applicative functor whose operations work by reference.
pub trait Applicative<'a, T: 'a, U: 'a, V, Tag = ()>: Functor<'a, T, V, Tag> + Lifting<
    T,
    U,
    V,
    Tag,
> {
    /// The least container that holds a clone of `x`.
    fn pure(x: &T) -> (r: Self) where T: Clone
        ensures
            exists|y: T| cloned(*x, y) && #[trigger] r.is_pure(y),
    ;

    /// Combines every slot of `a` with every slot of `b` through `f`.
    fn lift2<F: Fn(&T, &U) -> V>(
        f: F,
        a: &'a Self,
        b: &'a <Self as TypeMap<T, U, Tag>>::Functor,
    ) -> (r: <Self as TypeMap<T, V, Tag>>::Functor)
        requires
            Self::all2(a, b, |x: T, y: U| call_requires(f, (&x, &y))),
        ensures
            Self::lifted(a, b, &r, |x: T, y: U, z: V| call_ensures(f, (&x, &y), z)),
    ;

    /// Calls every function in `self` on every slot of `x`.
    fn call(&'a self, x: &'a <Self as TypeMap<T, U, Tag>>::Functor) -> (r: <Self as TypeMap<
        T,
        V,
        Tag,
    >>::Functor) where T: Fn(&U) -> V
        requires
            Self::all2(self, x, |g: T, y: U| call_requires(g, (&y,))),
        ensures
            Self::lifted(self, x, &r, |g: T, y: U, z: V| call_ensures(g, (&y,), z)),
    {
        let h = |g: &T, y: &U| -> (z: V)
            requires
                call_requires(*g, (y,)),
            ensures
                call_ensures(*g, (y,), z),
            {
                g(y)
            };
        proof {
            Self::lemma_all2_weaken(
                self,
                x,
                |g: T, y: U| call_requires(g, (&y,)),
                |g: T, y: U| call_requires(h, (&g, &y)),
            );
        }
        let r = Self::lift2(h, self, x);
        proof {
            Self::lemma_lifted_weaken(
                self,
                x,
                &r,
                |g: T, y: U, z: V| call_ensures(h, (&g, &y), z),
                |g: T, y: U, z: V| call_ensures(g, (&y,), z),
            );
        }
        r
    }

    /// Calls every function in `f` on every slot of `self`.
    fn apply(&'a self, f: &'a <Self as TypeMap<T, U, Tag>>::Functor) -> (r: <Self as TypeMap<
        T,
        V,
        Tag,
    >>::Functor) where U: Fn(&T) -> V
        requires
            Self::all2(self, f, |x: T, g: U| call_requires(g, (&x,))),
        ensures
            Self::lifted(self, f, &r, |x: T, g: U, z: V| call_ensures(g, (&x,), z)),
    {
        let h = |x: &T, g: &U| -> (z: V)
            requires
                call_requires(*g, (x,)),
            ensures
                call_ensures(*g, (x,), z),
            {
                g(x)
            };
        proof {
            Self::lemma_all2_weaken(
                self,
                f,
                |x: T, g: U| call_requires(g, (&x,)),
                |x: T, g: U| call_requires(h, (&x, &g)),
            );
        }
        let r = Self::lift2(h, self, f);
        proof {
            Self::lemma_lifted_weaken(
                self,
                f,
                &r,
                |x: T, g: U, z: V| call_ensures(h, (&x, &g), z),
                |x: T, g: U, z: V| call_ensures(g, (&x,), z),
            );
        }
        r
    }
}

/// An applicative functor whose operations consume their operands.
///
/// A slot that meets several slots of the other operand is cloned for each
/// meeting, so the function may be handed the slot or a clone of it.
pub trait ApplicativeOnce<T, U, V, Tag = ()>: FunctorOnce<T, V, Tag> + Lifting<T, U, V, Tag> {
    /// The least container that holds `x`.
    fn pure_once(x: T) -> (r: Self)
        ensures
            r.is_pure(x),
    ;

    /// Combines every slot of `a` with every slot of `b` through `f`.
    fn lift2_once<F: Fn(T, U) -> V>(
        f: F,
        a: Self,
        b: <Self as TypeMap<T, U, Tag>>::Functor,
    ) -> (r: <Self as TypeMap<T, V, Tag>>::Functor) where T: Clone, U: Clone
        requires
            Self::all2(
                &a,
                &b,
                |x: T, y: U|
                    forall|x2: T, y2: U|
                        is_or_clones(x, x2) && is_or_clones(y, y2) ==> call_requires(f, (x2, y2)),
            ),
        ensures
            Self::lifted(
                &a,
                &b,
                &r,
                |x: T, y: U, z: V|
                    exists|x2: T, y2: U|
                        is_or_clones(x, x2) && is_or_clones(y, y2) && call_ensures(f, (x2, y2), z),
            ),
    ;

    /// Calls every function in `self` on every slot of `x`.
    fn call_once(self, x: <Self as TypeMap<T, U, Tag>>::Functor) -> (r: <Self as TypeMap<
        T,
        V,
        Tag,
    >>::Functor) where T: Fn(U) -> V, U: Clone
        requires
            Self::all2(
                &self,
                &x,
                |g: T, y: U| forall|y2: U| is_or_clones(y, y2) ==> call_requires(g, (y2,)),
            ),
        ensures
            Self::lifted(
                &self,
                &x,
                &r,
                |g: T, y: U, z: V| exists|y2: U| is_or_clones(y, y2) && call_ensures(g, (y2,), z),
            ),
    ;

    /// Calls every function in `f` on every slot of `self`.
    fn apply_once(self, f: <Self as TypeMap<T, U, Tag>>::Functor) -> (r: <Self as TypeMap<
        T,
        V,
        Tag,
    >>::Functor) where U: Fn(T) -> V, T: Clone
        requires
            Self::all2(
                &self,
                &f,
                |x: T, g: U| forall|x2: T| is_or_clones(x, x2) ==> call_requires(g, (x2,)),
            ),
        ensures
            Self::lifted(
                &self,
                &f,
                &r,
                |x: T, g: U, z: V| exists|x2: T| is_or_clones(x, x2) && call_ensures(g, (x2,), z),
            ),
    ;
}

/// An applicative functor whose functions may change the slots they are
/// applied to.
pub trait ApplicativeMut<'a, T: 'a, U, V, Tag = ()>: FunctorMut<'a, T, V, Tag> + Lifting<
    T,
    U,
    V,
    Tag,
> {
    /// `r` has one slot for each slot of `before` taken with each function in
    /// `fs`, and `rel` relates the slot as it was, the slot as the function
    /// left it in `after`, the function, and the slot of `r`. Where `r` has no
    /// slot, `after` is `before`.
    spec fn mut_lifted(
        before: &Self,
        after: &Self,
        fs: &<Self as TypeMap<T, U, Tag>>::Functor,
        r: &<Self as TypeMap<T, V, Tag>>::Functor,
        rel: spec_fn(T, T, U, V) -> bool,
    ) -> bool;

    /// The least container that holds a clone of `x`.
    fn mut_pure(x: &T) -> (r: Self) where T: Clone
        ensures
            exists|y: T| cloned(*x, y) && #[trigger] r.is_pure(y),
    ;

    /// Lends every slot of `self` to every function in `f`.
    fn mut_apply(&mut self, f: &mut <Self as TypeMap<T, U, Tag>>::Functor) -> (r: <Self as TypeMap<
        T,
        V,
        Tag,
    >>::Functor) where U: FnMut(&mut T) -> V
        requires
            Self::all2(
                old(self),
                old(f),
                |x: T, g: U| forall|m: &mut T| *m == x ==> call_requires(g, (m,)),
            ),
        ensures
            Self::mut_lifted(
                old(self),
                final(self),
                old(f),
                &r,
                |x: T, x2: T, g: U, z: V|
                    exists|m: &mut T| *m == x && *final(m) == x2 && call_ensures(g, (m,), z),
            ),
            *final(f) == *old(f),
    ;
}

/// Optional values combine where both are present.
impl<T, U, V> Lifting<T, U, V> for Option<T> {
    open spec fn is_pure(&self, x: T) -> bool {
        *self == Some(x)
    }

    open spec fn all2(a: &Option<T>, b: &Option<U>, pre: spec_fn(T, U) -> bool) -> bool {
        match (*a, *b) {
            (Some(x), Some(y)) => pre(x, y),
            _ => true,
        }
    }

    open spec fn lifted(
        a: &Option<T>,
        b: &Option<U>,
        r: &Option<V>,
        rel: spec_fn(T, U, V) -> bool,
    ) -> bool {
        match (*a, *b) {
            (Some(x), Some(y)) => *r matches Some(z) && rel(x, y, z),
            _ => *r is None,
        }
    }

    proof fn lemma_all2_weaken(
        a: &Option<T>,
        b: &Option<U>,
        p: spec_fn(T, U) -> bool,
        q: spec_fn(T, U) -> bool,
    ) {
    }

    proof fn lemma_lifted_weaken(
        a: &Option<T>,
        b: &Option<U>,
        r: &Option<V>,
        p: spec_fn(T, U, V) -> bool,
        q: spec_fn(T, U, V) -> bool,
    ) {
    }
}

/// No operand is cloned: the function is handed the two values themselves.
impl<T, U, V> ApplicativeOnce<T, U, V> for Option<T> {
    fn pure_once(x: T) -> (r: Option<T>) {
        Some(x)
    }

    fn lift2_once<F: Fn(T, U) -> V>(f: F, a: Option<T>, b: Option<U>) -> (r: Option<V>) where
        T: Clone,
        U: Clone,

        ensures
            a matches Some(x) ==> (b matches Some(y) ==> (r matches Some(z) && call_ensures(
                f,
                (x, y),
                z,
            ))),
    {
        match (a, b) {
            (Some(x), Some(y)) => {
                assert(is_or_clones(x, x) && is_or_clones(y, y));
                Some(f(x, y))
            },
            _ => None,
        }
    }

    fn call_once(self, x: Option<U>) -> (r: Option<V>) where T: Fn(U) -> V, U: Clone
        ensures
            self matches Some(g) ==> (x matches Some(y) ==> (r matches Some(z) && call_ensures(
                g,
                (y,),
                z,
            ))),
    {
        match (self, x) {
            (Some(g), Some(y)) => {
                assert(is_or_clones(y, y));
                Some(g(y))
            },
            _ => None,
        }
    }

    fn apply_once(self, f: Option<U>) -> (r: Option<V>) where U: Fn(T) -> V, T: Clone
        ensures
            self matches Some(x) ==> (f matches Some(g) ==> (r matches Some(z) && call_ensures(
                g,
                (x,),
                z,
            ))),
    {
        match (self, f) {
            (Some(x), Some(g)) => {
                assert(is_or_clones(x, x));
                Some(g(x))
            },
            _ => None,
        }
    }
}

impl<'a, T: 'a, U: 'a, V> Applicative<'a, T, U, V> for Option<T> {
    fn pure(x: &T) -> (r: Option<T>) where T: Clone {
        let y = x.clone();
        let r = Some(y);
        assert(cloned(*x, y) && <Self as Lifting<T, U, V>>::is_pure(&r, y));
        r
    }

    fn lift2<F: Fn(&T, &U) -> V>(f: F, a: &'a Option<T>, b: &'a Option<U>) -> (r: Option<V>) {
        match (a, b) {
            (Some(x), Some(y)) => Some(f(x, y)),
            _ => None,
        }
    }
}

impl<'a, T: 'a, U, V> ApplicativeMut<'a, T, U, V> for Option<T> {
    open spec fn mut_lifted(
        before: &Option<T>,
        after: &Option<T>,
        fs: &Option<U>,
        r: &Option<V>,
        rel: spec_fn(T, T, U, V) -> bool,
    ) -> bool {
        match (*before, *fs) {
            (Some(x), Some(g)) => {
                &&& *after matches Some(x2)
                &&& *r matches Some(z)
                &&& rel(x, x2, g, z)
            },
            _ => *after == *before && *r is None,
        }
    }

    fn mut_pure(x: &T) -> (r: Option<T>) where T: Clone {
        let y = x.clone();
        let r = Some(y);
        assert(cloned(*x, y) && <Self as Lifting<T, U, V>>::is_pure(&r, y));
        r
    }

    fn mut_apply(&mut self, f: &mut Option<U>) -> (r: Option<V>) where U: FnMut(&mut T) -> V {
        match self {
            Some(s) => match f {
                Some(g) => Some(g(s)),
                None => None,
            },
            None => None,
        }
    }
}

} // verus!
