//! Sequences as functors.
//!
//! A container that can be taken apart into its items and built again from
//! items is mapped by doing just that. [`Mapable`] names the types; the glue
//! is written once, for all of them.
use crate::applicative::{is_or_clones, ApplicativeOnce, Lifting};
use crate::functor::{followed_by, Coherent, Functor, FunctorMut, FunctorOnce, TypeMap};
use crate::ref_into_iterator::{MutIntoIterator, RefIntoIterator};
use std::collections::VecDeque;
use vstd::prelude::*;

verus! {

/// A sequence of `T` that can be mapped through its items.
///
/// The items are the view; `Collection` is the same kind of sequence, of `U`.
pub trait Mapable<T, U = T>: Sized + View<V = Seq<T>> {
    /// The sequence type at items of type `U`.
    type Collection: View<V = Seq<U>>;

    /// Takes the sequence apart: its items, first to last.
    fn into_items(self) -> (v: Vec<T>)
        ensures
            v@ == self@,
    ;

    /// Builds the sequence that holds the given items, in their order.
    fn from_items(v: Vec<U>) -> (c: Self::Collection)
        ensures
            c@ == v@,
    ;
}

/// Marks a sequence as a functor by way of its items.
pub struct Mapped;

impl<T, U, C: Mapable<T, U>> TypeMap<T, U, Mapped> for C {
    type Functor = C::Collection;

    open spec fn all(&self, pre: spec_fn(T) -> bool) -> bool {
        forall|i: int| 0 <= i < self@.len() ==> pre(#[trigger] self@[i])
    }

    open spec fn mapped(&self, r: &C::Collection, rel: spec_fn(T, U) -> bool) -> bool {
        &&& r@.len() == self@.len()
        &&& forall|i: int| 0 <= i < self@.len() ==> rel(self@[i], #[trigger] r@[i])
    }

    proof fn lemma_all_weaken(&self, p: spec_fn(T) -> bool, q: spec_fn(T) -> bool) {
    }

    proof fn lemma_mapped_weaken(
        &self,
        r: &C::Collection,
        p: spec_fn(T, U) -> bool,
        q: spec_fn(T, U) -> bool,
    ) {
    }
}

/// Anything mapable is a functor: the items are mapped in order, and the
/// result holds as many.
impl<T, U, C: Mapable<T, U>> FunctorOnce<T, U, Mapped> for C {
    fn into_fmap<F: FnMut(T) -> U>(self, mut f: F) -> (r: C::Collection) {
        let ghost src = self@;
        let ghost f0 = f;
        let items = self.into_items();
        let mut out: Vec<U> = Vec::new();
        for x in it: items.into_iter()
            invariant
                it.seq() == src,
                out@.len() == it.index(),
                f == f0,
                forall|i: int| 0 <= i < src.len() ==> call_requires(f0, (#[trigger] src[i],)),
                forall|i: int| 0 <= i < out@.len() ==> call_ensures(f0, (src[i],), #[trigger] out@[i]),
        {
            let y = f(x);
            out.push(y);
        }
        C::from_items(out)
    }
}

/// Mapables also work by reference.
impl<'a, T: 'a, U, C: Mapable<T, U> + RefIntoIterator<'a, T>> Functor<'a, T, U, Mapped> for C {
    open spec fn ref_mapped(&self, r: &C::Collection, rel: spec_fn(T, U) -> bool) -> bool {
        self.mapped(r, rel)
    }

    fn fmap<F: FnMut(&T) -> U>(&'a self, mut f: F) -> (r: C::Collection) {
        let ghost f0 = f;
        let items = self.ref_into_iter();
        let mut out: Vec<U> = Vec::new();
        let mut i: usize = 0;
        while i < items.len()
            invariant
                i <= items@.len(),
                items@.len() == self@.len(),
                out@.len() == i,
                f == f0,
                forall|j: int| 0 <= j < items@.len() ==> *(#[trigger] items@[j]) == self@[j],
                forall|j: int| 0 <= j < self@.len() ==> call_requires(f0, (&#[trigger] self@[j],)),
                forall|j: int| 0 <= j < i ==> call_ensures(f0, (&self@[j],), #[trigger] out@[j]),
            decreases items@.len() - i,
        {
            let x: &T = items[i];
            let y = f(x);
            out.push(y);
            i = i + 1;
        }
        C::from_items(out)
    }
}

/// Mapables also work by mutable reference: each item is lent to `f` in
/// turn, first to last.
impl<'a, T: 'a, U, C: Mapable<T, U> + MutIntoIterator<T>> FunctorMut<'a, T, U, Mapped> for C {
    open spec fn mut_mapped(
        &self,
        after: &C,
        r: &C::Collection,
        rel: spec_fn(T, T, U) -> bool,
    ) -> bool {
        &&& after@.len() == self@.len()
        &&& r@.len() == self@.len()
        &&& forall|i: int| 0 <= i < self@.len() ==> rel(self@[i], after@[i], #[trigger] r@[i])
    }

    fn fmap_mut<F: FnMut(&mut T) -> U>(&'a mut self, mut f: F) -> (r: C::Collection) {
        let ghost before = self@;
        let ghost f0 = f;
        let ghost pre = |x: T| forall|m: &mut T| *m == x ==> call_requires(f0, (m,));
        let ghost post = |x: T, x2: T, y: U|
            exists|m: &mut T| *m == x && *final(m) == x2 && call_ensures(f0, (m,), y);
        let n = self.item_count();
        let mut out: Vec<U> = Vec::new();
        let mut i: usize = 0;
        while i < n
            invariant
                i <= n,
                n == before.len(),
                self@.len() == n,
                out@.len() == i,
                f == f0,
                pre == |x: T| forall|m: &mut T| *m == x ==> call_requires(f0, (m,)),
                post == |x: T, x2: T, y: U|
                    exists|m: &mut T| *m == x && *final(m) == x2 && call_ensures(f0, (m,), y),
                forall|j: int| 0 <= j < n ==> pre(#[trigger] before[j]),
                forall|j: int| i <= j < n ==> self@[j] == before[j],
                forall|j: int| 0 <= j < i ==> post(before[j], self@[j], #[trigger] out@[j]),
            decreases n - i,
        {
            let ghost prev = self@;
            let x = self.item_mut(i);
            assert(pre(before[i as int]) && *x == before[i as int]);
            let y = f(x);
            let ghost prev_out = out@;
            out.push(y);
            assert(post(before[i as int], self@[i as int], y));
            assert forall|j: int| 0 <= j < i + 1 implies post(
                before[j],
                self@[j],
                #[trigger] out@[j],
            ) by {
                if j < i {
                    assert(out@[j] == prev_out[j]);
                    assert(self@[j] == prev[j]);
                } else {
                    assert(out@[j] == y);
                }
            }
            i = i + 1;
        }
        C::from_items(out)
    }
}

impl<T, U> Mapable<T, U> for Vec<T> {
    type Collection = Vec<U>;

    fn into_items(self) -> (v: Vec<T>) {
        self
    }

    fn from_items(v: Vec<U>) -> (c: Vec<U>) {
        v
    }
}

impl<T, U> Mapable<T, U> for VecDeque<T> {
    type Collection = VecDeque<U>;

    fn into_items(self) -> (v: Vec<T>) {
        let mut this = self;
        let ghost src = this@;
        let mut v: Vec<T> = Vec::new();
        while this.len() > 0
            invariant
                v@ + this@ == src,
            decreases this@.len(),
        {
            let ghost before = this@;
            let x = this.pop_front().unwrap();
            v.push(x);
            assert(v@ + this@ =~= v@.drop_last() + before);
        }
        assert(v@ =~= v@ + this@);
        v
    }

    fn from_items(v: Vec<U>) -> (c: VecDeque<U>) {
        let mut c: VecDeque<U> = VecDeque::new();
        let ghost src = v@;
        for x in it: v.into_iter()
            invariant
                it.seq() == src,
                c@ == src.take(it.index() as int),
        {
            c.push_back(x);
            assert(c@ =~= src.take(it.index() + 1));
        }
        assert(src.take(src.len() as int) =~= src);
        c
    }
}

impl<T, U, V> Coherent<T, U, V, Mapped> for Vec<T> {
    open spec fn coheres(x: &Vec<V>, r: &Vec<V>) -> bool {
        r@ == x@
    }

    open spec fn injects(x: &Vec<T>, r: &Vec<T>) -> bool {
        r@ == x@
    }

    fn cohere(x: Vec<V>) -> (r: Vec<V>) {
        x
    }

    fn inject(x: Vec<T>) -> (r: Vec<T>) {
        x
    }

    proof fn identity_law(c: &Vec<T>, r: &Vec<T>, id: spec_fn(T, T) -> bool) {
        assert forall|i: int| 0 <= i < c@.len() implies r@[i] == c@[i] by {
            assert(id(c@[i], r@[i]));
        }
        assert(r@ =~= c@);
    }

    proof fn composition_law(
        c: &Vec<T>,
        m: &Vec<U>,
        x: &Vec<V>,
        r: &Vec<V>,
        p: spec_fn(T, U) -> bool,
        q: spec_fn(U, V) -> bool,
    ) {
        assert forall|i: int| 0 <= i < c@.len() implies followed_by(p, q)(c@[i], #[trigger] r@[i]) by {
            assert(p(c@[i], m@[i]) && q(m@[i], x@[i]));
        }
    }
}

impl<T, U, V> Coherent<T, U, V, Mapped> for VecDeque<T> {
    open spec fn coheres(x: &VecDeque<V>, r: &VecDeque<V>) -> bool {
        r@ == x@
    }

    open spec fn injects(x: &VecDeque<T>, r: &VecDeque<T>) -> bool {
        r@ == x@
    }

    fn cohere(x: VecDeque<V>) -> (r: VecDeque<V>) {
        x
    }

    fn inject(x: VecDeque<T>) -> (r: VecDeque<T>) {
        x
    }

    proof fn identity_law(c: &VecDeque<T>, r: &VecDeque<T>, id: spec_fn(T, T) -> bool) {
        assert forall|i: int| 0 <= i < c@.len() implies r@[i] == c@[i] by {
            assert(id(c@[i], r@[i]));
        }
        assert(r@ =~= c@);
    }

    proof fn composition_law(
        c: &VecDeque<T>,
        m: &VecDeque<U>,
        x: &VecDeque<V>,
        r: &VecDeque<V>,
        p: spec_fn(T, U) -> bool,
        q: spec_fn(U, V) -> bool,
    ) {
        assert forall|i: int| 0 <= i < c@.len() implies followed_by(p, q)(c@[i], #[trigger] r@[i]) by {
            assert(p(c@[i], m@[i]) && q(m@[i], x@[i]));
        }
    }
}

/// Every item of `xs` combined with every item of `ys`: those of the first
/// item of `xs` first, and among them in the order of `ys`.
pub fn cross<X, Y, V, H: Fn(&X, &Y) -> V>(h: H, xs: &Vec<X>, ys: &Vec<Y>) -> (out: Vec<V>)
    requires
        forall|i: int, j: int|
            #![trigger xs@[i], ys@[j]]
            0 <= i < xs@.len() && 0 <= j < ys@.len() ==> call_requires(h, (&xs@[i], &ys@[j])),
    ensures
        out@.len() == xs@.len() * ys@.len(),
        forall|i: int, j: int|
            #![trigger xs@[i], ys@[j]]
            0 <= i < xs@.len() && 0 <= j < ys@.len() ==> call_ensures(
                h,
                (&xs@[i], &ys@[j]),
                out@[i * ys@.len() + j],
            ),
{
    let n = xs.len();
    let m = ys.len();
    let mut out: Vec<V> = Vec::new();
    let mut i: usize = 0;
    while i < n
        invariant
            n == xs@.len(),
            m == ys@.len(),
            i <= n,
            out@.len() == i * m,
            forall|a: int, b: int|
                #![trigger xs@[a], ys@[b]]
                0 <= a < n && 0 <= b < m ==> call_requires(h, (&xs@[a], &ys@[b])),
            forall|a: int, b: int|
                #![trigger xs@[a], ys@[b]]
                0 <= a < i && 0 <= b < m ==> call_ensures(h, (&xs@[a], &ys@[b]), out@[a * m + b]),
        decreases n - i,
    {
        let mut j: usize = 0;
        while j < m
            invariant
                n == xs@.len(),
                m == ys@.len(),
                i < n,
                j <= m,
                out@.len() == i * m + j,
                forall|a: int, b: int|
                    #![trigger xs@[a], ys@[b]]
                    0 <= a < n && 0 <= b < m ==> call_requires(h, (&xs@[a], &ys@[b])),
                forall|a: int, b: int|
                    #![trigger xs@[a], ys@[b]]
                    0 <= a < i && 0 <= b < m ==> call_ensures(
                        h,
                        (&xs@[a], &ys@[b]),
                        out@[a * m + b],
                    ),
                forall|b: int|
                    #![trigger ys@[b]]
                    0 <= b < j ==> call_ensures(h, (&xs@[i as int], &ys@[b]), out@[i * m + b]),
            decreases m - j,
        {
            let ghost before = out@;
            let z = h(&xs[i], &ys[j]);
            out.push(z);
            proof {
                assert forall|a: int, b: int|
                    #![trigger xs@[a], ys@[b]]
                    0 <= a < i && 0 <= b < m implies call_ensures(
                    h,
                    (&xs@[a], &ys@[b]),
                    out@[a * m + b],
                ) by {
                    lemma_cell_below(a, b, i as int, m as int);
                    assert(out@[a * m + b] == before[a * m + b]);
                }
            }
            j = j + 1;
        }
        proof {
            assert((i + 1) * m == i * m + m) by (nonlinear_arith);
        }
        i = i + 1;
    }
    out
}

/// In a table of rows of `m` cells, a cell of a row before row `i` comes
/// before the first cell of row `i`.
proof fn lemma_cell_below(a: int, b: int, i: int, m: int)
    requires
        0 <= a < i,
        0 <= b < m,
    ensures
        0 <= a * m + b < i * m,
{
    assert(a * m + b < i * m) by (nonlinear_arith)
        requires
            0 <= a < i,
            0 <= b < m,
    ;
    assert(0 <= a * m + b) by (nonlinear_arith)
        requires
            0 <= a,
            0 <= b,
            0 < m,
    ;
}

/// Sequences combine as a table: one row for each item of the first
/// operand, one cell in each row for each item of the second.
impl<T, U, V, C: Mapable<T, U> + Mapable<T, V>> Lifting<T, U, V, Mapped> for C {
    open spec fn is_pure(&self, x: T) -> bool {
        self@ == seq![x]
    }

    open spec fn all2(
        a: &C,
        b: &<C as Mapable<T, U>>::Collection,
        pre: spec_fn(T, U) -> bool,
    ) -> bool {
        forall|i: int, j: int|
            #![trigger a@[i], b@[j]]
            0 <= i < a@.len() && 0 <= j < b@.len() ==> pre(a@[i], b@[j])
    }

    open spec fn lifted(
        a: &C,
        b: &<C as Mapable<T, U>>::Collection,
        r: &<C as Mapable<T, V>>::Collection,
        rel: spec_fn(T, U, V) -> bool,
    ) -> bool {
        &&& r@.len() == a@.len() * b@.len()
        &&& forall|i: int, j: int|
            #![trigger a@[i], b@[j]]
            0 <= i < a@.len() && 0 <= j < b@.len() ==> rel(a@[i], b@[j], r@[i * b@.len() + j])
    }

    proof fn lemma_all2_weaken(
        a: &C,
        b: &<C as Mapable<T, U>>::Collection,
        p: spec_fn(T, U) -> bool,
        q: spec_fn(T, U) -> bool,
    ) {
    }

    proof fn lemma_lifted_weaken(
        a: &C,
        b: &<C as Mapable<T, U>>::Collection,
        r: &<C as Mapable<T, V>>::Collection,
        p: spec_fn(T, U, V) -> bool,
        q: spec_fn(T, U, V) -> bool,
    ) {
    }
}

/// Sequences combine by value as they do by reference. An item meets
/// several items of the other operand, so the function is handed a clone of
/// it each time.
impl<T, U, V, C> ApplicativeOnce<T, U, V, Mapped> for C where
    C: Mapable<T, U> + Mapable<T, V> + Mapable<T, T, Collection = C>,
    <C as Mapable<T, U>>::Collection: Mapable<U>,
 {
    fn pure_once(x: T) -> (r: C) {
        let mut v: Vec<T> = Vec::new();
        v.push(x);
        let r = <C as Mapable<T, T>>::from_items(v);
        assert(r@ =~= seq![x]);
        r
    }

    fn lift2_once<F: Fn(T, U) -> V>(f: F, a: C, b: <C as Mapable<T, U>>::Collection) -> (r: <
        C as Mapable<T, V>
    >::Collection) where T: Clone, U: Clone {
        let xs = <C as Mapable<T, U>>::into_items(a);
        let ys = b.into_items();
        let g = &f;
        let h = |x: &T, y: &U| -> (z: V)
            requires
                forall|x2: T, y2: U| cloned(*x, x2) && cloned(*y, y2) ==> call_requires(g, (x2, y2)),
            ensures
                exists|x2: T, y2: U| cloned(*x, x2) && cloned(*y, y2) && call_ensures(g, (x2, y2), z),
            {
                let x2 = x.clone();
                let y2 = y.clone();
                assert(cloned(*x, x2) && cloned(*y, y2));
                g(x2, y2)
            };
        assert forall|i: int, j: int|
            #![trigger xs@[i], ys@[j]]
            0 <= i < xs@.len() && 0 <= j < ys@.len() implies call_requires(
            h,
            (&xs@[i], &ys@[j]),
        ) by {
            assert forall|x2: T, y2: U| cloned(xs@[i], x2) && cloned(ys@[j], y2) implies call_requires(
                f,
                (x2, y2),
            ) by {
                assert(is_or_clones(xs@[i], x2) && is_or_clones(ys@[j], y2));
            }
        }
        let out = cross(h, &xs, &ys);
        let r = <C as Mapable<T, V>>::from_items(out);
        assert forall|i: int, j: int|
            #![trigger xs@[i], ys@[j]]
            0 <= i < xs@.len() && 0 <= j < ys@.len() implies exists|x2: T, y2: U|
            is_or_clones(xs@[i], x2) && is_or_clones(ys@[j], y2) && call_ensures(
                f,
                (x2, y2),
                r@[i * ys@.len() + j],
            ) by {
            assert(call_ensures(h, (&xs@[i], &ys@[j]), out@[i * ys@.len() + j]));
            let (x2, y2) = choose|x2: T, y2: U|
                cloned(xs@[i], x2) && cloned(ys@[j], y2) && call_ensures(
                    f,
                    (x2, y2),
                    out@[i * ys@.len() + j],
                );
            assert(is_or_clones(xs@[i], x2) && is_or_clones(ys@[j], y2));
        }
        r
    }

    fn call_once(self, x: <C as Mapable<T, U>>::Collection) -> (r: <C as Mapable<
        T,
        V,
    >>::Collection) where T: Fn(U) -> V, U: Clone {
        let gs = <C as Mapable<T, U>>::into_items(self);
        let ys = x.into_items();
        let h = |g: &T, y: &U| -> (z: V)
            requires
                forall|y2: U| cloned(*y, y2) ==> call_requires(*g, (y2,)),
            ensures
                exists|y2: U| cloned(*y, y2) && call_ensures(*g, (y2,), z),
            {
                let y2 = y.clone();
                assert(cloned(*y, y2));
                g(y2)
            };
        assert forall|i: int, j: int|
            #![trigger gs@[i], ys@[j]]
            0 <= i < gs@.len() && 0 <= j < ys@.len() implies call_requires(
            h,
            (&gs@[i], &ys@[j]),
        ) by {
            assert forall|y2: U| cloned(ys@[j], y2) implies call_requires(gs@[i], (y2,)) by {
                assert(is_or_clones(ys@[j], y2));
            }
        }
        let out = cross(h, &gs, &ys);
        let r = <C as Mapable<T, V>>::from_items(out);
        assert forall|i: int, j: int|
            #![trigger gs@[i], ys@[j]]
            0 <= i < gs@.len() && 0 <= j < ys@.len() implies exists|y2: U|
            is_or_clones(ys@[j], y2) && call_ensures(gs@[i], (y2,), r@[i * ys@.len() + j]) by {
            assert(call_ensures(h, (&gs@[i], &ys@[j]), out@[i * ys@.len() + j]));
            let y2 = choose|y2: U|
                cloned(ys@[j], y2) && call_ensures(gs@[i], (y2,), out@[i * ys@.len() + j]);
            assert(is_or_clones(ys@[j], y2));
        }
        r
    }

    fn apply_once(self, f: <C as Mapable<T, U>>::Collection) -> (r: <C as Mapable<
        T,
        V,
    >>::Collection) where U: Fn(T) -> V, T: Clone {
        let xs = <C as Mapable<T, U>>::into_items(self);
        let gs = f.into_items();
        let h = |x: &T, g: &U| -> (z: V)
            requires
                forall|x2: T| cloned(*x, x2) ==> call_requires(*g, (x2,)),
            ensures
                exists|x2: T| cloned(*x, x2) && call_ensures(*g, (x2,), z),
            {
                let x2 = x.clone();
                assert(cloned(*x, x2));
                g(x2)
            };
        assert forall|i: int, j: int|
            #![trigger xs@[i], gs@[j]]
            0 <= i < xs@.len() && 0 <= j < gs@.len() implies call_requires(
            h,
            (&xs@[i], &gs@[j]),
        ) by {
            assert forall|x2: T| cloned(xs@[i], x2) implies call_requires(gs@[j], (x2,)) by {
                assert(is_or_clones(xs@[i], x2));
            }
        }
        let out = cross(h, &xs, &gs);
        let r = <C as Mapable<T, V>>::from_items(out);
        assert forall|i: int, j: int|
            #![trigger xs@[i], gs@[j]]
            0 <= i < xs@.len() && 0 <= j < gs@.len() implies exists|x2: T|
            is_or_clones(xs@[i], x2) && call_ensures(gs@[j], (x2,), r@[i * gs@.len() + j]) by {
            assert(call_ensures(h, (&xs@[i], &gs@[j]), out@[i * gs@.len() + j]));
            let x2 = choose|x2: T|
                cloned(xs@[i], x2) && call_ensures(gs@[j], (x2,), out@[i * gs@.len() + j]);
            assert(is_or_clones(xs@[i], x2));
        }
        r
    }
}

} // verus!
