//! Sequences as applicative functors, by reference.
//!
//! [`RefMapable`] names the types; the glue is written once, for all of them.
use crate::applicative::{Applicative, Lifting};
use crate::mapable::{cross, Mapable, Mapped};
use crate::ref_into_iterator::RefIntoIterator;
use std::collections::VecDeque;
use vstd::prelude::*;

verus! {

/// A sequence of `T` that can be walked by reference, and whose counterpart
/// at items of type `U` can be walked by reference too.
pub trait RefMapable<'a, T: 'a, U: 'a>: Mapable<T, U> + RefIntoIterator<'a, T> {
    /// `Collection`, as a sequence that can be walked by reference.
    type RefColl: RefIntoIterator<'a, U>;

    /// The identity, from `Collection` to `RefColl`: the two are one type,
    /// which code written for every sequence cannot see.
    fn inject(x: &'a Self::Collection) -> (r: &'a Self::RefColl)
        ensures
            r@ == x@,
    ;
}

impl<'a, T: 'a, U: 'a, V, C> Applicative<'a, T, U, V, Mapped> for C where
    C: RefMapable<'a, T, U> + Mapable<T, V> + Mapable<T, T, Collection = C>,
 {
    fn pure(x: &T) -> (r: C) where T: Clone {
        let y = x.clone();
        let mut v: Vec<T> = Vec::new();
        v.push(y);
        let r = <C as Mapable<T, T>>::from_items(v);
        assert(r@ =~= seq![y]);
        assert(cloned(*x, y) && <C as Lifting<T, U, V, Mapped>>::is_pure(&r, y));
        r
    }

    fn lift2<F: Fn(&T, &U) -> V>(f: F, a: &'a C, b: &'a <C as Mapable<T, U>>::Collection) -> (r: <
        C as Mapable<T, V>
    >::Collection) {
        let b = Self::inject(b);
        let xs = a.ref_into_iter();
        let ys = b.ref_into_iter();
        let g = &f;
        let h = |x: &&'a T, y: &&'a U| -> (z: V)
            requires
                call_requires(g, (*x, *y)),
            ensures
                call_ensures(g, (*x, *y), z),
            {
                g(*x, *y)
            };
        assert forall|i: int, j: int|
            #![trigger xs@[i], ys@[j]]
            0 <= i < xs@.len() && 0 <= j < ys@.len() implies call_requires(
            h,
            (&xs@[i], &ys@[j]),
        ) by {
            assert(call_requires(f, (&a@[i], &b@[j])));
        }
        let out = cross(h, &xs, &ys);
        let r = <C as Mapable<T, V>>::from_items(out);
        assert forall|i: int, j: int|
            #![trigger a@[i], b@[j]]
            0 <= i < a@.len() && 0 <= j < b@.len() implies call_ensures(
            f,
            (&a@[i], &b@[j]),
            r@[i * b@.len() + j],
        ) by {
            assert(call_ensures(h, (&xs@[i], &ys@[j]), out@[i * ys@.len() + j]));
        }
        r
    }
}

impl<'a, T: 'a, U: 'a> RefMapable<'a, T, U> for Vec<T> {
    type RefColl = Vec<U>;

    fn inject(x: &'a Vec<U>) -> (r: &'a Vec<U>) {
        x
    }
}

impl<'a, T: 'a, U: 'a> RefMapable<'a, T, U> for VecDeque<T> {
    type RefColl = VecDeque<U>;

    fn inject(x: &'a VecDeque<U>) -> (r: &'a VecDeque<U>) {
        x
    }
}

} // verus!
