//! Owning pointers as functors: a pointer to a `T` is a container of one
//! `T`, and mapping it gives a pointer of the same kind to what the
//! transform returns.
use crate::functor::{Coherent, Functor, FunctorOnce, TypeMap};
use std::boxed::Box;
use std::rc::Rc;
use vstd::prelude::*;

verus! {

/// A pointer that owns one `T`, alone or with others, and whose kind can
/// own a `U` as well.
pub trait Boxed<T, U = T>: Sized {
    /// The same kind of pointer, to a `U`.
    type Boxed;

    /// What `self` points to.
    spec fn content(&self) -> T;

    /// What a pointer to a `U` points to.
    spec fn boxed_content(b: &Self::Boxed) -> U;

    /// A reference to what `self` points to.
    fn as_content(&self) -> (r: &T)
        ensures
            *r == self.content(),
    ;

    /// A new pointer to `x`.
    fn boxed(x: U) -> (b: Self::Boxed)
        ensures
            Self::boxed_content(&b) == x,
    ;
}

/// Marks a pointer as a functor on what it points to.
pub struct BoxedTag;

impl<T, U, B: Boxed<T, U>> TypeMap<T, U, BoxedTag> for B {
    type Functor = B::Boxed;

    open spec fn all(&self, pre: spec_fn(T) -> bool) -> bool {
        pre(self.content())
    }

    open spec fn mapped(&self, r: &B::Boxed, rel: spec_fn(T, U) -> bool) -> bool {
        rel(self.content(), B::boxed_content(r))
    }

    proof fn lemma_all_weaken(&self, p: spec_fn(T) -> bool, q: spec_fn(T) -> bool) {
    }

    proof fn lemma_mapped_weaken(
        &self,
        r: &B::Boxed,
        p: spec_fn(T, U) -> bool,
        q: spec_fn(T, U) -> bool,
    ) {
    }
}

impl<'a, T: 'a, U, B: Boxed<T, U>> Functor<'a, T, U, BoxedTag> for B {
    open spec fn ref_mapped(&self, r: &B::Boxed, rel: spec_fn(T, U) -> bool) -> bool {
        self.mapped(r, rel)
    }

    fn fmap<F: FnMut(&T) -> U>(&'a self, mut f: F) -> (r: B::Boxed) {
        B::boxed(f(self.as_content()))
    }
}

impl<T, U> FunctorOnce<T, U, BoxedTag> for Box<T> {
    fn into_fmap<F: FnMut(T) -> U>(self, mut f: F) -> (r: Box<U>) {
        Box::new(f(*self))
    }
}

impl<T, U> Boxed<T, U> for Rc<T> {
    type Boxed = Rc<U>;

    open spec fn content(&self) -> T {
        **self
    }

    open spec fn boxed_content(b: &Rc<U>) -> U {
        **b
    }

    fn as_content(&self) -> (r: &T) {
        &**self
    }

    fn boxed(x: U) -> (b: Rc<U>) {
        Rc::new(x)
    }
}

impl<T, U> Boxed<T, U> for Box<T> {
    type Boxed = Box<U>;

    open spec fn content(&self) -> T {
        **self
    }

    open spec fn boxed_content(b: &Box<U>) -> U {
        **b
    }

    fn as_content(&self) -> (r: &T) {
        &**self
    }

    fn boxed(x: U) -> (b: Box<U>) {
        Box::new(x)
    }
}

impl<T, U, V> Coherent<T, U, V, BoxedTag> for Box<T> {
    open spec fn coheres(x: &Box<V>, r: &Box<V>) -> bool {
        *r == *x
    }

    open spec fn injects(x: &Box<T>, r: &Box<T>) -> bool {
        *r == *x
    }

    fn cohere(x: Box<V>) -> (r: Box<V>) {
        x
    }

    fn inject(x: Box<T>) -> (r: Box<T>) {
        x
    }

    proof fn identity_law(c: &Box<T>, r: &Box<T>, id: spec_fn(T, T) -> bool) {
    }

    proof fn composition_law(
        c: &Box<T>,
        m: &Box<U>,
        x: &Box<V>,
        r: &Box<V>,
        p: spec_fn(T, U) -> bool,
        q: spec_fn(U, V) -> bool,
    ) {
    }
}

impl<T, U, V> Coherent<T, U, V, BoxedTag> for Rc<T> {
    open spec fn coheres(x: &Rc<V>, r: &Rc<V>) -> bool {
        *r == *x
    }

    open spec fn injects(x: &Rc<T>, r: &Rc<T>) -> bool {
        *r == *x
    }

    fn cohere(x: Rc<V>) -> (r: Rc<V>) {
        x
    }

    fn inject(x: Rc<T>) -> (r: Rc<T>) {
        x
    }

    proof fn identity_law(c: &Rc<T>, r: &Rc<T>, id: spec_fn(T, T) -> bool) {
    }

    proof fn composition_law(
        c: &Rc<T>,
        m: &Rc<U>,
        x: &Rc<V>,
        r: &Rc<V>,
        p: spec_fn(T, U) -> bool,
        q: spec_fn(U, V) -> bool,
    ) {
    }
}

} // verus!
