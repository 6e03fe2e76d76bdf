//! Iteration by reference, for containers that are sequences.
use std::collections::VecDeque;
use vstd::prelude::*;

verus! {

/// A container of `T` that can hand out a reference to each of its items, in
/// the order in which it holds them.
pub trait RefIntoIterator<'a, T: 'a>: View<V = Seq<T>> {
    /// The items of `self`, first to last, each by reference.
    fn ref_into_iter(&'a self) -> (v: Vec<&'a T>)
        ensures
            v@.len() == self@.len(),
            forall|i: int| 0 <= i < v@.len() ==> *(#[trigger] v@[i]) == self@[i],
    ;
}

impl<'a, T: 'a> RefIntoIterator<'a, T> for Vec<T> {
    fn ref_into_iter(&'a self) -> (v: Vec<&'a T>) {
        let mut v: Vec<&'a T> = Vec::new();
        let mut i: usize = 0;
        while i < self.len()
            invariant
                i <= self@.len(),
                v@.len() == i,
                forall|j: int| 0 <= j < i ==> *(#[trigger] v@[j]) == self@[j],
            decreases self@.len() - i,
        {
            v.push(&self[i]);
            i = i + 1;
        }
        v
    }
}

impl<'a, T: 'a> RefIntoIterator<'a, T> for VecDeque<T> {
    fn ref_into_iter(&'a self) -> (v: Vec<&'a T>) {
        let mut v: Vec<&'a T> = Vec::new();
        let mut i: usize = 0;
        while i < self.len()
            invariant
                i <= self@.len(),
                v@.len() == i,
                forall|j: int| 0 <= j < i ==> *(#[trigger] v@[j]) == self@[j],
            decreases self@.len() - i,
        {
            v.push(&self[i]);
            i = i + 1;
        }
        v
    }
}

/// A container of `T` that can lend each of its items for change, one at
/// a time.
pub trait MutIntoIterator<T>: View<V = Seq<T>> {
    /// The number of items.
    fn item_count(&self) -> (n: usize)
        ensures
            n == self@.len(),
    ;

    /// Lends the item at `i`. When the loan ends the container holds, at
    /// `i`, the item as the borrower left it, and is otherwise unchanged.
    fn item_mut(&mut self, i: usize) -> (r: &mut T)
        requires
            i < old(self)@.len(),
        ensures
            *r == old(self)@[i as int],
            final(self)@ == old(self)@.update(i as int, *final(r)),
    ;
}

impl<T> MutIntoIterator<T> for Vec<T> {
    fn item_count(&self) -> (n: usize) {
        self.len()
    }

    fn item_mut(&mut self, i: usize) -> (r: &mut T) {
        &mut self[i]
    }
}

/// `IndexMut::index_mut` of std for a `VecDeque`: a mutable reference to
/// the item at `i`, counted from the front. Nothing else in the queue can be
/// reached through it. The index must be within the queue.
#[verifier::external_body]
fn deque_item_mut<T>(d: &mut VecDeque<T>, i: usize) -> (r: &mut T)
    requires
        i < old(d)@.len(),
    ensures
        *r == old(d)@[i as int],
        final(d)@ == old(d)@.update(i as int, *final(r)),
{
    &mut d[i]
}

impl<T> MutIntoIterator<T> for VecDeque<T> {
    fn item_count(&self) -> (n: usize) {
        self.len()
    }

    fn item_mut(&mut self, i: usize) -> (r: &mut T) {
        deque_item_mut(self, i)
    }
}

} // verus!
