//! A vector that always holds at least one element.

use vstd::prelude::*;

verus! {

/// An ordered collection with a first element that always exists.
///
/// Its view is the sequence `head, tail[0], tail[1], ...`.
#[derive(Debug, PartialEq, Clone)]
pub struct NonEmptyVec<T> {
    pub head: T,
    tail: Vec<T>,
}

impl<T> View for NonEmptyVec<T> {
    type V = Seq<T>;

    closed spec fn view(&self) -> Seq<T> {
        seq![self.head] + self.tail@
    }
}

impl<T> NonEmptyVec<T> {
    /// A `NonEmptyVec` is never empty.
    pub proof fn lemma_non_empty(&self)
        ensures
            self@.len() >= 1,
    {
    }

    /// The number of elements fits in a `usize`.
    pub open spec fn wf(&self) -> bool {
        self@.len() <= usize::MAX
    }

    pub fn new(head: T) -> (r: Self)
        ensures
            r@ == seq![head],
            r.wf(),
    {
        let r = Self { head, tail: Vec::new() };
        assert(r@ =~= seq![head]);
        r
    }

    pub fn with_tail(head: T, tail: Vec<T>) -> (r: Self)
        ensures
            r@ == seq![head] + tail@,
    {
        Self { head, tail }
    }

    pub fn len(&self) -> (n: usize)
        requires
            self.wf(),
        ensures
            n == self@.len(),
            n >= 1,
    {
        1 + self.tail.len()
    }

    pub fn is_empty(&self) -> (b: bool)
        ensures
            b == (self@.len() == 0),
            !b,
    {
        false
    }

    pub fn push(&mut self, value: T)
        ensures
            final(self)@ == old(self)@.push(value),
    {
        self.tail.push(value);
        assert(self@ =~= old(self)@.push(value));
    }

    /// The head.
    pub fn first(&self) -> (r: &T)
        ensures
            *r == self@[0],
    {
        &self.head
    }

    /// The element at `index`, counted from the head.
    pub fn get(&self, index: usize) -> (r: &T)
        requires
            index < self@.len(),
        ensures
            *r == self@[index as int],
    {
        if index == 0 {
            &self.head
        } else {
            &self.tail[index - 1]
        }
    }

    /// References to the elements, head first.
    pub fn iter(&self) -> (r: Vec<&T>)
        ensures
            r@.len() == self@.len(),
            forall|i: int| 0 <= i < r@.len() ==> *#[trigger] r@[i] == self@[i],
    {
        let mut r: Vec<&T> = Vec::new();
        r.push(&self.head);
        let mut i: usize = 0;
        while i < self.tail.len()
            invariant
                i <= self.tail@.len(),
                r@.len() == i + 1,
                forall|k: int| 0 <= k < r@.len() ==> *#[trigger] r@[k] == self@[k],
            decreases self.tail@.len() - i,
        {
            r.push(&self.tail[i]);
            i += 1;
        }
        r
    }

    pub fn into_vec(self) -> (v: Vec<T>)
        ensures
            v@ == self@,
    {
        let mut v: Vec<T> = Vec::new();
        let mut tail = self.tail;
        v.push(self.head);
        v.append(&mut tail);
        assert(v@ =~= self@);
        v
    }
}

impl<T> vstd::std_specs::core::IndexSpecImpl<usize> for NonEmptyVec<T> {
    open spec fn index_req(&self, index: &usize) -> bool {
        *index < self@.len()
    }
}

impl<T> std::ops::Index<usize> for NonEmptyVec<T> {
    type Output = T;

    fn index(&self, index: usize) -> (r: &T)
        ensures
            *r == self@[index as int],
    {
        self.get(index)
    }
}

impl<T> std::ops::IndexMut<usize> for NonEmptyVec<T> {
    fn index_mut(&mut self, index: usize) -> (r: &mut T)
        requires
            index < old(self)@.len(),
        ensures
            *r == old(self)@[index as int],
            final(self)@ == old(self)@.update(index as int, *final(r)),
    {
        if index == 0 {
            &mut self.head
        } else {
            &mut self.tail[index - 1]
        }
    }
}

} // verus!
