//! A stack without a bound, kept in a linked list with the top at the front.

use crate::iter::Iter;
use crate::linked_list::{IterMut, LinkedList};
use vstd::prelude::*;

verus! {

/// A last-in, first-out stack.
pub struct Stack<T> {
    list: LinkedList<T>,
}

impl<T> Stack<T> {
    /// The elements, the top first.
    pub closed spec fn view(&self) -> Seq<T> {
        self.list@
    }

    /// The list inside is whole.
    pub closed spec fn wf(&self) -> bool {
        self.list.wf()
    }

    /// An empty stack.
    pub fn new() -> (r: Self)
        ensures
            r.wf(),
            r@ == Seq::<T>::empty(),
    {
        Stack { list: LinkedList::new() }
    }

    /// Puts `val` on top.
    pub fn push(&mut self, val: T)
        requires
            old(self).wf(),
            old(self)@.len() < usize::MAX,
        ensures
            final(self).wf(),
            final(self)@ == seq![val] + old(self)@,
    {
        self.list.push_front(val);
    }

    /// Takes the top element off, where there is one.
    pub fn pop(&mut self) -> (r: Option<T>)
        requires
            old(self).wf(),
        ensures
            final(self).wf(),
            old(self)@.len() == 0 ==> r is None && final(self)@ == old(self)@,
            old(self)@.len() > 0 ==> r == Some(old(self)@[0]) && final(self)@ == old(self)@.drop_first(),
    {
        self.list.pop_front()
    }

    /// The top element, where there is one.
    pub fn peek(&self) -> (r: Option<&T>)
        ensures
            r == if self@.len() > 0 {
                Some(&self@[0])
            } else {
                None
            },
    {
        self.list.front()
    }

    /// Write access to the top element, where there is one.
    pub fn peek_mut(&mut self) -> (r: Option<&mut T>)
        ensures
            match r {
                Some(x) => 0 < old(self)@.len() && *x == old(self)@[0] && final(self)@ == old(self)@.update(0, *final(x)),
                None => old(self)@.len() == 0 && final(self)@ == old(self)@,
            },
            old(self).wf() ==> final(self).wf(),
    {
        self.list.front_mut()
    }

    /// `true` when the stack holds no element.
    pub fn is_empty(&self) -> (r: bool)
        requires
            self.wf(),
        ensures
            r == (self@.len() == 0),
    {
        self.list.is_empty()
    }

    /// Drops every element.
    pub fn clear(&mut self)
        ensures
            final(self).wf(),
            final(self)@ == Seq::<T>::empty(),
    {
        self.list.clear();
    }

    /// A cursor over the elements from the top down.
    pub fn iter(&self) -> (r: Iter<'_, T>)
        ensures
            r.remaining() == self@,
    {
        self.list.iter()
    }

    /// A cursor that gives write access to the elements from the top down.
    /// When the cursor is done, the elements are those of the cursor's list.
    pub fn iter_mut(&mut self) -> (r: IterMut<'_, T>)
        ensures
            r.list@ == old(self)@,
            r.list.wf() == old(self).wf(),
            r.pos == 0,
            final(r.list)@ == final(self)@,
            final(r.list).wf() == final(self).wf(),
    {
        self.list.iter_mut()
    }
}

} // verus!
