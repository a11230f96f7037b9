//! A queue without a bound, kept in a linked list with the front first.

use crate::iter::Iter;
use crate::linked_list::{IterMut, LinkedList};
use vstd::prelude::*;

verus! {

/// A first-in, first-out queue.
pub struct Queue<T> {
    list: LinkedList<T>,
}

impl<T> Queue<T> {
    /// The elements, the oldest first.
    pub closed spec fn view(&self) -> Seq<T> {
        self.list@
    }

    /// The list inside is whole.
    pub closed spec fn wf(&self) -> bool {
        self.list.wf()
    }

    /// An empty queue.
    pub fn new() -> (r: Self)
        ensures
            r.wf(),
            r@ == Seq::<T>::empty(),
    {
        Queue { list: LinkedList::new() }
    }

    /// `true` when the queue holds no element.
    pub fn is_empty(&self) -> (r: bool)
        requires
            self.wf(),
        ensures
            r == (self@.len() == 0),
    {
        self.list.is_empty()
    }

    /// The number of elements held.
    pub fn size(&self) -> (r: usize)
        requires
            self.wf(),
        ensures
            r == self@.len(),
    {
        self.list.len()
    }

    /// Puts `val` at the back.
    pub fn enq(&mut self, val: T)
        requires
            old(self).wf(),
            old(self)@.len() < usize::MAX,
        ensures
            final(self).wf(),
            final(self)@ == old(self)@.push(val),
    {
        self.list.push_back(val);
    }

    /// Takes the element at the front, where there is one.
    pub fn deq(&mut self) -> (r: Option<T>)
        requires
            old(self).wf(),
        ensures
            final(self).wf(),
            old(self)@.len() == 0 ==> r is None && final(self)@ == old(self)@,
            old(self)@.len() > 0 ==> r == Some(old(self)@[0]) && final(self)@ == old(self)@.drop_first(),
    {
        self.list.pop_front()
    }

    /// Drops every element.
    pub fn clear(&mut self)
        ensures
            final(self).wf(),
            final(self)@ == Seq::<T>::empty(),
    {
        self.list.clear();
    }

    /// The oldest element, the next one to leave.
    pub fn front(&self) -> (r: Option<&T>)
        ensures
            r == if self@.len() > 0 {
                Some(&self@[0])
            } else {
                None
            },
    {
        self.list.front()
    }

    /// The newest element.
    pub fn back(&self) -> (r: Option<&T>)
        requires
            self.wf(),
        ensures
            r == if self@.len() > 0 {
                Some(&self@.last())
            } else {
                None
            },
    {
        self.list.back()
    }

    /// Write access to the oldest element.
    pub fn front_mut(&mut self) -> (r: Option<&mut T>)
        ensures
            match r {
                Some(x) => 0 < old(self)@.len() && *x == old(self)@[0] && final(self)@ == old(self)@.update(0, *final(x)),
                None => old(self)@.len() == 0 && final(self)@ == old(self)@,
            },
            old(self).wf() ==> final(self).wf(),
    {
        self.list.front_mut()
    }

    /// Write access to the newest element.
    pub fn back_mut(&mut self) -> (r: Option<&mut T>)
        requires
            old(self).wf(),
        ensures
            match r {
                Some(x) => 0 < old(self)@.len() && *x == old(self)@.last() && final(self)@ == old(self)@.update(old(self)@.len() - 1, *final(x)),
                None => old(self)@.len() == 0 && final(self)@ == old(self)@,
            },
            final(self).wf(),
    {
        self.list.back_mut()
    }

    /// A cursor over the elements from the front to the back.
    pub fn iter(&self) -> (r: Iter<'_, T>)
        ensures
            r.remaining() == self@,
    {
        self.list.iter()
    }

    /// A cursor that gives write access to the elements from the front to the back.
    /// When the cursor is done, the elements are those of the cursor's list.
    pub fn iter_mut(&mut self) -> (r: IterMut<'_, T>)
        ensures
            r.list@ == old(self)@,
            r.list.wf() == old(self).wf(),
            r.pos == 0,
            final(r.list)@ == final(self)@,
            final(r.list).wf() == final(self).wf(),
    {
        self.list.iter_mut()
    }
}

} // verus!
