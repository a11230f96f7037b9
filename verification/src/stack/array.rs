//! A stack of at most `L` elements.

use crate::iter::Iter;
use vstd::prelude::*;

verus! {

/// A stack that holds at most `L` elements.
pub struct Stack<T, const L: usize> {
    items: Vec<T>,
}

impl<T, const L: usize> Stack<T, L> {
    /// The elements, the oldest first and the top last.
    pub closed spec fn view(&self) -> Seq<T> {
        self.items@
    }

    /// No more elements are held than the capacity allows.
    pub open spec fn wf(&self) -> bool {
        self@.len() <= L
    }

    /// An empty stack.
    pub fn new() -> (r: Self)
        ensures
            r.wf(),
            r@ == Seq::<T>::empty(),
    {
        Stack { items: Vec::new() }
    }

    /// Puts `val` on top. The stack must not be full.
    pub fn push(&mut self, val: T)
        requires
            old(self).wf(),
            old(self)@.len() < L,
        ensures
            final(self).wf(),
            final(self)@ == old(self)@.push(val),
    {
        self.items.push(val);
    }

    /// Takes the top element off. The stack must not be empty.
    pub fn pop(&mut self) -> (r: T)
        requires
            old(self).wf(),
            old(self)@.len() > 0,
        ensures
            final(self).wf(),
            r == old(self)@.last(),
            final(self)@ == old(self)@.drop_last(),
    {
        self.items.pop().unwrap()
    }

    /// The top element. The stack must not be empty.
    pub fn peek(&self) -> (r: &T)
        requires
            self@.len() > 0,
        ensures
            *r == self@.last(),
    {
        &self.items[self.items.len() - 1]
    }

    /// Write access to the top element. The stack must not be empty.
    pub fn peek_mut(&mut self) -> (r: &mut T)
        requires
            old(self)@.len() > 0,
        ensures
            *r == old(self)@.last(),
            final(self)@ == old(self)@.drop_last().push(*final(r)),
    {
        let top = self.items.len() - 1;
        let ghost before = self.items@;
        let r = &mut self.items[top];
        proof {
            assert(before.update(top as int, *final(r)) =~= before.drop_last().push(*final(r)));
        }
        r
    }

    /// A cursor over the elements from the top down.
    pub fn iter(&self) -> (r: Iter<'_, T>)
        ensures
            r.remaining() == self@.reverse(),
    {
        let mut refs: Vec<&T> = Vec::new();
        let mut i: usize = self.items.len();
        while i > 0
            invariant
                i <= self.items.len(),
                refs.len() == self.items.len() - i,
                forall|k: int| 0 <= k < refs.len() ==> *refs@[k] == self.items@[self.items.len() - 1 - k],
            decreases i,
        {
            i -= 1;
            refs.push(&self.items[i]);
        }
        let r = Iter::new(refs);
        assert(r.remaining() =~= self@.reverse());
        r
    }

    /// A cursor over the elements from the top down; the stack keeps them.
    pub fn into_iter(&mut self) -> (r: Iter<'_, T>)
        ensures
            r.remaining() == old(self)@.reverse(),
            final(self)@ == old(self)@,
    {
        self.iter()
    }

    /// `true` when the stack holds `L` elements.
    pub fn is_full(&self) -> (r: bool)
        requires
            self.wf(),
        ensures
            r == (self@.len() == L),
    {
        self.items.len() == L
    }

    /// `true` when the stack holds no element.
    pub fn is_empty(&self) -> (r: bool)
        ensures
            r == (self@.len() == 0),
    {
        self.items.len() == 0
    }
}

/// A cursor that gives write access to the elements of a stack, one at a
/// time, from the top down.
pub struct IterMut<'a, T, const L: usize> {
    /// The stack that the cursor walks.
    pub stack: &'a mut Stack<T, L>,
    /// The number of elements still to come.
    pub left: usize,
}

impl<'a, T, const L: usize> IterMut<'a, T, L> {
    /// Write access to the next element, or `None` below the bottom.
    pub fn next(&mut self) -> (r: Option<&mut T>)
        ensures
            *final(final(self).stack) == *final(old(self).stack),
            match r {
                Some(x) => 0 < old(self).left <= old(self).stack@.len() && *x == old(self).stack@[old(self).left - 1] && final(self).stack@ == old(self).stack@.update(
                    old(self).left - 1,
                    *final(x),
                ) && final(self).left == old(self).left - 1,
                None => !(0 < old(self).left <= old(self).stack@.len()) && final(self).stack@
                    == old(self).stack@ && final(self).left == old(self).left,
            },
    {
        if 0 < self.left && self.left <= self.stack.items.len() {
            self.left = self.left - 1;
            Some(&mut self.stack.items[self.left])
        } else {
            None
        }
    }
}

impl<T, const L: usize> Stack<T, L> {
    /// A cursor that gives write access to the elements from the top down.
    /// When the cursor is done, the stack is what the cursor's stack has
    /// become.
    pub fn iter_mut(&mut self) -> (r: IterMut<'_, T, L>)
        ensures
            *r.stack == *old(self),
            r.left == old(self)@.len(),
            *final(r.stack) == *final(self),
    {
        let left = self.items.len();
        IterMut { stack: self, left }
    }
}

} // verus!
