//! A queue of at most `L` elements, kept in a ring of `L` slots.

use crate::iter::{IntoIter, Iter};
use vstd::prelude::*;

verus! {

/// The slot that holds the element `offset` places behind the one in slot
/// `head`, in a ring of `len` slots.
pub open spec fn ring_slot(head: int, offset: int, len: int) -> int {
    if offset < len - head {
        head + offset
    } else {
        offset - (len - head)
    }
}

/// A first-in, first-out queue that holds at most `L` elements.
pub struct Queue<T, const L: usize> {
    slots: Vec<Option<T>>,
    head: usize,
    size: usize,
}

impl<T, const L: usize> Queue<T, L> {
    /// The ring is whole: `L` slots, the head among them, and an element in
    /// each of the `size` slots from the head on.
    pub closed spec fn wf(&self) -> bool {
        &&& self.slots@.len() == L
        &&& self.size <= L
        &&& (self.head < L || (L == 0 && self.head == 0))
        &&& forall|i: int|
            0 <= i < self.size ==> (#[trigger] self.slots@[ring_slot(
                self.head as int,
                i,
                L as int,
            )]) is Some
    }

    /// The elements, the oldest first.
    pub closed spec fn view(&self) -> Seq<T> {
        Seq::new(
            self.size as nat,
            |i: int| self.slots@[ring_slot(self.head as int, i, L as int)]->0,
        )
    }

    /// The slot of the element `offset` places behind the front.
    fn slot(&self, offset: usize) -> (r: usize)
        requires
            self.wf(),
            offset < L,
        ensures
            r == ring_slot(self.head as int, offset as int, L as int),
            r < L,
    {
        if offset < L - self.head {
            self.head + offset
        } else {
            offset - (L - self.head)
        }
    }

    /// An empty queue.
    pub fn new() -> (r: Self)
        ensures
            r.wf(),
            r@ == Seq::<T>::empty(),
    {
        let mut slots: Vec<Option<T>> = Vec::new();
        let mut i: usize = 0;
        while i < L
            invariant
                i <= L,
                slots.len() == i,
            decreases L - i,
        {
            slots.push(None);
            i += 1;
        }
        let r = Queue { slots, head: 0, size: 0 };
        assert(r@ =~= Seq::<T>::empty());
        r
    }

    /// `true` when the queue holds no element.
    pub fn is_empty(&self) -> (r: bool)
        ensures
            r == (self@.len() == 0),
    {
        self.size == 0
    }

    /// `true` when the queue holds `L` elements.
    pub fn is_full(&self) -> (r: bool)
        ensures
            r == (self@.len() == L),
    {
        self.size == L
    }

    /// The number of elements held.
    pub fn size(&self) -> (r: usize)
        ensures
            r == self@.len(),
    {
        self.size
    }

    /// The number of elements that can be held, `L`.
    pub fn capacity(&self) -> (r: usize)
        ensures
            r == L,
    {
        L
    }

    /// Puts `val` at the back. The queue must not be full.
    pub fn enq(&mut self, val: T)
        requires
            old(self).wf(),
            old(self)@.len() < L,
        ensures
            final(self).wf(),
            final(self)@ == old(self)@.push(val),
    {
        let at = self.slot(self.size);
        let ghost before = self@;
        self.slots.set(at, Some(val));
        self.size = self.size + 1;
        assert(self@ =~= before.push(val));
    }

    /// Takes the element at the front. The queue must not be empty.
    pub fn deq(&mut self) -> (r: T)
        requires
            old(self).wf(),
            old(self)@.len() > 0,
        ensures
            final(self).wf(),
            r == old(self)@[0],
            final(self)@ == old(self)@.drop_first(),
    {
        let ghost before = self@;
        let ghost head = self.head as int;
        assert(self.slots@[ring_slot(head, 0, L as int)] is Some);
        let mut taken: Option<T> = None;
        core::mem::swap(&mut self.slots[self.head], &mut taken);
        self.head = if self.head + 1 == L {
            0
        } else {
            self.head + 1
        };
        self.size = self.size - 1;
        proof {
            assert forall|i: int| 0 <= i < self.size implies (#[trigger] self.slots@[ring_slot(
                self.head as int,
                i,
                L as int,
            )]) is Some && self.slots@[ring_slot(self.head as int, i, L as int)]->0 == before[i
                + 1] by {
                assert(ring_slot(self.head as int, i, L as int) == ring_slot(
                    head,
                    i + 1,
                    L as int,
                ));
                assert(old(self).slots@[ring_slot(head, i + 1, L as int)] is Some);
            }
            assert(self@ =~= before.drop_first());
        }
        taken.unwrap()
    }

    /// Drops every element.
    pub fn clear(&mut self)
        requires
            old(self).wf(),
        ensures
            final(self).wf(),
            final(self)@ == Seq::<T>::empty(),
    {
        self.size = 0;
        assert(self@ =~= Seq::<T>::empty());
    }

    /// The element `index` places behind the front, where there is one.
    pub fn get_from_front(&self, index: usize) -> (r: Option<&T>)
        requires
            self.wf(),
        ensures
            r == if index < self@.len() {
                Some(&self@[index as int])
            } else {
                None
            },
    {
        if index < self.size {
            let at = self.slot(index);
            assert(self.slots@[ring_slot(self.head as int, index as int, L as int)] is Some);
            self.slots[at].as_ref()
        } else {
            None
        }
    }

    /// The element `index` places before the back, where there is one.
    pub fn get_from_back(&self, index: usize) -> (r: Option<&T>)
        requires
            self.wf(),
        ensures
            r == if index < self@.len() {
                Some(&self@[self@.len() - 1 - index])
            } else {
                None
            },
    {
        if index < self.size {
            self.get_from_front(self.size - 1 - index)
        } else {
            None
        }
    }

    /// The oldest element, the next one to leave.
    pub fn front(&self) -> (r: Option<&T>)
        requires
            self.wf(),
        ensures
            r == if self@.len() > 0 {
                Some(&self@[0])
            } else {
                None
            },
    {
        self.get_from_front(0)
    }

    /// The newest element.
    pub fn back(&self) -> (r: Option<&T>)
        requires
            self.wf(),
        ensures
            r == if self@.len() > 0 {
                Some(&self@.last())
            } else {
                None
            },
    {
        self.get_from_back(0)
    }

    /// A cursor that owns the elements and yields them from the front to
    /// the back.
    pub fn into_iter(self) -> (r: IntoIter<T>)
        requires
            self.wf(),
        ensures
            r.remaining() == self@,
    {
        let mut queue = self;
        let mut items: Vec<T> = Vec::new();
        while queue.size > 0
            invariant
                queue.wf(),
                queue@.len() == queue.size,
                items@ + queue@ == self@,
            decreases queue.size,
        {
            let ghost rest = queue@;
            let x = queue.deq();
            proof {
                assert(items@.push(x) + rest.drop_first() =~= items@ + rest);
            }
            items.push(x);
        }
        proof {
            assert(items@ + queue@ =~= items@);
        }
        IntoIter::from_vec(items)
    }

    /// A cursor over the elements from the front to the back.
    pub fn iter(&self) -> (r: Iter<'_, T>)
        requires
            self.wf(),
        ensures
            r.remaining() == self@,
    {
        let mut refs: Vec<&T> = Vec::new();
        let mut i: usize = 0;
        while i < self.size
            invariant
                i <= self.size,
                self.wf(),
                refs.len() == i,
                forall|k: int| 0 <= k < i ==> *refs@[k] == self@[k],
            decreases self.size - i,
        {
            match self.get_from_front(i) {
                Some(x) => {
                    refs.push(x);
                },
                None => {},
            }
            i += 1;
        }
        let r = Iter::new(refs);
        assert(r.remaining() =~= self@);
        r
    }
}

impl<T, const L: usize> Queue<T, L> {
    /// Write access to the element `index` places behind the front, where
    /// there is one.
    pub fn get_mut_from_front(&mut self, index: usize) -> (r: Option<&mut T>)
        requires
            old(self).wf(),
        ensures
            final(self).wf(),
            match r {
                Some(x) => index < old(self)@.len() && *x == old(self)@[index as int] && final(self)@ == old(self)@.update(index as int, *final(x)),
                None => index >= old(self)@.len() && final(self)@ == old(self)@,
            },
    {
        if index < self.size {
            let at = self.slot(index);
            let ghost before = self@;
            let ghost head = self.head as int;
            assert(self.slots@[ring_slot(head, index as int, L as int)] is Some);
            match &mut self.slots[at] {
                Some(x) => {
                    proof {
                        assert forall|i: int|
                            0 <= i < before.len() && i != index implies #[trigger] ring_slot(
                            head,
                            i,
                            L as int,
                        ) != at by {}
                        assert(Seq::new(
                            before.len(),
                            |i: int|
                                old(self).slots@.update(at as int, Some(*final(x)))[ring_slot(
                                    head,
                                    i,
                                    L as int,
                                )]->0,
                        ) =~= before.update(index as int, *final(x)));
                    }
                    Some(x)
                },
                None => None,
            }
        } else {
            None
        }
    }

    /// A cursor that gives write access to the elements from the front to
    /// the back. When the cursor is done, the queue is what the cursor's
    /// queue has become.
    pub fn iter_mut(&mut self) -> (r: IterMut<'_, T, L>)
        ensures
            *r.queue == *old(self),
            r.pos == 0,
            *final(r.queue) == *final(self),
    {
        IterMut { queue: self, pos: 0 }
    }
}

/// A cursor that gives write access to the elements of a queue, one at a
/// time, from the front to the back.
pub struct IterMut<'a, T, const L: usize> {
    /// The queue that the cursor walks.
    pub queue: &'a mut Queue<T, L>,
    /// The place of the next element, counted from the front.
    pub pos: usize,
}

impl<'a, T, const L: usize> IterMut<'a, T, L> {
    /// Write access to the next element, or `None` behind the last one.
    pub fn next(&mut self) -> (r: Option<&mut T>)
        requires
            old(self).queue.wf(),
        ensures
            final(self).queue.wf(),
            *final(final(self).queue) == *final(old(self).queue),
            match r {
                Some(x) => old(self).pos < old(self).queue@.len() && *x == old(self).queue@[old(self).pos as int] && final(self).queue@ == old(self).queue@.update(
                    old(self).pos as int,
                    *final(x),
                ) && final(self).pos == old(self).pos + 1,
                None => old(self).pos >= old(self).queue@.len() && final(self).queue@ == old(self).queue@ && final(self).pos == old(self).pos,
            },
    {
        let at = self.pos;
        match self.queue.get_mut_from_front(at) {
            Some(x) => {
                self.pos = at + 1;
                Some(x)
            },
            None => None,
        }
    }
}

} // verus!
