//! A singly linked list of owned nodes.

use crate::iter::Iter;
use vstd::prelude::*;
use vstd::std_specs::cmp::PartialEqSpec;

verus! {

/// One element of a list, and the way to the rest of it.
pub struct Node<T> {
    val: T,
    next: Option<Box<Node<T>>>,
}

/// The way from one node to the next: nothing behind the last one.
pub type Link<T> = Option<Box<Node<T>>>;

/// The values of the nodes along `link`, in order.
pub open spec fn chain<T>(link: Link<T>) -> Seq<T>
    decreases link,
{
    match link {
        None => Seq::empty(),
        Some(node) => seq![node.value()] + chain(node.behind()),
    }
}

impl<T> Node<T> {
    /// The value that the node holds.
    pub closed spec fn value(&self) -> T {
        self.val
    }

    /// The way to the node behind this one.
    pub closed spec fn behind(&self) -> Link<T> {
        self.next
    }

    /// A node that holds `val` and has nothing behind it.
    pub fn new(val: T) -> (r: Self)
        ensures
            r.value() == val,
            r.behind() is None,
    {
        Node { val, next: None }
    }

    /// The value that the node holds.
    pub fn val(&self) -> (r: &T)
        ensures
            *r == self.value(),
    {
        &self.val
    }

    /// Write access to the value that the node holds.
    pub fn val_mut(&mut self) -> (r: &mut T)
        ensures
            *r == old(self).value(),
            final(self).value() == *final(r),
            final(self).behind() == old(self).behind(),
    {
        &mut self.val
    }
}

/// Hangs a node with `val` behind the last node along `link`.
fn link_push_back<T>(link: &mut Link<T>, val: T)
    ensures
        chain(*final(link)) == chain(*old(link)).push(val),
    decreases *old(link),
{
    match link {
        None => {
            *link = Some(Box::new(Node::new(val)));
            assert(chain(*link) =~= Seq::<T>::empty().push(val)) by {
                reveal_with_fuel(chain, 3);
            }
        },
        Some(node) => {
            let ghost before = chain(node.next);
            let ghost head = node.val;
            link_push_back(&mut node.next, val);
            assert(seq![head] + before.push(val) =~= (seq![head] + before).push(val));
        },
    }
}

/// Unfolds `chain` once.
proof fn lemma_chain_step<T>(link: Link<T>)
    ensures
        link is None ==> chain(link) == Seq::<T>::empty(),
        link is Some ==> chain(link) == seq![link->0.value()] + chain(link->0.behind()),
        link is Some ==> chain(link).len() == 1 + chain(link->0.behind()).len(),
        link is Some ==> chain(link)[0] == link->0.value(),
        link is Some ==> chain(link).drop_first() == chain(link->0.behind()),
{
    if link is Some {
        assert((seq![link->0.value()] + chain(link->0.behind())).drop_first() =~= chain(
            link->0.behind(),
        ));
    }
}

/// Takes the last node along `link` off, where there is one.
fn link_pop_back<T>(link: &mut Link<T>) -> (r: Option<T>)
    ensures
        chain(*old(link)).len() == 0 ==> r is None && chain(*final(link)) == chain(*old(link)),
        chain(*old(link)).len() > 0 ==> r == Some(chain(*old(link)).last()) && chain(*final(link))
            == chain(*old(link)).drop_last(),
    decreases *old(link),
{
    proof {
        lemma_chain_step(*link);
    }
    let last_here = match link {
        None => {
            return None;
        },
        Some(node) => node.next.is_none(),
    };
    if last_here {
        let node = link.take().unwrap();
        proof {
            lemma_chain_step(node.next);
            assert(chain(*old(link)) =~= seq![node.val]);
            assert(chain(*link) =~= chain(*old(link)).drop_last());
        }
        let Node { val, next: _ } = *node;
        Some(val)
    } else {
        match link {
            None => None,
            Some(node) => {
                let ghost before = chain(node.next);
                let ghost head = node.val;
                proof {
                    lemma_chain_step(node.next);
                }
                let r = link_pop_back(&mut node.next);
                proof {
                    assert((seq![head] + before).drop_last() =~= seq![head] + before.drop_last());
                }
                r
            },
        }
    }
}

/// Puts a node with `val` at place `index` along `link`.
fn link_insert<T>(link: &mut Link<T>, index: usize, val: T)
    requires
        index <= chain(*old(link)).len(),
    ensures
        chain(*final(link)) == chain(*old(link)).insert(index as int, val),
    decreases *old(link),
{
    proof {
        lemma_chain_step(*link);
    }
    if index == 0 {
        let rest = link.take();
        *link = Some(Box::new(Node { val, next: rest }));
        proof {
            lemma_chain_step(*link);
            assert(chain(*link) =~= chain(*old(link)).insert(0, val));
        }
    } else {
        match link {
            None => {},
            Some(node) => {
                let ghost before = chain(node.next);
                let ghost head = node.val;
                link_insert(&mut node.next, index - 1, val);
                proof {
                    assert(seq![head] + before.insert(index - 1, val) =~= (seq![head]
                        + before).insert(index as int, val));
                }
            },
        }
    }
}

/// Takes the node at place `index` along `link` out.
fn link_remove<T>(link: &mut Link<T>, index: usize) -> (r: Option<T>)
    requires
        index < chain(*old(link)).len(),
    ensures
        r == Some(chain(*old(link))[index as int]),
        chain(*final(link)) == chain(*old(link)).remove(index as int),
    decreases *old(link),
{
    proof {
        lemma_chain_step(*link);
    }
    if index == 0 {
        match link.take() {
            None => None,
            Some(node) => {
                let Node { val, next } = *node;
                *link = next;
                proof {
                    assert(chain(*link) =~= chain(*old(link)).remove(0));
                }
                Some(val)
            },
        }
    } else {
        match link {
            None => None,
            Some(node) => {
                let ghost before = chain(node.next);
                let ghost head = node.val;
                let r = link_remove(&mut node.next, index - 1);
                proof {
                    assert(seq![head] + before.remove(index - 1) =~= (seq![head] + before).remove(
                        index as int,
                    ));
                }
                r
            },
        }
    }
}

/// Hangs the nodes along `tail` behind the last node along `link`.
fn link_append<T>(link: &mut Link<T>, tail: Link<T>)
    ensures
        chain(*final(link)) == chain(*old(link)) + chain(tail),
    decreases *old(link),
{
    proof {
        lemma_chain_step(*link);
    }
    match link {
        None => {
            *link = tail;
            assert(chain(*link) =~= Seq::<T>::empty() + chain(tail));
        },
        Some(node) => {
            let ghost before = chain(node.next);
            let ghost head = node.val;
            link_append(&mut node.next, tail);
            proof {
                assert(seq![head] + (before + chain(tail)) =~= (seq![head] + before) + chain(tail));
            }
        },
    }
}

/// The value at place `index` along `link`, where there is one.
fn link_get<T>(link: &Link<T>, index: usize) -> (r: Option<&T>)
    ensures
        r == if index < chain(*link).len() {
            Some(&chain(*link)[index as int])
        } else {
            None
        },
    decreases *link,
{
    proof {
        lemma_chain_step(*link);
    }
    match link {
        None => None,
        Some(node) => {
            if index == 0 {
                Some(&node.val)
            } else {
                link_get(&node.next, index - 1)
            }
        },
    }
}

/// Write access to the value at place `index` along `link`, where there is one.
fn link_get_mut<T>(link: &mut Link<T>, index: usize) -> (r: Option<&mut T>)
    ensures
        match r {
            Some(x) => index < chain(*old(link)).len() && *x == chain(*old(link))[index as int]
                && chain(*final(link)) == chain(*old(link)).update(index as int, *final(x)),
            None => index >= chain(*old(link)).len() && chain(*final(link)) == chain(*old(link)),
        },
    decreases *old(link),
{
    proof {
        lemma_chain_step(*link);
    }
    match link {
        None => None,
        Some(node) => {
            if index == 0 {
                let ghost rest = chain(node.next);
                let r = &mut node.val;
                proof {
                    assert(seq![*final(r)] + rest =~= (seq![*r] + rest).update(0, *final(r)));
                }
                Some(r)
            } else {
                let ghost before = chain(node.next);
                let ghost head = node.val;
                match link_get_mut(&mut node.next, index - 1) {
                    Some(x) => {
                        proof {
                            assert(seq![head] + before.update(index - 1, *final(x)) =~= (seq![head]
                                + before).update(index as int, *final(x)));
                        }
                        Some(x)
                    },
                    None => None,
                }
            }
        },
    }
}

/// A list of elements, each held in a node that owns the one behind it.
pub struct LinkedList<T> {
    head: Link<T>,
    size: usize,
}

impl<T> LinkedList<T> {
    /// The elements, from the front to the back.
    pub closed spec fn view(&self) -> Seq<T> {
        chain(self.head)
    }

    /// The count that the list keeps is the number of its nodes.
    pub closed spec fn wf(&self) -> bool {
        self.size == chain(self.head).len()
    }

    /// An empty list.
    pub fn new() -> (r: Self)
        ensures
            r.wf(),
            r@ == Seq::<T>::empty(),
    {
        LinkedList { head: None, size: 0 }
    }

    /// `true` when the list holds no element.
    pub fn is_empty(&self) -> (r: bool)
        requires
            self.wf(),
        ensures
            r == (self@.len() == 0),
    {
        self.size == 0
    }

    /// The number of elements.
    pub fn len(&self) -> (r: usize)
        requires
            self.wf(),
        ensures
            r == self@.len(),
    {
        self.size
    }

    /// The element at the front.
    pub fn front(&self) -> (r: Option<&T>)
        ensures
            r == if self@.len() > 0 {
                Some(&self@[0])
            } else {
                None
            },
    {
        link_get(&self.head, 0)
    }

    /// The element at the back.
    pub fn back(&self) -> (r: Option<&T>)
        requires
            self.wf(),
        ensures
            r == if self@.len() > 0 {
                Some(&self@.last())
            } else {
                None
            },
    {
        if self.size == 0 {
            None
        } else {
            link_get(&self.head, self.size - 1)
        }
    }

    /// Write access to the element at the front.
    pub fn front_mut(&mut self) -> (r: Option<&mut T>)
        ensures
            match r {
                Some(x) => 0 < old(self)@.len() && *x == old(self)@[0] && final(self)@ == old(self)@.update(0, *final(x)),
                None => old(self)@.len() == 0 && final(self)@ == old(self)@,
            },
            old(self).wf() ==> final(self).wf(),
    {
        link_get_mut(&mut self.head, 0)
    }

    /// Write access to the element at the back.
    pub fn back_mut(&mut self) -> (r: Option<&mut T>)
        requires
            old(self).wf(),
        ensures
            match r {
                Some(x) => 0 < old(self)@.len() && *x == old(self)@.last() && final(self)@ == old(self)@.update(old(self)@.len() - 1, *final(x)),
                None => old(self)@.len() == 0 && final(self)@ == old(self)@,
            },
            final(self).wf(),
    {
        if self.size == 0 {
            None
        } else {
            link_get_mut(&mut self.head, self.size - 1)
        }
    }

    /// Puts `val` behind the last element. The list must have room for it
    /// in its count.
    pub fn push_back(&mut self, val: T)
        requires
            old(self).wf(),
            old(self)@.len() < usize::MAX,
        ensures
            final(self).wf(),
            final(self)@ == old(self)@.push(val),
    {
        link_push_back(&mut self.head, val);
        self.size = self.size + 1;
    }

    /// Puts `val` before the first element.
    pub fn push_front(&mut self, val: T)
        requires
            old(self).wf(),
            old(self)@.len() < usize::MAX,
        ensures
            final(self).wf(),
            final(self)@ == seq![val] + old(self)@,
    {
        link_insert(&mut self.head, 0, val);
        self.size = self.size + 1;
        assert(old(self)@.insert(0, val) =~= seq![val] + old(self)@);
    }

    /// Takes the first element off.
    pub fn pop_front(&mut self) -> (r: Option<T>)
        requires
            old(self).wf(),
        ensures
            final(self).wf(),
            old(self)@.len() == 0 ==> r is None && final(self)@ == old(self)@,
            old(self)@.len() > 0 ==> r == Some(old(self)@[0]) && final(self)@ == old(self)@.drop_first(),
    {
        if self.size == 0 {
            None
        } else {
            let r = link_remove(&mut self.head, 0);
            self.size = self.size - 1;
            assert(old(self)@.remove(0) =~= old(self)@.drop_first());
            r
        }
    }

    /// Takes the last element off.
    pub fn pop_back(&mut self) -> (r: Option<T>)
        requires
            old(self).wf(),
        ensures
            final(self).wf(),
            old(self)@.len() == 0 ==> r is None && final(self)@ == old(self)@,
            old(self)@.len() > 0 ==> r == Some(old(self)@.last()) && final(self)@ == old(self)@.drop_last(),
    {
        let r = link_pop_back(&mut self.head);
        if self.size > 0 {
            self.size = self.size - 1;
        }
        r
    }

    /// The element at place `index`, where there is one.
    pub fn get(&self, index: usize) -> (r: Option<&T>)
        ensures
            r == if index < self@.len() {
                Some(&self@[index as int])
            } else {
                None
            },
    {
        link_get(&self.head, index)
    }

    /// Write access to the element at place `index`, where there is one.
    pub fn get_mut(&mut self, index: usize) -> (r: Option<&mut T>)
        ensures
            match r {
                Some(x) => index < old(self)@.len() && *x == old(self)@[index as int] && final(self)@ == old(self)@.update(index as int, *final(x)),
                None => index >= old(self)@.len() && final(self)@ == old(self)@,
            },
            old(self).wf() ==> final(self).wf(),
    {
        link_get_mut(&mut self.head, index)
    }

    /// Puts `val` at place `index`, which must not lie behind the end; the
    /// elements from there on move one place back.
    pub fn insert(&mut self, index: usize, val: T)
        requires
            old(self).wf(),
            index <= old(self)@.len(),
            old(self)@.len() < usize::MAX,
        ensures
            final(self).wf(),
            final(self)@ == old(self)@.insert(index as int, val),
    {
        link_insert(&mut self.head, index, val);
        self.size = self.size + 1;
    }

    /// Takes the element at place `index` out, which must be one of the list.
    pub fn remove(&mut self, index: usize) -> (r: Option<T>)
        requires
            old(self).wf(),
            index < old(self)@.len(),
        ensures
            final(self).wf(),
            r == Some(old(self)@[index as int]),
            final(self)@ == old(self)@.remove(index as int),
    {
        let r = link_remove(&mut self.head, index);
        self.size = self.size - 1;
        r
    }

    /// Puts `new_val` in place of the element at place `index`, which must
    /// be one of the list.
    pub fn change(&mut self, index: usize, new_val: T)
        requires
            old(self).wf(),
            index < old(self)@.len(),
        ensures
            final(self).wf(),
            final(self)@ == old(self)@.update(index as int, new_val),
    {
        match link_get_mut(&mut self.head, index) {
            Some(x) => {
                *x = new_val;
            },
            None => {},
        }
    }

    /// Moves every element of `other` behind the last element of `self`,
    /// in order; `other` is left empty.
    pub fn append(&mut self, other: &mut LinkedList<T>)
        requires
            old(self).wf(),
            old(other).wf(),
            old(self)@.len() + old(other)@.len() <= usize::MAX,
        ensures
            final(self).wf(),
            final(other).wf(),
            final(self)@ == old(self)@ + old(other)@,
            final(other)@ == Seq::<T>::empty(),
    {
        let tail = other.head.take();
        link_append(&mut self.head, tail);
        self.size = self.size + other.size;
        other.size = 0;
    }

    /// Drops every element.
    pub fn clear(&mut self)
        ensures
            final(self).wf(),
            final(self)@ == Seq::<T>::empty(),
    {
        self.head = None;
        self.size = 0;
    }

    /// A cursor over the elements from the front to the back.
    pub fn iter(&self) -> (r: Iter<'_, T>)
        ensures
            r.remaining() == self@,
    {
        let mut refs: Vec<&T> = Vec::new();
        let mut cur = &self.head;
        loop
            invariant
                refs@.len() + chain(*cur).len() == self@.len(),
                forall|k: int| 0 <= k < refs@.len() ==> *refs@[k] == self@[k],
                forall|k: int|
                    0 <= k < chain(*cur).len() ==> (#[trigger] chain(*cur)[k]) == self@[refs@.len()
                        + k],
            ensures
                refs@.len() == self@.len(),
            decreases chain(*cur).len(),
        {
            proof {
                lemma_chain_step(*cur);
            }
            match cur {
                None => {
                    break ;
                },
                Some(node) => {
                    proof {
                        assert forall|k: int| 0 <= k < chain(node.next).len() implies (
                        #[trigger] chain(node.next)[k]) == self@[refs@.len() + 1 + k] by {
                            assert(chain(*cur)[k + 1] == chain(node.next)[k]);
                        }
                    }
                    refs.push(&node.val);
                    cur = &node.next;
                },
            }
        }
        let r = Iter::new(refs);
        assert(r.remaining() =~= self@);
        r
    }
}

impl<T: PartialEq> LinkedList<T> {
    /// `true` when some element equals `val`.
    pub fn contains(&self, val: &T) -> (r: bool)
        ensures
            T::obeys_eq_spec() ==> r == exists|i: int|
                0 <= i < self@.len() && (#[trigger] self@[i]).eq_spec(val),
    {
        let mut cur = &self.head;
        let ghost mut seen: int = 0;
        loop
            invariant
                seen + chain(*cur).len() == self@.len(),
                seen >= 0,
                forall|k: int|
                    0 <= k < chain(*cur).len() ==> (#[trigger] chain(*cur)[k]) == self@[seen + k],
                T::obeys_eq_spec() ==> forall|i: int|
                    0 <= i < seen ==> !(#[trigger] self@[i]).eq_spec(val),
            decreases chain(*cur).len(),
        {
            proof {
                lemma_chain_step(*cur);
            }
            match cur {
                None => {
                    return false;
                },
                Some(node) => {
                    proof {
                        assert(chain(*cur)[0] == self@[seen]);
                        assert forall|k: int| 0 <= k < chain(node.next).len() implies (
                        #[trigger] chain(node.next)[k]) == self@[seen + 1 + k] by {
                            assert(chain(*cur)[k + 1] == chain(node.next)[k]);
                        }
                    }
                    if node.val == *val {
                        return true;
                    }
                    cur = &node.next;
                    proof {
                        seen = seen + 1;
                    }
                },
            }
        }
    }
}

/// A cursor that gives write access to the elements of a list, one at a
/// time, from the front to the back.
pub struct IterMut<'a, T> {
    /// The list that the cursor walks.
    pub list: &'a mut LinkedList<T>,
    /// The place of the next element.
    pub pos: usize,
}

impl<'a, T> IterMut<'a, T> {
    /// Write access to the next element, or `None` behind the last one.
    /// What the list is in the end is not changed by moving on, only by
    /// what is written through the references handed out.
    pub fn next(&mut self) -> (r: Option<&mut T>)
        requires
            old(self).list.wf(),
        ensures
            final(self).list.wf(),
            *final(final(self).list) == *final(old(self).list),
            match r {
                Some(x) => old(self).pos < old(self).list@.len() && *x == old(self).list@[old(self).pos as int] && final(self).list@ == old(self).list@.update(
                    old(self).pos as int,
                    *final(x),
                ) && final(self).pos == old(self).pos + 1,
                None => old(self).pos >= old(self).list@.len() && final(self).list@ == old(self).list@ && final(self).pos == old(self).pos,
            },
    {
        let at = self.pos;
        match self.list.get_mut(at) {
            Some(x) => {
                self.pos = at + 1;
                Some(x)
            },
            None => None,
        }
    }
}

impl<T> LinkedList<T> {
    /// A cursor that gives write access to the elements from the front to
    /// the back. When the cursor is done, the list is what the cursor's
    /// list has become.
    pub fn iter_mut(&mut self) -> (r: IterMut<'_, T>)
        ensures
            *r.list == *old(self),
            r.pos == 0,
            *final(r.list) == *final(self),
    {
        IterMut { list: self, pos: 0 }
    }
}

} // verus!
