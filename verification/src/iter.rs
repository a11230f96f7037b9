//! Cursors over the elements of a container, in the order in which the
//! container yields them.

use vstd::prelude::*;

verus! {

/// A cursor over borrowed elements.
pub struct Iter<'a, T> {
    items: Vec<&'a T>,
    pos: usize,
}

impl<'a, T> Iter<'a, T> {
    /// The elements still to come, the next one first.
    pub closed spec fn remaining(&self) -> Seq<T> {
        Seq::new(
            (self.items@.len() - self.pos) as nat,
            |i: int| *self.items@[self.pos + i],
        )
    }

    /// The position does not lie behind the end.
    #[verifier::type_invariant]
    closed spec fn in_bounds(&self) -> bool {
        self.pos <= self.items@.len()
    }

    /// A cursor that yields `items` from the first one on.
    pub fn new(items: Vec<&'a T>) -> (r: Self)
        ensures
            r.remaining() == Seq::new(items@.len(), |i: int| *items@[i]),
    {
        let r = Iter { items, pos: 0 };
        assert(r.remaining() =~= Seq::new(items@.len(), |i: int| *items@[i]));
        r
    }

    /// The next element, or `None` behind the last one.
    pub fn next(&mut self) -> (r: Option<&'a T>)
        ensures
            match r {
                Some(x) => old(self).remaining().len() > 0 && *x == old(self).remaining()[0]
                    && final(self).remaining() == old(self).remaining().drop_first(),
                None => old(self).remaining().len() == 0 && final(self).remaining() == old(self).remaining(),
            },
    {
        proof {
            use_type_invariant(&*self);
        }
        if self.pos < self.items.len() {
            let x = self.items[self.pos];
            let ghost before = self.remaining();
            self.pos = self.pos + 1;
            assert(self.remaining() =~= before.drop_first());
            Some(x)
        } else {
            None
        }
    }
}

/// A cursor over elements that it owns.
pub struct IntoIter<T> {
    reversed: Vec<T>,
}

impl<T> IntoIter<T> {
    /// The elements still to come, the next one first.
    pub closed spec fn remaining(&self) -> Seq<T> {
        self.reversed@.reverse()
    }

    /// A cursor that yields the elements of `reversed` from the last one
    /// back to the first.
    pub fn new(reversed: Vec<T>) -> (r: Self)
        ensures
            r.remaining() == reversed@.reverse(),
    {
        IntoIter { reversed }
    }

    /// A cursor that yields the elements of `items` from the first one on.
    pub fn from_vec(items: Vec<T>) -> (r: Self)
        ensures
            r.remaining() == items@,
    {
        let mut items = items;
        let mut reversed: Vec<T> = Vec::new();
        let ghost all = items@;
        while items.len() > 0
            invariant
                items@.len() + reversed@.len() == all.len(),
                items@ == all.take(items@.len() as int),
                reversed@ == all.skip(items@.len() as int).reverse(),
            decreases items.len(),
        {
            let ghost before = items@;
            match items.pop() {
                Some(x) => {
                    reversed.push(x);
                    proof {
                        assert(items@ =~= all.take(items@.len() as int));
                        assert(reversed@ =~= all.skip(items@.len() as int).reverse());
                    }
                },
                None => {},
            }
        }
        proof {
            assert(all.skip(0) =~= all);
            assert(all.reverse().reverse() =~= all);
        }
        IntoIter { reversed }
    }

    /// The next element, or `None` behind the last one.
    pub fn next(&mut self) -> (r: Option<T>)
        ensures
            match r {
                Some(x) => old(self).remaining().len() > 0 && x == old(self).remaining()[0]
                    && final(self).remaining() == old(self).remaining().drop_first(),
                None => old(self).remaining().len() == 0 && final(self).remaining() == old(self).remaining(),
            },
    {
        let ghost before = self.reversed@;
        let r = self.reversed.pop();
        proof {
            if before.len() > 0 {
                assert(before.drop_last().reverse() =~= before.reverse().drop_first());
            }
        }
        r
    }
}

} // verus!
