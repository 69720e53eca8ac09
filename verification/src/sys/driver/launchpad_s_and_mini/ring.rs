//! A fixed ring buffer of `N - 1` items, oldest first.

use vstd::prelude::*;

verus! {

/// A ring buffer over an array of `N` slots that holds at most `N - 1` items:
/// `push` writes at `head`, `pop` reads at `tail`.
pub struct Ring<T, const N: usize> {
    pub buffer: [T; N],
    pub head: usize,
    pub tail: usize,
}

impl<T: Copy, const N: usize> Ring<T, N> {
    /// Both positions lie within the array.
    pub open spec fn wf(self) -> bool {
        &&& 0 < N
        &&& self.head < N
        &&& self.tail < N
    }

    /// Array slot of the `i`-th oldest item.
    pub open spec fn slot(self, i: int) -> int {
        if self.tail + i < N {
            self.tail + i
        } else {
            self.tail + i - N
        }
    }

    /// Number of items held.
    pub open spec fn len(self) -> int {
        if self.head >= self.tail {
            self.head - self.tail
        } else {
            self.head + N - self.tail
        }
    }

    /// The items held, oldest first.
    pub open spec fn view(self) -> Seq<T> {
        Seq::new(self.len() as nat, |i: int| self.buffer@[self.slot(i)])
    }

    /// An empty ring whose slots all hold `init`.
    pub fn new(init: T) -> (r: Self)
        ensures
            r.view() == Seq::<T>::empty(),
            N > 0 ==> r.wf(),
    {
        let r = Ring { buffer: [init; N], head: 0, tail: 0 };
        assert(r.view() =~= Seq::<T>::empty());
        r
    }

    /// Appends `item` unless `N - 1` items are held.
    pub fn push(&mut self, item: T) -> (r: bool)
        requires
            old(self).wf(),
        ensures
            final(self).wf(),
            r == (old(self).view().len() < N - 1),
            r ==> final(self).view() == old(self).view().push(item),
            !r ==> final(self).view() == old(self).view(),
    {
        let next = if self.head + 1 == N {
            0
        } else {
            self.head + 1
        };
        if next == self.tail {
            return false;
        }
        let ghost before = *self;
        self.buffer[self.head] = item;
        self.head = next;
        assert forall|i: int| 0 <= i < before.len() implies self.view()[i] == before.view()[i] by {
            assert(self.slot(i) == before.slot(i));
            assert(before.slot(i) != before.head);
        }
        assert(self.view()[before.len()] == item) by {
            assert(self.slot(before.len()) == before.head);
        }
        assert(self.view() =~= before.view().push(item));
        true
    }

    /// Removes and returns the oldest item.
    pub fn pop(&mut self) -> (r: Option<T>)
        requires
            old(self).wf(),
        ensures
            final(self).wf(),
            old(self).view().len() == 0 ==> r is None && final(self).view() == old(self).view(),
            old(self).view().len() == 0 ==> *final(self) == *old(self),
            old(self).view().len() > 0 ==> r == Some(old(self).view()[0]) && final(self).view()
                == old(self).view().drop_first(),
    {
        if self.head == self.tail {
            return None;
        }
        let ghost before = *self;
        let item = self.buffer[self.tail];
        self.tail = if self.tail + 1 == N {
            0
        } else {
            self.tail + 1
        };
        assert forall|i: int| 0 <= i < self.len() implies self.view()[i] == before.view()[i + 1] by {
            assert(self.slot(i) == before.slot(i + 1));
        }
        assert(self.view() =~= before.view().drop_first());
        Some(item)
    }
}

} // verus!
