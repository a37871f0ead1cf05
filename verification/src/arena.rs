//! Fixed-capacity, bump-allocated entity pools.
//!
//! A pool hands out stable slots for one entity kind. Its capacity is fixed
//! when it is created; `push` past the capacity reports exhaustion instead of
//! growing, and `reset` empties the pool without changing the capacity.
//! A slot index plays the role the host's stable entity addresses play: every
//! reference between entities is a slot index into the pool of the target
//! kind.

use vstd::prelude::*;

verus! {

/// A bump-allocated pool of entities of one kind.
pub struct RawVec<T> {
    items: Vec<T>,
    capacity: usize,
}

impl<T> View for RawVec<T> {
    type V = Seq<T>;

    closed spec fn view(&self) -> Seq<T> {
        self.items@
    }
}

impl<T> RawVec<T> {
    /// The fixed capacity the pool was created with.
    pub closed spec fn spec_capacity(&self) -> usize {
        self.capacity
    }

    /// Creates an empty pool that will never hold more than `cap` entities.
    pub fn with_capacity(cap: usize) -> (r: RawVec<T>)
        ensures
            r@ == Seq::<T>::empty(),
            r.spec_capacity() == cap,
    {
        RawVec { items: Vec::new(), capacity: cap }
    }

    pub fn len(&self) -> (r: usize)
        ensures
            r == self@.len(),
    {
        self.items.len()
    }

    pub fn capacity(&self) -> (r: usize)
        ensures
            r == self.spec_capacity(),
    {
        self.capacity
    }

    /// Appends one entity. Returns the slot that now holds it, or `None` if
    /// the pool is full; a full pool is left exactly as it was, so exhaustion
    /// is a recoverable condition, never a corruption of prior slots.
    pub fn push(&mut self, value: T) -> (r: Option<usize>)
        ensures
            old(self)@.len() < old(self).spec_capacity() ==> {
                &&& r == Some(old(self)@.len() as usize)
                &&& final(self)@ == old(self)@.push(value)
            },
            old(self)@.len() >= old(self).spec_capacity() ==> {
                &&& r is None
                &&& final(self)@ == old(self)@
            },
            final(self).spec_capacity() == old(self).spec_capacity(),
    {
        if self.items.len() < self.capacity {
            let slot = self.items.len();
            self.items.push(value);
            Some(slot)
        } else {
            None
        }
    }

    /// Empties the pool. The backing storage and the capacity are kept: this
    /// is the explicit "new session" event, not a per-entity destructor.
    pub fn reset(&mut self)
        ensures
            final(self)@ == Seq::<T>::empty(),
            final(self).spec_capacity() == old(self).spec_capacity(),
    {
        self.items.clear();
    }

    pub fn get(&self, i: usize) -> (r: &T)
        requires
            i < self@.len(),
        ensures
            *r == self@[i as int],
    {
        &self.items[i]
    }

    pub fn set(&mut self, i: usize, value: T)
        requires
            i < old(self)@.len(),
        ensures
            final(self)@ == old(self)@.update(i as int, value),
            final(self).spec_capacity() == old(self).spec_capacity(),
    {
        self.items[i] = value;
    }
}

impl<T: Copy> RawVec<T> {
    /// Writes `value` into slot `i`, extending the pool with `blank` entities
    /// if the slot lies past the current size. Slots a load writes out of
    /// order are reached this way; the blanks stand for the dead storage the
    /// host never reads.
    pub fn place_at(&mut self, i: usize, value: T, blank: T)
        requires
            i < old(self).spec_capacity(),
        ensures
            final(self).spec_capacity() == old(self).spec_capacity(),
            final(self)@.len() == if i + 1 > old(self)@.len() {
                i + 1
            } else {
                old(self)@.len() as int
            },
            final(self)@[i as int] == value,
            forall|j: int|
                0 <= j < old(self)@.len() && j != i ==> final(self)@[j] == old(self)@[j],
            forall|j: int|
                old(self)@.len() <= j < final(self)@.len() && j != i ==> final(self)@[j] == blank,
    {
        while self.items.len() <= i
            invariant
                i < self.capacity,
                self.capacity == old(self).spec_capacity(),
                self.items@.len() >= old(self)@.len(),
                self.items@.len() <= i + 1 || self.items@.len() == old(self)@.len(),
                forall|j: int| 0 <= j < old(self)@.len() ==> self.items@[j] == old(self)@[j],
                forall|j: int|
                    old(self)@.len() <= j < self.items@.len() ==> self.items@[j] == blank,
            decreases i + 1 - self.items@.len(),
        {
            self.items.push(blank);
        }
        self.items[i] = value;
    }
}

} // verus!
