//! A reference-counted store of element buffers.
//!
//! Every shared buffer lives in a [`BufferPool`]. A buffer is addressed
//! by the index it was allocated at; the index stays valid for the whole
//! life of the pool. Each buffer carries a reference count: the number
//! of live handles that point at it. The count is raised by [`BufferPool::retain`],
//! lowered by [`BufferPool::release`], and when it reaches zero the
//! buffer's elements are dropped. Exclusive (mutable) access to a
//! buffer's elements is granted only while its count is exactly one.

use vstd::prelude::*;

verus! {

/// The mathematical model of one pool slot: the buffer's elements and
/// its reference count. A slot with count zero is dead; its buffer has
/// been released and its elements dropped.
pub ghost struct BufModel<A> {
    pub elems: Seq<A>,
    pub count: nat,
}

struct Slot<A> {
    elems: Vec<A>,
    count: usize,
}

/// The reference-counted buffer store. Its view is the sequence of slot
/// models, one per buffer ever allocated, in allocation order.
pub struct BufferPool<A> {
    slots: Vec<Slot<A>>,
}

impl<A> View for BufferPool<A> {
    type V = Seq<BufModel<A>>;

    closed spec fn view(&self) -> Seq<BufModel<A>> {
        Seq::new(
            self.slots@.len(),
            |i: int|
                BufModel { elems: self.slots@[i].elems@, count: self.slots@[i].count as nat },
        )
    }
}

impl<A> BufferPool<A> {
    /// A buffer id is live while some handle still holds it.
    pub open spec fn live(&self, id: int) -> bool {
        0 <= id < self@.len() && self@[id].count > 0
    }

    pub fn new() -> (p: Self)
        ensures
            p@ == Seq::<BufModel<A>>::empty(),
    {
        let p = BufferPool { slots: Vec::new() };
        proof {
            assert(p@ =~= Seq::<BufModel<A>>::empty());
        }
        p
    }

    /// Move a fresh buffer into the pool, with its reference count
    /// starting at one. Returns the buffer's id.
    pub fn allocate(&mut self, elems: Vec<A>) -> (id: usize)
        ensures
            id == old(self)@.len(),
            final(self)@ == old(self)@.push(BufModel { elems: elems@, count: 1 }),
    {
        let ghost e = elems@;
        let id = self.slots.len();
        self.slots.push(Slot { elems, count: 1 });
        proof {
            assert(final(self)@ =~= old(self)@.push(BufModel { elems: e, count: 1 }));
        }
        id
    }

    /// Raise the reference count of a live buffer by one: a new handle
    /// now points at it.
    pub fn retain(&mut self, id: usize)
        requires
            old(self).live(id as int),
            old(self)@[id as int].count < usize::MAX,
        ensures
            final(self)@ == old(self)@.update(
                id as int,
                BufModel { elems: old(self)@[id as int].elems, count: old(self)@[id as int].count + 1 },
            ),
    {
        let slot = &mut self.slots[id];
        slot.count = slot.count + 1;
        proof {
            assert(final(self)@ =~= old(self)@.update(
                id as int,
                BufModel { elems: old(self)@[id as int].elems, count: (old(self)@[id as int].count + 1) as nat },
            ));
        }
    }

    /// Lower the reference count of a live buffer by one: a handle has
    /// let go of it. When the count reaches zero the buffer's elements
    /// are dropped; the slot stays dead forever.
    pub fn release(&mut self, id: usize)
        requires
            old(self).live(id as int),
        ensures
            final(self)@ == old(self)@.update(
                id as int,
                BufModel {
                    elems: if old(self)@[id as int].count == 1 {
                        Seq::<A>::empty()
                    } else {
                        old(self)@[id as int].elems
                    },
                    count: (old(self)@[id as int].count - 1) as nat,
                },
            ),
    {
        let slot = &mut self.slots[id];
        slot.count = slot.count - 1;
        if slot.count == 0 {
            slot.elems = Vec::new();
        }
        proof {
            assert(final(self)@ =~= old(self)@.update(
                id as int,
                BufModel {
                    elems: if old(self)@[id as int].count == 1 {
                        Seq::<A>::empty()
                    } else {
                        old(self)@[id as int].elems
                    },
                    count: (old(self)@[id as int].count - 1) as nat,
                },
            ));
        }
    }

    /// The reference count of a live buffer.
    pub fn count(&self, id: usize) -> (c: usize)
        requires
            self.live(id as int),
        ensures
            c == self@[id as int].count,
    {
        self.slots[id].count
    }

    /// The number of elements a live buffer holds.
    pub fn buffer_len(&self, id: usize) -> (n: usize)
        requires
            self.live(id as int),
        ensures
            n == self@[id as int].elems.len(),
    {
        self.slots[id].elems.len()
    }

    /// Read-only access to a live buffer's elements.
    pub fn buffer<'a>(&'a self, id: usize) -> (s: &'a [A])
        requires
            self.live(id as int),
        ensures
            s@ == self@[id as int].elems,
    {
        self.slots[id].elems.as_slice()
    }

    /// Overwrite one element of a live buffer. This is the sole mutation
    /// path into a pooled buffer, and it demands exclusivity: the
    /// buffer's reference count must be exactly one.
    pub fn write(&mut self, id: usize, i: usize, value: A)
        requires
            old(self).live(id as int),
            old(self)@[id as int].count == 1,
            i < old(self)@[id as int].elems.len(),
        ensures
            final(self)@ == old(self)@.update(
                id as int,
                BufModel {
                    elems: old(self)@[id as int].elems.update(i as int, value),
                    count: 1,
                },
            ),
    {
        let slot = &mut self.slots[id];
        slot.elems[i] = value;
        proof {
            assert(final(self)@ =~= old(self)@.update(
                id as int,
                BufModel {
                    elems: old(self)@[id as int].elems.update(i as int, value),
                    count: 1 as nat,
                },
            ));
        }
    }
}

impl<A: Copy> BufferPool<A> {
    /// Read one element of a live buffer.
    pub fn read(&self, id: usize, i: usize) -> (v: A)
        requires
            self.live(id as int),
            i < self@[id as int].elems.len(),
        ensures
            v == self@[id as int].elems[i as int],
    {
        self.slots[id].elems[i]
    }

    /// Copy `len` elements of a live buffer, starting at `start`, into a
    /// fresh vector, in buffer order.
    pub fn copy_range(&self, id: usize, start: usize, len: usize) -> (out: Vec<A>)
        requires
            self.live(id as int),
            start + len <= self@[id as int].elems.len(),
        ensures
            out@ == self@[id as int].elems.subrange(start as int, start + len),
    {
        let total = self.buffer_len(id);
        let mut out: Vec<A> = Vec::new();
        let mut k: usize = 0;
        while k < len
            invariant
                self.live(id as int),
                start + len <= self@[id as int].elems.len(),
                start + len <= total,
                k <= len,
                out@ == self@[id as int].elems.subrange(start as int, start + k),
            decreases len - k,
        {
            let v = self.read(id, start + k);
            out.push(v);
            proof {
                assert(out@ =~= self@[id as int].elems.subrange(start as int, start + k + 1));
            }
            k = k + 1;
        }
        out
    }
}

} // verus!
