//! The storage variants of an array and the capability traits they
//! implement.
//!
//! Four mutually exclusive storage variants exist:
//!
//! - [`OwnedRepr`]: a uniquely owned buffer of elements;
//! - [`SharedRepr`]: a handle on a reference-counted buffer in a
//!   [`BufferPool`], duplicated cheaply and mutated only after the
//!   copy-on-write promotion protocol has established exclusivity;
//! - [`ViewRepr`]: a non-owning, read-only view of elements owned
//!   elsewhere;
//! - [`ViewMutRepr`]: a non-owning view whose exclusivity is guaranteed
//!   by the borrow that created it, so it may be mutated directly.
//!
//! Four capability traits are composed per variant: [`Data`] (readable),
//! [`DataMut`] (mutable, after promotion where needed), [`DataClone`]
//! (duplicable with offset rebase), and [`DataOwned`] / [`DataShared`]
//! for ownership conversions. A variant that lacks a capability simply
//! does not implement the trait, so a forbidden operation cannot be
//! written down.

use crate::arraybase::{copy_vec, ArrayBase};
use crate::dimension::{is_row_major_strides, size_of_shape, spec_size};
use crate::pool::{BufModel, BufferPool};
use core::marker::PhantomData;
use vstd::prelude::*;

verus! {

/// Array representation trait: every storage variant is readable.
///
/// `buf` is the backing buffer the storage governs — the whole buffer,
/// not just the part a handle sees — and is empty for views, whose
/// elements live with an external owner.
pub trait Data: Sized {
    /// The array element type.
    type Elem;

    /// Whether this storage is usable under the given pool.
    spec fn wf(&self, pool: &BufferPool<Self::Elem>) -> bool;

    /// Whether this storage governs a buffer of its own (alone or
    /// shared). Views do not.
    spec fn owns(&self) -> bool;

    /// The elements of the buffer this storage governs; empty for views.
    spec fn buf(&self, pool: &BufferPool<Self::Elem>) -> Seq<Self::Elem>;

    /// The governed elements, for inspection; empty for views.
    fn _data_slice<'a>(&'a self, pool: &'a BufferPool<Self::Elem>) -> (s: &'a [Self::Elem])
        requires
            self.wf(pool),
        ensures
            s@ == self.buf(pool),
    ;
}

/// Array representation trait: storage whose elements may be written.
///
/// Implemented by owned buffers and mutable views, which are exclusive
/// by construction, and by shared buffers, whose [`DataMut::ensure_unique`]
/// runs the copy-on-write promotion protocol before any mutation.
pub trait DataMut: Data {
    /// Whether in-place mutation through this storage is allowed right
    /// now, no promotion needed.
    spec fn unique_now(&self, pool: &BufferPool<Self::Elem>) -> bool;

    /// The storage-specific account of what `ensure_unique` did to the
    /// handle and to the pool.
    spec fn ensure_unique_post(
        pre: ArrayBase<Self>,
        pre_pool: Seq<BufModel<Self::Elem>>,
        post: ArrayBase<Self>,
        post_pool: Seq<BufModel<Self::Elem>>,
    ) -> bool;

    /// Whether this storage is exclusively held.
    fn is_unique(&self, pool: &BufferPool<Self::Elem>) -> (r: bool)
        requires
            self.wf(pool),
        ensures
            r == self.unique_now(pool),
    ;

    /// The mutation gate: establish exclusive access to the handle's
    /// elements before an in-place write. The visible elements never
    /// change — only, possibly, their physical location — and a handle
    /// that is already exclusive is left exactly as it was, so a second
    /// run in a row is a no-op.
    fn ensure_unique(arr: &mut ArrayBase<Self>, pool: &mut BufferPool<Self::Elem>)
        requires
            old(arr).wf(old(pool)),
        ensures
            final(arr).wf(final(pool)),
            final(arr).data.unique_now(final(pool)),
            final(arr).shape@ == old(arr).shape@,
            final(arr).strides@ == old(arr).strides@,
            final(arr).visible(final(pool)) == old(arr).visible(old(pool)),
            old(arr).data.unique_now(old(pool)) ==> final(arr).data == old(arr).data
                && final(arr).offset == old(arr).offset && final(pool)@ == old(pool)@,
            Self::ensure_unique_post(*old(arr), old(pool)@, *final(arr), final(pool)@),
    ;
}

/// Array representation trait: storage that can be duplicated, handing
/// back the duplicate together with the element offset into it that
/// matches a given offset into the original.
///
/// Offsets are element indices counted from the buffer's start, so
/// rebasing never divides by the element's size; the duplicate's offset
/// equals the original's.
pub trait DataClone: Data {
    /// What the duplication asks of the pool and the offset.
    spec fn clone_pre(&self, pool: &BufferPool<Self::Elem>, off: int) -> bool;

    /// The storage-specific account of what the duplication did to the
    /// pool and what the duplicate is.
    spec fn clone_post(
        &self,
        pre_pool: Seq<BufModel<Self::Elem>>,
        out: Self,
        post_pool: Seq<BufModel<Self::Elem>>,
    ) -> bool;

    /// Duplicate this storage; `off` must lie within it. Returns the
    /// duplicate and the matching element offset into it.
    fn clone_with_ptr(&self, off: usize, pool: &mut BufferPool<Self::Elem>) -> (r: (Self, usize))
        requires
            self.wf(old(pool)),
            self.clone_pre(old(pool), off as int),
        ensures
            r.1 == off,
            r.0.wf(final(pool)),
            self.wf(final(pool)),
            r.0.owns() == self.owns(),
            r.0.buf(final(pool)) == self.buf(old(pool)),
            self.buf(final(pool)) == self.buf(old(pool)),
            self.clone_post(old(pool)@, r.0, final(pool)@),
    ;

    /// Overwrite this storage with a duplicate of `other`, first letting
    /// go of whatever this storage held. Returns the element offset into
    /// the duplicate matching `off` into `other`.
    fn clone_from_with_ptr(
        &mut self,
        other: &Self,
        off: usize,
        pool: &mut BufferPool<Self::Elem>,
    ) -> (roff: usize)
        requires
            old(self).wf(old(pool)),
            other.wf(old(pool)),
            Self::clone_from_pre(*old(self), old(pool), other, off as int),
        ensures
            roff == off,
            final(self).wf(final(pool)),
            other.wf(final(pool)),
            final(self).owns() == other.owns(),
            final(self).buf(final(pool)) == other.buf(old(pool)),
            other.buf(final(pool)) == other.buf(old(pool)),
            Self::clone_from_post(*old(self), old(pool)@, *other, *final(self), final(pool)@),
    ;

    /// What overwriting duplication asks of the pool and the offset.
    spec fn clone_from_pre(
        pre_self: Self,
        pool: &BufferPool<Self::Elem>,
        other: &Self,
        off: int,
    ) -> bool;

    /// The storage-specific account of what overwriting duplication did.
    spec fn clone_from_post(
        pre_self: Self,
        pre_pool: Seq<BufModel<Self::Elem>>,
        other: Self,
        post_self: Self,
        post_pool: Seq<BufModel<Self::Elem>>,
    ) -> bool;
}

/// Array representation trait: storage that is a unique or shared owner
/// of its data, constructible from a vector of elements and convertible
/// — one way only — into shared storage.
pub trait DataOwned: Data {
    /// The storage-specific account of what constructing did to the pool.
    spec fn new_post(
        pre_pool: Seq<BufModel<Self::Elem>>,
        elems: Seq<Self::Elem>,
        r: Self,
        post_pool: Seq<BufModel<Self::Elem>>,
    ) -> bool;

    /// The storage-specific account of what sharing did to the pool.
    spec fn into_shared_post(
        pre_self: Self,
        pre_pool: Seq<BufModel<Self::Elem>>,
        r: SharedRepr<Self::Elem>,
        post_pool: Seq<BufModel<Self::Elem>>,
    ) -> bool;

    /// Owned storage always governs a buffer of its own.
    proof fn owned_owns(&self)
        ensures
            self.owns(),
    ;

    /// Build this storage directly from a vector of elements.
    fn new(elems: Vec<Self::Elem>, pool: &mut BufferPool<Self::Elem>) -> (r: Self)
        ensures
            r.wf(final(pool)),
            r.owns(),
            r.buf(final(pool)) == elems@,
            Self::new_post(old(pool)@, elems@, r, final(pool)@),
    ;

    /// Consume this storage and return shared storage over the same
    /// elements, its reference count starting at one where a buffer is
    /// newly pooled.
    fn into_shared(self, pool: &mut BufferPool<Self::Elem>) -> (r: SharedRepr<Self::Elem>)
        requires
            self.wf(old(pool)),
        ensures
            r.wf(final(pool)),
            r.buf(final(pool)) == self.buf(old(pool)),
            Self::into_shared_post(self, old(pool)@, r, final(pool)@),
    ;
}

/// Array representation trait: storage that is a lightweight,
/// cheap-to-duplicate view or shared owner.
pub trait DataShared: Clone + DataClone {

}

/// A uniquely owned buffer of elements.
pub struct OwnedRepr<A> {
    elems: Vec<A>,
}

impl<A> View for OwnedRepr<A> {
    type V = Seq<A>;

    closed spec fn view(&self) -> Seq<A> {
        self.elems@
    }
}

/// Shared storage: a handle on a reference-counted buffer of a
/// [`BufferPool`]. Duplicating it raises the buffer's reference count;
/// mutation first runs the copy-on-write promotion protocol.
pub struct SharedRepr<A> {
    id: usize,
    marker: PhantomData<A>,
}

impl<A> SharedRepr<A> {
    /// The pool id of the buffer this storage references.
    pub closed spec fn buf_id(&self) -> int {
        self.id as int
    }
}

impl<A> Clone for SharedRepr<A> {
    /// Copy of the bare storage handle. This does not raise the
    /// buffer's reference count: handle duplication goes through
    /// `clone_with_ptr`, which does.
    fn clone(&self) -> (r: Self)
        ensures
            r == *self,
    {
        SharedRepr { id: self.id, marker: PhantomData }
    }
}

/// A non-owning, read-only view of elements owned elsewhere. The
/// storage itself carries no elements; access to the viewed memory is
/// the surrounding array code's affair.
pub struct ViewRepr<A> {
    marker: PhantomData<A>,
}

impl<A> ViewRepr<A> {
    /// The immutable-view storage marker.
    pub fn new() -> (r: Self) {
        ViewRepr { marker: PhantomData }
    }
}

impl<A> Clone for ViewRepr<A> {
    fn clone(&self) -> (r: Self)
        ensures
            r == *self,
    {
        ViewRepr { marker: PhantomData }
    }
}

/// A non-owning view of elements owned elsewhere that is exclusive by
/// the borrow that created it, so direct mutation is permitted and no
/// copy-on-write is ever needed. It may not be duplicated: a duplicate
/// would alias a supposedly-exclusive borrow.
pub struct ViewMutRepr<A> {
    marker: PhantomData<A>,
}

impl<A> ViewMutRepr<A> {
    /// The mutable-view storage marker.
    pub fn new() -> (r: Self) {
        ViewMutRepr { marker: PhantomData }
    }
}

impl<A> Data for OwnedRepr<A> {
    type Elem = A;

    open spec fn wf(&self, pool: &BufferPool<A>) -> bool {
        true
    }

    open spec fn owns(&self) -> bool {
        true
    }

    open spec fn buf(&self, pool: &BufferPool<A>) -> Seq<A> {
        self@
    }

    fn _data_slice<'a>(&'a self, pool: &'a BufferPool<A>) -> (s: &'a [A]) {
        self.elems.as_slice()
    }
}

impl<A> Data for SharedRepr<A> {
    type Elem = A;

    open spec fn wf(&self, pool: &BufferPool<A>) -> bool {
        pool.live(self.buf_id())
    }

    open spec fn owns(&self) -> bool {
        true
    }

    open spec fn buf(&self, pool: &BufferPool<A>) -> Seq<A> {
        pool@[self.buf_id()].elems
    }

    fn _data_slice<'a>(&'a self, pool: &'a BufferPool<A>) -> (s: &'a [A]) {
        pool.buffer(self.id)
    }
}

impl<A> Data for ViewRepr<A> {
    type Elem = A;

    open spec fn wf(&self, pool: &BufferPool<A>) -> bool {
        true
    }

    open spec fn owns(&self) -> bool {
        false
    }

    open spec fn buf(&self, pool: &BufferPool<A>) -> Seq<A> {
        Seq::empty()
    }

    fn _data_slice<'a>(&'a self, pool: &'a BufferPool<A>) -> (s: &'a [A]) {
        &[]
    }
}

/// What the promotion protocol leaves in the handle's buffer, given the
/// buffer it found, that buffer's reference count, and the handle's
/// element offset and visible element count. With the count at one the
/// buffer is already exclusive and stays untouched. Otherwise, a handle
/// seeing at most half of the buffer gets a compacting copy — a fresh
/// buffer of exactly its visible elements — and a handle seeing more
/// gets a full duplicate of the whole buffer.
pub open spec fn promoted_buf<A>(buf: Seq<A>, count: nat, off: int, size: int) -> Seq<A> {
    if count == 1 {
        buf
    } else if size <= buf.len() / 2 {
        buf.subrange(off, off + size)
    } else {
        buf
    }
}

/// Where the promotion protocol leaves the handle's element offset: at
/// zero after a compacting copy, unchanged otherwise.
pub open spec fn promoted_offset<A>(buf: Seq<A>, count: nat, off: int, size: int) -> int {
    if count == 1 {
        off
    } else if size <= buf.len() / 2 {
        0
    } else {
        off
    }
}

/// Promotion is idempotent: a promoted buffer has reference count one,
/// and promoting at count one changes neither the buffer nor the offset.
pub proof fn lemma_promotion_idempotent<A>(buf: Seq<A>, count: nat, off: int, size: int)
    ensures
        promoted_buf(
            promoted_buf(buf, count, off, size),
            1,
            promoted_offset(buf, count, off, size),
            size,
        ) == promoted_buf(buf, count, off, size),
        promoted_offset(
            promoted_buf(buf, count, off, size),
            1,
            promoted_offset(buf, count, off, size),
            size,
        ) == promoted_offset(buf, count, off, size),
{
}

/// Promotion never changes the elements visible through the handle —
/// only, possibly, their physical location.
pub proof fn lemma_promotion_preserves_visible<A>(buf: Seq<A>, count: nat, off: int, size: int)
    requires
        0 <= off,
        0 <= size,
        off + size <= buf.len(),
    ensures
        promoted_buf(buf, count, off, size).subrange(
            promoted_offset(buf, count, off, size),
            promoted_offset(buf, count, off, size) + size,
        ) == buf.subrange(off, off + size),
{
    assert(promoted_buf(buf, count, off, size).subrange(
        promoted_offset(buf, count, off, size),
        promoted_offset(buf, count, off, size) + size,
    ) =~= buf.subrange(off, off + size));
}

/// A compacting copy — taken when the buffer is not exclusive and the
/// handle sees at most half of it — holds exactly the handle's visible
/// elements, in order, and the handle's offset is rebased to zero.
pub proof fn lemma_compacting_copy<A>(buf: Seq<A>, count: nat, off: int, size: int)
    requires
        count != 1,
        size <= buf.len() / 2,
        0 <= off,
        0 <= size,
        off + size <= buf.len(),
    ensures
        promoted_buf(buf, count, off, size).len() == size,
        promoted_buf(buf, count, off, size) == buf.subrange(off, off + size),
        promoted_offset(buf, count, off, size) == 0,
{
}

/// A full duplication — taken when the buffer is not exclusive and the
/// handle sees more than half of it — copies the whole buffer, every
/// element, and the handle's offset is unchanged.
pub proof fn lemma_full_duplication<A>(buf: Seq<A>, count: nat, off: int, size: int)
    requires
        count != 1,
        !(size <= buf.len() / 2),
    ensures
        promoted_buf(buf, count, off, size) == buf,
        promoted_offset(buf, count, off, size) == off,
{
}

/// The element offset that a raw byte offset into a buffer stands for,
/// given the element type's size in bytes. A zero-sized element type
/// has no byte extent — all its positions are interchangeable — so the
/// offset is defined as zero and no division is performed. (Everywhere
/// else in this layer offsets are element indices already, so promotion
/// and duplication never divide at all.)
pub fn logical_offset(byte_offset: usize, elem_size: usize) -> (off: usize)
    ensures
        elem_size == 0 ==> off == 0,
        elem_size != 0 ==> off == byte_offset / elem_size,
{
    if elem_size == 0 {
        0
    } else {
        byte_offset / elem_size
    }
}

impl<A> Data for ViewMutRepr<A> {
    type Elem = A;

    open spec fn wf(&self, pool: &BufferPool<A>) -> bool {
        true
    }

    open spec fn owns(&self) -> bool {
        false
    }

    open spec fn buf(&self, pool: &BufferPool<A>) -> Seq<A> {
        Seq::empty()
    }

    fn _data_slice<'a>(&'a self, pool: &'a BufferPool<A>) -> (s: &'a [A]) {
        &[]
    }
}

impl<A> DataMut for OwnedRepr<A> {
    open spec fn unique_now(&self, pool: &BufferPool<A>) -> bool {
        true
    }

    open spec fn ensure_unique_post(
        pre: ArrayBase<OwnedRepr<A>>,
        pre_pool: Seq<BufModel<A>>,
        post: ArrayBase<OwnedRepr<A>>,
        post_pool: Seq<BufModel<A>>,
    ) -> bool {
        &&& post_pool == pre_pool
        &&& post.data@ == pre.data@
        &&& post.offset == pre.offset
    }

    fn is_unique(&self, pool: &BufferPool<A>) -> (r: bool) {
        true
    }

    /// An owned buffer is exclusive by construction: nothing to do.
    fn ensure_unique(arr: &mut ArrayBase<OwnedRepr<A>>, pool: &mut BufferPool<A>) {
    }
}

impl<A> DataMut for ViewMutRepr<A> {
    open spec fn unique_now(&self, pool: &BufferPool<A>) -> bool {
        true
    }

    open spec fn ensure_unique_post(
        pre: ArrayBase<ViewMutRepr<A>>,
        pre_pool: Seq<BufModel<A>>,
        post: ArrayBase<ViewMutRepr<A>>,
        post_pool: Seq<BufModel<A>>,
    ) -> bool {
        &&& post_pool == pre_pool
        &&& post.offset == pre.offset
    }

    fn is_unique(&self, pool: &BufferPool<A>) -> (r: bool) {
        true
    }

    /// A mutable view is exclusive by its borrow: nothing to do.
    fn ensure_unique(arr: &mut ArrayBase<ViewMutRepr<A>>, pool: &mut BufferPool<A>) {
    }
}

impl<A: Copy> DataMut for SharedRepr<A> {
    open spec fn unique_now(&self, pool: &BufferPool<A>) -> bool {
        pool@[self.buf_id()].count == 1
    }

    open spec fn ensure_unique_post(
        pre: ArrayBase<SharedRepr<A>>,
        pre_pool: Seq<BufModel<A>>,
        post: ArrayBase<SharedRepr<A>>,
        post_pool: Seq<BufModel<A>>,
    ) -> bool {
        let id = pre.data.buf_id();
        let buf = pre_pool[id].elems;
        let c = pre_pool[id].count;
        let off = pre.offset as int;
        let size = spec_size(pre.shape@);
        &&& post.offset == promoted_offset(buf, c, off, size)
        &&& if c == 1 {
            &&& post_pool == pre_pool
            &&& post.data == pre.data
        } else {
            &&& post_pool == pre_pool.update(
                id,
                BufModel { elems: buf, count: (c - 1) as nat },
            ).push(BufModel { elems: promoted_buf(buf, c, off, size), count: 1 })
            &&& post.data.buf_id() == pre_pool.len()
        }
    }

    fn is_unique(&self, pool: &BufferPool<A>) -> (r: bool) {
        pool.count(self.id) == 1
    }

    /// The copy-on-write promotion protocol. With the reference count at
    /// one the buffer is already exclusive and nothing happens. Otherwise
    /// the handle lets go of the shared buffer and moves to a fresh one:
    /// a compacting copy of just its visible elements when it sees at
    /// most half of the buffer, a full duplicate of the whole buffer —
    /// with the offset kept — when it sees more.
    fn ensure_unique(arr: &mut ArrayBase<SharedRepr<A>>, pool: &mut BufferPool<A>) {
        let id = arr.data.id;
        if pool.count(id) == 1 {
            return ;
        }
        let size = arr.size();
        let total = pool.buffer_len(id);
        if size <= total / 2 {
            let newv = pool.copy_range(id, arr.offset, size);
            pool.release(id);
            let nid = pool.allocate(newv);
            arr.data = SharedRepr { id: nid, marker: PhantomData };
            arr.offset = 0;
            proof {
                assert(arr.visible(pool) =~= old(arr).visible(old(pool)));
            }
        } else {
            let newv = pool.copy_range(id, 0, total);
            pool.release(id);
            let nid = pool.allocate(newv);
            arr.data = SharedRepr { id: nid, marker: PhantomData };
            proof {
                assert(pool@[arr.data.buf_id()].elems =~= old(pool)@[id as int].elems);
                assert(arr.visible(pool) =~= old(arr).visible(old(pool)));
            }
        }
    }
}

impl<A: Copy> DataClone for OwnedRepr<A> {
    open spec fn clone_pre(&self, pool: &BufferPool<A>, off: int) -> bool {
        off <= self@.len()
    }

    open spec fn clone_post(
        &self,
        pre_pool: Seq<BufModel<A>>,
        out: OwnedRepr<A>,
        post_pool: Seq<BufModel<A>>,
    ) -> bool {
        &&& post_pool == pre_pool
        &&& out@ == self@
    }

    /// A deep copy of the owned buffer; the element offset carries over
    /// unchanged, since offsets count elements, not bytes.
    fn clone_with_ptr(&self, off: usize, pool: &mut BufferPool<A>) -> (r: (Self, usize)) {
        (OwnedRepr { elems: copy_vec(&self.elems) }, off)
    }

    open spec fn clone_from_pre(
        pre_self: OwnedRepr<A>,
        pool: &BufferPool<A>,
        other: &OwnedRepr<A>,
        off: int,
    ) -> bool {
        off <= other@.len()
    }

    open spec fn clone_from_post(
        pre_self: OwnedRepr<A>,
        pre_pool: Seq<BufModel<A>>,
        other: OwnedRepr<A>,
        post_self: OwnedRepr<A>,
        post_pool: Seq<BufModel<A>>,
    ) -> bool {
        &&& post_pool == pre_pool
        &&& post_self@ == other@
    }

    fn clone_from_with_ptr(
        &mut self,
        other: &Self,
        off: usize,
        pool: &mut BufferPool<A>,
    ) -> (roff: usize) {
        self.elems = copy_vec(&other.elems);
        off
    }
}

impl<A> DataClone for SharedRepr<A> {
    open spec fn clone_pre(&self, pool: &BufferPool<A>, off: int) -> bool {
        pool@[self.buf_id()].count < usize::MAX
    }

    open spec fn clone_post(
        &self,
        pre_pool: Seq<BufModel<A>>,
        out: SharedRepr<A>,
        post_pool: Seq<BufModel<A>>,
    ) -> bool {
        &&& post_pool == pre_pool.update(
            self.buf_id(),
            BufModel {
                elems: pre_pool[self.buf_id()].elems,
                count: pre_pool[self.buf_id()].count + 1,
            },
        )
        &&& out.buf_id() == self.buf_id()
    }

    /// Duplication of shared storage is a reference-count increment: the
    /// buffer, and the offset into it, are untouched, and no element is
    /// copied.
    fn clone_with_ptr(&self, off: usize, pool: &mut BufferPool<A>) -> (r: (Self, usize)) {
        pool.retain(self.id);
        (SharedRepr { id: self.id, marker: PhantomData }, off)
    }

    open spec fn clone_from_pre(
        pre_self: SharedRepr<A>,
        pool: &BufferPool<A>,
        other: &SharedRepr<A>,
        off: int,
    ) -> bool {
        pool@[other.buf_id()].count < usize::MAX
    }

    open spec fn clone_from_post(
        pre_self: SharedRepr<A>,
        pre_pool: Seq<BufModel<A>>,
        other: SharedRepr<A>,
        post_self: SharedRepr<A>,
        post_pool: Seq<BufModel<A>>,
    ) -> bool {
        let mid = pre_pool.update(
            other.buf_id(),
            BufModel {
                elems: pre_pool[other.buf_id()].elems,
                count: pre_pool[other.buf_id()].count + 1,
            },
        );
        let c = mid[pre_self.buf_id()].count;
        &&& post_pool == mid.update(
            pre_self.buf_id(),
            BufModel {
                elems: if c == 1 {
                    Seq::<A>::empty()
                } else {
                    mid[pre_self.buf_id()].elems
                },
                count: (c - 1) as nat,
            },
        )
        &&& post_self.buf_id() == other.buf_id()
    }

    /// Take another reference on `other`'s buffer, then let go of the
    /// buffer this storage held.
    fn clone_from_with_ptr(
        &mut self,
        other: &Self,
        off: usize,
        pool: &mut BufferPool<A>,
    ) -> (roff: usize) {
        pool.retain(other.id);
        pool.release(self.id);
        self.id = other.id;
        off
    }
}

impl<A> DataClone for ViewRepr<A> {
    open spec fn clone_pre(&self, pool: &BufferPool<A>, off: int) -> bool {
        true
    }

    open spec fn clone_post(
        &self,
        pre_pool: Seq<BufModel<A>>,
        out: ViewRepr<A>,
        post_pool: Seq<BufModel<A>>,
    ) -> bool {
        &&& post_pool == pre_pool
        &&& out == *self
    }

    /// Views are cheap to duplicate by nature: a copy of the marker,
    /// with the offset untouched.
    fn clone_with_ptr(&self, off: usize, pool: &mut BufferPool<A>) -> (r: (Self, usize)) {
        (self.clone(), off)
    }

    open spec fn clone_from_pre(
        pre_self: ViewRepr<A>,
        pool: &BufferPool<A>,
        other: &ViewRepr<A>,
        off: int,
    ) -> bool {
        true
    }

    open spec fn clone_from_post(
        pre_self: ViewRepr<A>,
        pre_pool: Seq<BufModel<A>>,
        other: ViewRepr<A>,
        post_self: ViewRepr<A>,
        post_pool: Seq<BufModel<A>>,
    ) -> bool {
        &&& post_pool == pre_pool
        &&& post_self == other
    }

    fn clone_from_with_ptr(
        &mut self,
        other: &Self,
        off: usize,
        pool: &mut BufferPool<A>,
    ) -> (roff: usize) {
        *self = other.clone();
        off
    }
}

impl<A> DataOwned for OwnedRepr<A> {
    open spec fn new_post(
        pre_pool: Seq<BufModel<A>>,
        elems: Seq<A>,
        r: OwnedRepr<A>,
        post_pool: Seq<BufModel<A>>,
    ) -> bool {
        &&& post_pool == pre_pool
        &&& r@ == elems
    }

    open spec fn into_shared_post(
        pre_self: OwnedRepr<A>,
        pre_pool: Seq<BufModel<A>>,
        r: SharedRepr<A>,
        post_pool: Seq<BufModel<A>>,
    ) -> bool {
        &&& post_pool == pre_pool.push(BufModel { elems: pre_self@, count: 1 })
        &&& r.buf_id() == pre_pool.len()
    }

    proof fn owned_owns(&self) {
    }

    /// The vector of elements is the owned buffer already.
    fn new(elems: Vec<A>, pool: &mut BufferPool<A>) -> (r: Self) {
        OwnedRepr { elems }
    }

    /// Move the buffer into the pool; the new shared buffer starts with
    /// reference count one.
    fn into_shared(self, pool: &mut BufferPool<A>) -> (r: SharedRepr<A>) {
        let id = pool.allocate(self.elems);
        SharedRepr { id, marker: PhantomData }
    }
}

impl<A> DataOwned for SharedRepr<A> {
    open spec fn new_post(
        pre_pool: Seq<BufModel<A>>,
        elems: Seq<A>,
        r: SharedRepr<A>,
        post_pool: Seq<BufModel<A>>,
    ) -> bool {
        &&& post_pool == pre_pool.push(BufModel { elems: elems, count: 1 })
        &&& r.buf_id() == pre_pool.len()
    }

    open spec fn into_shared_post(
        pre_self: SharedRepr<A>,
        pre_pool: Seq<BufModel<A>>,
        r: SharedRepr<A>,
        post_pool: Seq<BufModel<A>>,
    ) -> bool {
        &&& post_pool == pre_pool
        &&& r == pre_self
    }

    proof fn owned_owns(&self) {
    }

    /// Pool the elements as a fresh shared buffer with count one.
    fn new(elems: Vec<A>, pool: &mut BufferPool<A>) -> (r: Self) {
        let id = pool.allocate(elems);
        SharedRepr { id, marker: PhantomData }
    }

    /// Already shared: nothing changes.
    fn into_shared(self, pool: &mut BufferPool<A>) -> (r: SharedRepr<A>) {
        self
    }
}

impl<A> DataShared for SharedRepr<A> {

}

impl<A> DataShared for ViewRepr<A> {

}

impl<A> ArrayBase<OwnedRepr<A>> {
    /// Well-formedness of an owned-storage handle, which no pool state
    /// can affect.
    pub open spec fn owned_wf(&self) -> bool {
        &&& is_row_major_strides(self.shape@, self.strides@)
        &&& 0 <= self.size_spec() <= usize::MAX
        &&& self.offset + self.size_spec() <= self.data@.len()
    }

    /// The elements visible through an owned-storage handle.
    pub open spec fn owned_visible(&self) -> Seq<A> {
        self.data@.subrange(self.offset as int, self.offset + self.size_spec())
    }

    /// Write one visible element in place. An owned buffer is exclusive
    /// by construction, so no precondition guards the write beyond
    /// bounds.
    pub fn write_visible(&mut self, i: usize, value: A)
        requires
            old(self).owned_wf(),
            i < old(self).size_spec(),
        ensures
            final(self).owned_wf(),
            final(self).offset == old(self).offset,
            final(self).shape@ == old(self).shape@,
            final(self).strides@ == old(self).strides@,
            final(self).owned_visible() == old(self).owned_visible().update(i as int, value),
    {
        let blen = self.data.elems.len();
        let idx = self.offset + i;
        self.data.elems[idx] = value;
        proof {
            assert(final(self).owned_visible() =~= old(self).owned_visible().update(
                i as int,
                value,
            ));
        }
    }
}

impl<A: Copy> ArrayBase<OwnedRepr<A>> {
    /// Replace every visible element with what `f` makes of its value,
    /// in place. An owned buffer is exclusive by construction, so the
    /// writes need no promotion; elements outside the visible range are
    /// untouched.
    pub fn mapv_inplace<F: Fn(A) -> A>(&mut self, f: F)
        requires
            old(self).owned_wf(),
            forall|x: A| #[trigger] f.requires((x,)),
        ensures
            final(self).owned_wf(),
            final(self).offset == old(self).offset,
            final(self).shape@ == old(self).shape@,
            final(self).strides@ == old(self).strides@,
            final(self).data@.len() == old(self).data@.len(),
            final(self).owned_visible().len() == old(self).owned_visible().len(),
            forall|i: int|
                0 <= i < old(self).owned_visible().len() ==> f.ensures(
                    (old(self).owned_visible()[i],),
                    #[trigger] final(self).owned_visible()[i],
                ),
            forall|i: int|
                0 <= i < old(self).data@.len() && !(old(self).offset <= i < old(self).offset
                    + old(self).size_spec()) ==> final(self).data@[i] == old(self).data@[i],
    {
        let blen = self.data.elems.len();
        let n = size_of_shape(&self.shape);
        let mut i: usize = 0;
        while i < n
            invariant
                i <= n,
                n == old(self).size_spec(),
                blen == old(self).data@.len(),
                self.data@.len() == blen,
                self.offset == old(self).offset,
                self.shape@ == old(self).shape@,
                self.strides@ == old(self).strides@,
                self.offset + n <= blen,
                forall|x: A| #[trigger] f.requires((x,)),
                forall|k: int|
                    0 <= k < i ==> f.ensures(
                        (old(self).data@[old(self).offset + k],),
                        #[trigger] self.data@[self.offset + k],
                    ),
                forall|k: int|
                    0 <= k < blen && !(self.offset <= k < self.offset + i) ==> self.data@[k]
                        == old(self).data@[k],
            decreases n - i,
        {
            let idx = self.offset + i;
            let v = self.data.elems[idx];
            let w = f(v);
            self.data.elems[idx] = w;
            i = i + 1;
        }
        proof {
            assert forall|k: int| 0 <= k < old(self).owned_visible().len() implies f.ensures(
                (old(self).owned_visible()[k],),
                #[trigger] self.owned_visible()[k],
            ) by {
                assert(old(self).owned_visible()[k] == old(self).data@[old(self).offset + k]);
                assert(self.owned_visible()[k] == self.data@[self.offset + k]);
            }
        }
    }
}

impl<A> ArrayBase<SharedRepr<A>> {
    /// The reference count of the shared buffer this handle is backed
    /// by: how many live handles point at it.
    pub fn ref_count(&self, pool: &BufferPool<A>) -> (c: usize)
        requires
            self.data.wf(pool),
        ensures
            c == pool@[self.data.buf_id()].count,
    {
        pool.count(self.data.id)
    }

    /// Write one visible element in place. Mutation through a shared
    /// buffer demands exclusivity: the promotion protocol must have run,
    /// leaving the reference count at one.
    pub fn write_visible(&self, pool: &mut BufferPool<A>, i: usize, value: A)
        requires
            self.wf(old(pool)),
            old(pool)@[self.data.buf_id()].count == 1,
            i < self.size_spec(),
        ensures
            self.wf(final(pool)),
            final(pool)@ == old(pool)@.update(
                self.data.buf_id(),
                BufModel {
                    elems: old(pool)@[self.data.buf_id()].elems.update(
                        self.offset + i,
                        value,
                    ),
                    count: 1,
                },
            ),
            self.visible(final(pool)) == self.visible(old(pool)).update(i as int, value),
    {
        let blen = pool.buffer_len(self.data.id);
        pool.write(self.data.id, self.offset + i, value);
        proof {
            assert(self.visible(pool) =~= self.visible(old(pool)).update(i as int, value));
        }
    }
}

} // verus!
