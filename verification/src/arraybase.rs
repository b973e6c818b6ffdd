//! The array handle: a storage variant together with a dimension
//! descriptor, a row-major stride descriptor, and the current element
//! offset into the backing buffer.
//!
//! The handle owns its storage variant exclusively; dimension and
//! strides are plain value data. For storage that owns a buffer
//! (exclusively or shared), the handle's visible elements are the
//! `size` elements of the buffer starting at `offset`, where `size` is
//! the product of the axis lengths.

use crate::data_traits::{Data, DataClone, DataOwned, SharedRepr};
use crate::dimension::{
    default_strides, is_row_major_strides, lemma_product_nonneg, size_of_shape, spec_size,
    strides_fit,
};
use crate::pool::BufferPool;
use vstd::prelude::*;

verus! {

/// Copy a vector of machine-copyable values, element for element.
pub fn copy_vec<A: Copy>(v: &Vec<A>) -> (out: Vec<A>)
    ensures
        out@ == v@,
{
    let mut out: Vec<A> = Vec::new();
    let mut i: usize = 0;
    while i < v.len()
        invariant
            i <= v@.len(),
            out@ == v@.subrange(0, i as int),
        decreases v@.len() - i,
    {
        out.push(v[i]);
        proof {
            assert(out@ =~= v@.subrange(0, i + 1));
        }
        i = i + 1;
    }
    proof {
        assert(out@ =~= v@);
    }
    out
}

/// An array handle over a storage variant `S`.
pub struct ArrayBase<S: Data> {
    /// The storage variant.
    pub data: S,
    /// Element offset of the handle's first visible element, counted
    /// from the start of the backing buffer.
    pub offset: usize,
    /// Axis lengths.
    pub shape: Vec<usize>,
    /// Row-major strides, kept in step with `shape`.
    pub strides: Vec<usize>,
}

impl<S: Data> ArrayBase<S> {
    /// The number of elements visible through this handle.
    pub open spec fn size_spec(&self) -> int {
        spec_size(self.shape@)
    }

    /// Well-formedness: the storage is usable, the strides are the
    /// row-major strides of the shape, the visible element count fits a
    /// machine word, and — whenever the storage owns a buffer — the
    /// visible range lies within that buffer's bounds.
    pub open spec fn wf(&self, pool: &BufferPool<S::Elem>) -> bool {
        &&& self.data.wf(pool)
        &&& is_row_major_strides(self.shape@, self.strides@)
        &&& 0 <= self.size_spec() <= usize::MAX
        &&& self.data.owns() ==> self.offset + self.size_spec() <= self.data.buf(pool).len()
    }

    /// The elements visible through this handle, in logical order.
    pub open spec fn visible(&self, pool: &BufferPool<S::Elem>) -> Seq<S::Elem> {
        self.data.buf(pool).subrange(self.offset as int, self.offset + self.size_spec())
    }

    /// The number of elements visible through this handle.
    pub fn size(&self) -> (n: usize)
        requires
            0 <= self.size_spec() <= usize::MAX,
        ensures
            n == self.size_spec(),
    {
        size_of_shape(&self.shape)
    }

    /// The number of axes.
    pub fn ndim(&self) -> (n: usize)
        ensures
            n == self.shape@.len(),
    {
        self.shape.len()
    }

    /// The axis lengths.
    pub fn shape(&self) -> (s: &Vec<usize>)
        ensures
            s@ == self.shape@,
    {
        &self.shape
    }

    /// The row-major strides.
    pub fn strides(&self) -> (s: &Vec<usize>)
        ensures
            s@ == self.strides@,
    {
        &self.strides
    }
}

impl<S: Data> ArrayBase<S> where S::Elem: Copy {
    /// The elements visible through this handle, in logical order,
    /// copied out of the backing buffer.
    pub fn visible_elems(&self, pool: &BufferPool<S::Elem>) -> (out: Vec<S::Elem>)
        requires
            self.wf(pool),
            self.data.owns(),
        ensures
            out@ == self.visible(pool),
    {
        let buf = self.data._data_slice(pool);
        let blen = buf.len();
        let n = self.size();
        let mut out: Vec<S::Elem> = Vec::new();
        let mut i: usize = 0;
        while i < n
            invariant
                i <= n,
                self.offset + n <= blen,
                blen == buf@.len(),
                buf@ == self.data.buf(pool),
                out@ == buf@.subrange(self.offset as int, self.offset + i),
            decreases n - i,
        {
            out.push(buf[self.offset + i]);
            proof {
                assert(out@ =~= buf@.subrange(self.offset as int, self.offset + i + 1));
            }
            i = i + 1;
        }
        out
    }
}

impl<S: Data> ArrayBase<S> {
    /// Re-aim the handle: view `size(shape)` elements of the same
    /// storage starting at element `offset` of its buffer, under fresh
    /// row-major strides. A view's data pointer is rarely the start of
    /// its buffer; this is how a handle comes to stand deep inside one.
    pub fn with_view(self, pool: &BufferPool<S::Elem>, shape: Vec<usize>, offset: usize) -> (a:
        ArrayBase<S>)
        requires
            self.wf(pool),
            strides_fit(shape@),
            spec_size(shape@) <= usize::MAX,
            self.data.owns() ==> offset + spec_size(shape@) <= self.data.buf(pool).len(),
        ensures
            a.wf(pool),
            a.data == self.data,
            a.offset == offset,
            a.shape@ == shape@,
            a.visible(pool) == self.data.buf(pool).subrange(
                offset as int,
                offset + spec_size(shape@),
            ),
    {
        let strides = default_strides(&shape);
        proof {
            lemma_product_nonneg(shape@, 0, shape@.len() as int);
        }
        ArrayBase { data: self.data, offset, shape, strides }
    }
}

impl<S: DataOwned> ArrayBase<S> {
    /// Build an array of the given shape from its elements, given in
    /// logical (row-major) order. The handle starts at offset zero and
    /// sees the whole buffer.
    pub fn from_elements(shape: Vec<usize>, elems: Vec<S::Elem>, pool: &mut BufferPool<S::Elem>)
        -> (a: ArrayBase<S>)
        requires
            spec_size(shape@) == elems@.len(),
            strides_fit(shape@),
        ensures
            a.wf(final(pool)),
            a.offset == 0,
            a.shape@ == shape@,
            a.visible(final(pool)) == elems@,
            S::new_post(old(pool)@, elems@, a.data, final(pool)@),
    {
        let strides = default_strides(&shape);
        let ghost e = elems@;
        let data = S::new(elems, pool);
        let a = ArrayBase { data, offset: 0, shape, strides };
        proof {
            lemma_product_nonneg(a.shape@, 0, a.shape@.len() as int);
            assert(a.visible(pool) =~= e);
        }
        a
    }

    /// Consume this owned-storage handle and return the same array
    /// backed by a shared, reference-counted buffer. This is the only
    /// path from owned to shared storage; there is no way back.
    pub fn into_shared(self, pool: &mut BufferPool<S::Elem>) -> (a: ArrayBase<
        SharedRepr<S::Elem>,
    >)
        requires
            self.wf(old(pool)),
        ensures
            a.wf(final(pool)),
            a.offset == self.offset,
            a.shape@ == self.shape@,
            a.strides@ == self.strides@,
            a.visible(final(pool)) == self.visible(old(pool)),
            S::into_shared_post(self.data, old(pool)@, a.data, final(pool)@),
    {
        proof {
            self.data.owned_owns();
        }
        let ArrayBase { data, offset, shape, strides } = self;
        let shared = data.into_shared(pool);
        ArrayBase { data: shared, offset, shape, strides }
    }
}

impl<S: DataClone> ArrayBase<S> {
    /// Duplicate the whole handle. The storage is duplicated exactly
    /// once through its duplicate-with-rebase operation, and the single
    /// rebased offset it hands back becomes the new handle's offset;
    /// dimension and stride descriptors are copied as plain values. The
    /// clone sees the same elements as the original.
    pub fn clone_handle(&self, pool: &mut BufferPool<S::Elem>) -> (c: ArrayBase<S>)
        requires
            self.wf(old(pool)),
            self.data.clone_pre(old(pool), self.offset as int),
        ensures
            c.wf(final(pool)),
            self.wf(final(pool)),
            c.offset == self.offset,
            c.shape@ == self.shape@,
            c.strides@ == self.strides@,
            c.visible(final(pool)) == self.visible(old(pool)),
            self.visible(final(pool)) == self.visible(old(pool)),
            self.data.clone_post(old(pool)@, c.data, final(pool)@),
    {
        let (data, off) = self.data.clone_with_ptr(self.offset, pool);
        ArrayBase {
            data,
            offset: off,
            shape: copy_vec(&self.shape),
            strides: copy_vec(&self.strides),
        }
    }
}

} // verus!
