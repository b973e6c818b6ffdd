//! Dimension and stride descriptors.
//!
//! A dimension descriptor is a sequence of axis lengths; the number of
//! elements an array of that shape holds is the product of its axis
//! lengths. Strides here are the standard row-major ones: the stride of
//! an axis is the product of the axis lengths after it.

use vstd::prelude::*;

verus! {

/// Product of the axis lengths `shape[i]`, `shape[i+1]`, ..., `shape[j-1]`.
pub open spec fn spec_product_range(shape: Seq<usize>, i: int, j: int) -> int
    decreases j - i,
{
    if i >= j {
        1
    } else {
        shape[i] * spec_product_range(shape, i + 1, j)
    }
}

/// The number of elements an array of this shape holds.
pub open spec fn spec_size(shape: Seq<usize>) -> int {
    spec_product_range(shape, 0, shape.len() as int)
}

/// Whether every suffix product of the shape fits a machine word, so
/// that row-major strides can be computed. This is a machine limit, not
/// a rule of the model.
pub open spec fn strides_fit(shape: Seq<usize>) -> bool {
    forall|k: int|
        0 <= k <= shape.len() ==> spec_product_range(shape, k, shape.len() as int) <= usize::MAX
}

/// Whether `st` holds the row-major strides of `shape`.
pub open spec fn is_row_major_strides(shape: Seq<usize>, st: Seq<usize>) -> bool {
    &&& st.len() == shape.len()
    &&& forall|k: int|
        0 <= k < shape.len() ==> st[k] == spec_product_range(shape, k + 1, shape.len() as int)
}

/// A product of axis lengths is never negative.
pub proof fn lemma_product_nonneg(shape: Seq<usize>, i: int, j: int)
    ensures
        spec_product_range(shape, i, j) >= 0,
    decreases j - i,
{
    if i < j {
        lemma_product_nonneg(shape, i + 1, j);
        assert(shape[i] * spec_product_range(shape, i + 1, j) >= 0) by (nonlinear_arith)
            requires
                shape[i] >= 0,
                spec_product_range(shape, i + 1, j) >= 0,
        ;
    }
}

/// A product over a range splits at any point of the range.
pub proof fn lemma_product_split(shape: Seq<usize>, i: int, j: int, k: int)
    requires
        i <= j <= k,
    ensures
        spec_product_range(shape, i, k) == spec_product_range(shape, i, j) * spec_product_range(
            shape,
            j,
            k,
        ),
    decreases j - i,
{
    if i < j {
        lemma_product_split(shape, i + 1, j, k);
        let a = shape[i] as int;
        let b = spec_product_range(shape, i + 1, j);
        let c = spec_product_range(shape, j, k);
        assert(a * (b * c) == (a * b) * c) by (nonlinear_arith);
    }
}

/// A product over a single axis is that axis length.
pub proof fn lemma_product_one(shape: Seq<usize>, i: int)
    ensures
        spec_product_range(shape, i, i + 1) == shape[i],
{
    assert(spec_product_range(shape, i + 1, i + 1) == 1);
}

/// A product of positive axis lengths is at least one.
pub proof fn lemma_product_pos(shape: Seq<usize>, i: int, j: int)
    requires
        forall|k: int| i <= k < j ==> shape[k] > 0,
    ensures
        spec_product_range(shape, i, j) >= 1,
    decreases j - i,
{
    if i < j {
        lemma_product_pos(shape, i + 1, j);
        assert(shape[i] * spec_product_range(shape, i + 1, j) >= 1) by (nonlinear_arith)
            requires
                shape[i] >= 1,
                spec_product_range(shape, i + 1, j) >= 1,
        ;
    }
}

/// A product over a range with a zero axis length is zero.
pub proof fn lemma_product_zero(shape: Seq<usize>, i: int, j: int, z: int)
    requires
        i <= z < j,
        shape[z] == 0,
    ensures
        spec_product_range(shape, i, j) == 0,
{
    lemma_product_split(shape, i, z, j);
    let p = spec_product_range(shape, i, z);
    let q = spec_product_range(shape, z, j);
    assert(q == shape[z] * spec_product_range(shape, z + 1, j));
    assert(p * q == 0) by (nonlinear_arith)
        requires
            q == 0,
    ;
}

/// The number of elements an array of this shape holds, computed from
/// the axis lengths.
pub fn size_of_shape(shape: &Vec<usize>) -> (n: usize)
    requires
        spec_size(shape@) <= usize::MAX,
    ensures
        n == spec_size(shape@),
{
    let len = shape.len();
    let mut i: usize = 0;
    while i < len
        invariant
            i <= len,
            len == shape@.len(),
            forall|k: int| 0 <= k < i ==> shape@[k] > 0,
        decreases len - i,
    {
        if shape[i] == 0 {
            proof {
                lemma_product_zero(shape@, 0, len as int, i as int);
            }
            return 0;
        }
        i = i + 1;
    }
    let mut acc: usize = 1;
    let mut k: usize = 0;
    while k < len
        invariant
            k <= len,
            len == shape@.len(),
            spec_size(shape@) <= usize::MAX,
            forall|m: int| 0 <= m < len ==> shape@[m] > 0,
            acc == spec_product_range(shape@, 0, k as int),
        decreases len - k,
    {
        proof {
            lemma_product_split(shape@, 0, k as int, k + 1);
            lemma_product_split(shape@, 0, k + 1, len as int);
            lemma_product_pos(shape@, k + 1, len as int);
            lemma_product_nonneg(shape@, 0, k + 1);
            assert(spec_product_range(shape@, 0, k + 1) <= spec_product_range(shape@, 0, k + 1)
                * spec_product_range(shape@, k + 1, len as int)) by (nonlinear_arith)
                requires
                    spec_product_range(shape@, k + 1, len as int) >= 1,
                    spec_product_range(shape@, 0, k + 1) >= 0,
            ;
            lemma_product_one(shape@, k as int);
        }
        acc = acc * shape[k];
        k = k + 1;
    }
    acc
}

/// The product of the axis lengths from `from` to the end of the shape,
/// for a shape of positive axis lengths.
pub fn product_of_axes(shape: &Vec<usize>, from: usize) -> (p: usize)
    requires
        from <= shape@.len(),
        forall|k: int| from <= k < shape@.len() ==> shape@[k] > 0,
        spec_product_range(shape@, from as int, shape@.len() as int) <= usize::MAX,
    ensures
        p == spec_product_range(shape@, from as int, shape@.len() as int),
{
    let len = shape.len();
    let mut acc: usize = 1;
    let mut k = from;
    while k < len
        invariant
            from <= k <= len,
            len == shape@.len(),
            forall|m: int| from <= m < len ==> shape@[m] > 0,
            spec_product_range(shape@, from as int, len as int) <= usize::MAX,
            acc == spec_product_range(shape@, from as int, k as int),
        decreases len - k,
    {
        proof {
            lemma_product_split(shape@, from as int, k as int, k + 1);
            lemma_product_split(shape@, from as int, k + 1, len as int);
            lemma_product_pos(shape@, k + 1, len as int);
            lemma_product_nonneg(shape@, from as int, k + 1);
            assert(spec_product_range(shape@, from as int, k + 1) <= spec_product_range(
                shape@,
                from as int,
                k + 1,
            ) * spec_product_range(shape@, k + 1, len as int)) by (nonlinear_arith)
                requires
                    spec_product_range(shape@, k + 1, len as int) >= 1,
                    spec_product_range(shape@, from as int, k + 1) >= 0,
            ;
            lemma_product_one(shape@, k as int);
        }
        acc = acc * shape[k];
        k = k + 1;
    }
    acc
}

/// The row-major strides of a shape: the stride of each axis is the
/// product of the axis lengths after it.
pub fn default_strides(shape: &Vec<usize>) -> (st: Vec<usize>)
    requires
        strides_fit(shape@),
    ensures
        is_row_major_strides(shape@, st@),
{
    let n = shape.len();
    let mut st: Vec<usize> = vec![0; n];
    let mut acc: usize = 1;
    let mut k = n;
    while k > 0
        invariant
            k <= n,
            n == shape@.len(),
            st@.len() == n,
            strides_fit(shape@),
            acc == spec_product_range(shape@, k as int, n as int),
            forall|j: int| k <= j < n ==> st@[j] == spec_product_range(shape@, j + 1, n as int),
        decreases k,
    {
        k = k - 1;
        st[k] = acc;
        proof {
            lemma_product_split(shape@, k as int, k + 1, n as int);
            lemma_product_one(shape@, k as int);
            lemma_product_nonneg(shape@, k as int, n as int);
            assert(spec_product_range(shape@, k as int, n as int) <= usize::MAX);
        }
        acc = shape[k] * acc;
    }
    st
}

} // verus!
