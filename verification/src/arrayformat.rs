//! Multiline rendering of array elements with ellipsis elision.
//!
//! The renderer consumes what the storage layer hands any formatting
//! collaborator: the axis lengths and the elements in logical
//! (row-major) order, each element already rendered as a string. Along
//! every axis at most `2 * limit` entries are printed; a longer axis
//! shows its first `limit` and last `limit` entries around an ellipsis.

use crate::dimension::{
    lemma_product_nonneg, lemma_product_one, lemma_product_split, product_of_axes,
    spec_product_range, spec_size,
};
use vstd::prelude::*;
use vstd::string::StringExecFns;

verus! {

/// How many leading and trailing entries of an axis are printed before
/// the middle of the axis is elided.
pub const PRINT_ELEMENTS_LIMIT: usize = 3;

/// One entry of the print plan for an axis: either the index of an
/// element to print, or the ellipsis standing for the omitted middle.
#[derive(Clone, Copy)]
pub enum PrintableCell {
    ElementIndex(usize),
    Ellipses,
}

/// The print plan for an axis of length `length`: every index when the
/// axis is short enough, else the first `limit` indices, the ellipsis,
/// and the last `limit` indices.
pub open spec fn spec_to_be_printed(length: int, limit: int) -> Seq<PrintableCell> {
    if length <= 2 * limit {
        Seq::new(length as nat, |i: int| PrintableCell::ElementIndex(i as usize))
    } else {
        Seq::new(limit as nat, |i: int| PrintableCell::ElementIndex(i as usize)).push(
            PrintableCell::Ellipses,
        ) + Seq::new(
            limit as nat,
            |i: int| PrintableCell::ElementIndex((length - limit + i) as usize),
        )
    }
}

/// Whether a print-plan entry only names element indices below `length`.
pub open spec fn cell_in_bounds(c: PrintableCell, length: int) -> bool {
    match c {
        PrintableCell::ElementIndex(i) => i < length,
        PrintableCell::Ellipses => true,
    }
}

/// Every entry of a print plan stays within the axis it was made for.
pub proof fn lemma_cells_in_bounds(length: int, limit: int)
    requires
        0 <= length,
        0 <= limit,
    ensures
        forall|j: int|
            0 <= j < spec_to_be_printed(length, limit).len() ==> cell_in_bounds(
                #[trigger] spec_to_be_printed(length, limit)[j],
                length,
            ),
{
}

/// Returns which indexes should be printed for an axis of the given
/// length, with an ellipsis entry where indexes are omitted.
pub fn to_be_printed(length: usize, limit: usize) -> (r: Vec<PrintableCell>)
    ensures
        r@ == spec_to_be_printed(length as int, limit as int),
{
    let mut r: Vec<PrintableCell> = Vec::new();
    let omit = if length <= limit {
        false
    } else {
        (length - limit) > limit
    };
    if !omit {
        let mut i: usize = 0;
        while i < length
            invariant
                i <= length,
                r@.len() == i,
                forall|k: int| 0 <= k < i ==> r@[k] == PrintableCell::ElementIndex(k as usize),
            decreases length - i,
        {
            r.push(PrintableCell::ElementIndex(i));
            i = i + 1;
        }
        proof {
            assert(r@ =~= spec_to_be_printed(length as int, limit as int));
        }
    } else {
        let mut i: usize = 0;
        while i < limit
            invariant
                i <= limit,
                r@.len() == i,
                forall|k: int| 0 <= k < i ==> r@[k] == PrintableCell::ElementIndex(k as usize),
            decreases limit - i,
        {
            r.push(PrintableCell::ElementIndex(i));
            i = i + 1;
        }
        r.push(PrintableCell::Ellipses);
        let mut j: usize = length - limit;
        while j < length
            invariant
                length - limit <= j <= length,
                limit < length,
                r@.len() == limit + 1 + j - (length - limit),
                forall|k: int| 0 <= k < limit ==> r@[k] == PrintableCell::ElementIndex(k as usize),
                r@[limit as int] == PrintableCell::Ellipses,
                forall|k: int|
                    limit + 1 <= k < r@.len() ==> r@[k] == PrintableCell::ElementIndex(
                        (length - limit + (k - limit - 1)) as usize,
                    ),
            decreases length - j,
        {
            r.push(PrintableCell::ElementIndex(j));
            j = j + 1;
        }
        proof {
            assert(r@ =~= spec_to_be_printed(length as int, limit as int));
        }
    }
    r
}

/// `s` repeated `n` times.
pub open spec fn spec_repeat(s: Seq<char>, n: nat) -> Seq<char>
    decreases n,
{
    if n == 0 {
        Seq::empty()
    } else {
        s + spec_repeat(s, (n - 1) as nat)
    }
}

/// Repeating once more appends one more copy at the end.
pub proof fn lemma_repeat_snoc(s: Seq<char>, n: nat)
    ensures
        spec_repeat(s, n + 1) == spec_repeat(s, n) + s,
    decreases n,
{
    if n == 0 {
        assert(spec_repeat(s, 1) =~= spec_repeat(s, 0) + s);
    } else {
        lemma_repeat_snoc(s, (n - 1) as nat);
        assert(spec_repeat(s, n + 1) =~= spec_repeat(s, n) + s);
    }
}

/// `s` repeated `n` times.
pub fn repeat_str(s: &str, n: usize) -> (out: String)
    ensures
        out@ == spec_repeat(s@, n as nat),
{
    let mut out = String::new();
    let mut i: usize = 0;
    while i < n
        invariant
            i <= n,
            out@ == spec_repeat(s@, i as nat),
        decreases n - i,
    {
        out.append(s);
        proof {
            lemma_repeat_snoc(s@, i as nat);
        }
        i = i + 1;
    }
    out
}

/// The rendering of the print-plan entries from `j` on, for a single
/// axis of elements: each element followed by a comma-space separator
/// unless it is last, and each ellipsis entry printed as `..., `.
pub open spec fn spec_render_1d(elems: Seq<Seq<char>>, cells: Seq<PrintableCell>, j: int) -> Seq<
    char,
>
    decreases cells.len() - j,
{
    if j < 0 || j >= cells.len() {
        Seq::empty()
    } else {
        (match cells[j] {
            PrintableCell::ElementIndex(i) => elems[i as int] + if j == cells.len() - 1 {
                Seq::<char>::empty()
            } else {
                ", "@
            },
            PrintableCell::Ellipses => "..., "@,
        }) + spec_render_1d(elems, cells, j + 1)
    }
}

/// The full rendering of a one-axis array: its print plan rendered
/// between brackets.
pub open spec fn spec_format_1d(elems: Seq<Seq<char>>, limit: int) -> Seq<char> {
    "["@ + spec_render_1d(elems, spec_to_be_printed(elems.len() as int, limit), 0) + "]"@
}

/// Render the elements `elems[start .. start + len]` as one axis.
fn format_1d_range(elems: &Vec<String>, start: usize, len: usize, limit: usize) -> (out: String)
    requires
        start + len <= elems@.len(),
    ensures
        out@ == spec_format_1d(elems.deep_view().subrange(start as int, start + len), limit as int),
{
    let ghost ev = elems.deep_view().subrange(start as int, start + len);
    proof {
        assert(elems.deep_view().len() == elems@.len());
        lemma_cells_in_bounds(len as int, limit as int);
    }
    let elen = elems.len();
    let cells = to_be_printed(len, limit);
    let n = cells.len();
    let mut out = String::new();
    out.append("[");
    let mut j: usize = 0;
    while j < n
        invariant
            j <= n,
            n == cells@.len(),
            start + len <= elen,
            elen == elems@.len(),
            elems.deep_view().len() == elems@.len(),
            ev == elems.deep_view().subrange(start as int, start + len),
            cells@ == spec_to_be_printed(len as int, limit as int),
            forall|k: int| 0 <= k < n ==> cell_in_bounds(#[trigger] cells@[k], len as int),
            spec_format_1d(ev, limit as int) == out@ + spec_render_1d(ev, cells@, j as int)
                + "]"@,
        decreases n - j,
    {
        let ghost pre = out@;
        match cells[j] {
            PrintableCell::ElementIndex(i) => {
                out.append(elems[start + i].as_str());
                if j != n - 1 {
                    out.append(", ");
                    proof {
                        assert(out@ =~= pre + (ev[i as int] + ", "@));
                    }
                } else {
                    proof {
                        assert(out@ =~= pre + (ev[i as int] + Seq::<char>::empty()));
                    }
                }
            },
            PrintableCell::Ellipses => {
                out.append("..., ");
            },
        }
        proof {
            assert(spec_format_1d(ev, limit as int) == out@ + spec_render_1d(
                ev,
                cells@,
                j + 1,
            ) + "]"@) by {
                assert(out@ + spec_render_1d(ev, cells@, j + 1) =~= pre + spec_render_1d(
                    ev,
                    cells@,
                    j as int,
                ));
            }
        }
        j = j + 1;
    }
    out.append("]");
    proof {
        assert(spec_render_1d(ev, cells@, n as int) == Seq::<char>::empty());
        assert(out@ =~= spec_format_1d(ev, limit as int));
    }
    out
}

/// Render a one-dimensional array: all its elements, in order, between
/// brackets, with the middle of a long axis elided.
pub fn format_1d_array(elems: &Vec<String>, limit: usize) -> (out: String)
    ensures
        out@ == spec_format_1d(elems.deep_view(), limit as int),
{
    let n = elems.len();
    let out = format_1d_range(elems, 0, n, limit);
    proof {
        assert(elems.deep_view().subrange(0, n as int) =~= elems.deep_view());
    }
    out
}

/// The rendering of the subarray of `elems` that starts at element
/// `start` and spans the axes `shape[axis ..]`, at the given indent
/// depth. The innermost axis renders as a one-axis array; an outer axis
/// renders each printed subarray on its own line, indented by
/// `depth + 1` spaces after the first, with a comma and one blank line
/// per remaining axis beyond two between entries.
pub open spec fn spec_format_sub(
    elems: Seq<Seq<char>>,
    shape: Seq<usize>,
    axis: int,
    start: int,
    limit: int,
    depth: int,
) -> Seq<char>
    decreases shape.len() - axis, 1int, 0int,
{
    if axis < 0 || axis >= shape.len() {
        Seq::empty()
    } else if axis == shape.len() - 1 {
        spec_format_1d(elems.subrange(start, start + shape[axis]), limit)
    } else {
        "["@ + spec_render_nd(
            elems,
            shape,
            axis,
            start,
            limit,
            depth,
            spec_to_be_printed(shape[axis] as int, limit),
            0,
        ) + "]"@
    }
}

/// The rendering of the print-plan entries from `j` on, for an outer
/// axis: each printed entry is the recursive rendering of its subarray,
/// indented unless it opens the axis and followed by a separator unless
/// it closes it; an ellipsis entry stands for the omitted middle.
pub open spec fn spec_render_nd(
    elems: Seq<Seq<char>>,
    shape: Seq<usize>,
    axis: int,
    start: int,
    limit: int,
    depth: int,
    cells: Seq<PrintableCell>,
    j: int,
) -> Seq<char>
    decreases shape.len() - axis, 0int, cells.len() - j,
{
    if j < 0 || j >= cells.len() || axis < 0 || axis + 2 > shape.len() {
        Seq::empty()
    } else {
        let stride = spec_product_range(shape, axis + 1, shape.len() as int);
        let blanks = spec_repeat("\n"@, (shape.len() - axis - 2) as nat);
        (match cells[j] {
            PrintableCell::ElementIndex(i) => (if j != 0 {
                spec_repeat(" "@, (depth + 1) as nat)
            } else {
                Seq::<char>::empty()
            }) + spec_format_sub(elems, shape, axis + 1, start + i * stride, limit, depth + 1) + (
            if j == cells.len() - 1 {
                Seq::<char>::empty()
            } else {
                ",\n"@ + blanks
            }),
            PrintableCell::Ellipses => spec_repeat(" "@, (depth + 1) as nat) + "...,\n"@ + blanks,
        }) + spec_render_nd(elems, shape, axis, start, limit, depth, cells, j + 1)
    }
}

/// The full rendering of an array of any rank: an array with a
/// zero-length axis renders as nested empty brackets, a rank-zero array
/// as its single element, and any other array by recursion over its
/// axes.
pub open spec fn spec_format_array(
    elems: Seq<Seq<char>>,
    shape: Seq<usize>,
    limit: int,
    depth: int,
) -> Seq<char> {
    if exists|k: int| 0 <= k < shape.len() && shape[k] == 0 {
        spec_repeat("["@, shape.len()) + spec_repeat("]"@, shape.len())
    } else if shape.len() == 0 {
        elems[0]
    } else {
        spec_format_sub(elems, shape, 0, 0, limit, depth)
    }
}

/// Render the subarray of `elems` spanning the axes `shape[axis ..]`
/// and starting at element `start`.
fn format_sub(
    elems: &Vec<String>,
    shape: &Vec<usize>,
    axis: usize,
    start: usize,
    limit: usize,
    depth: usize,
) -> (out: String)
    requires
        axis < shape@.len(),
        forall|k: int| 0 <= k < shape@.len() ==> shape@[k] > 0,
        start + spec_product_range(shape@, axis as int, shape@.len() as int) <= elems@.len(),
        depth + (shape@.len() - axis) <= usize::MAX,
    ensures
        out@ == spec_format_sub(
            elems.deep_view(),
            shape@,
            axis as int,
            start as int,
            limit as int,
            depth as int,
        ),
    decreases shape@.len() - axis,
{
    let ndim = shape.len();
    let ghost ev = elems.deep_view();
    proof {
        assert(ev.len() == elems@.len());
    }
    if axis == ndim - 1 {
        proof {
            lemma_product_one(shape@, axis as int);
        }
        format_1d_range(elems, start, shape[axis], limit)
    } else {
        let elen = elems.len();
        proof {
            lemma_product_split(shape@, axis as int, axis + 1, ndim as int);
            lemma_product_one(shape@, axis as int);
            lemma_product_nonneg(shape@, axis + 1, ndim as int);
            assert(spec_product_range(shape@, axis + 1, ndim as int) <= shape@[axis as int]
                * spec_product_range(shape@, axis + 1, ndim as int)) by (nonlinear_arith)
                requires
                    shape@[axis as int] >= 1,
                    spec_product_range(shape@, axis + 1, ndim as int) >= 0,
            ;
            lemma_cells_in_bounds(shape@[axis as int] as int, limit as int);
        }
        let stride = product_of_axes(shape, axis + 1);
        let cells = to_be_printed(shape[axis], limit);
        let n = cells.len();
        let mut out = String::new();
        out.append("[");
        let mut j: usize = 0;
        while j < n
            invariant
                j <= n,
                n == cells@.len(),
                ndim == shape@.len(),
                axis + 2 <= ndim,
                elen == elems@.len(),
                ev == elems.deep_view(),
                ev.len() == elen,
                forall|k: int| 0 <= k < ndim ==> shape@[k] > 0,
                stride == spec_product_range(shape@, axis + 1, ndim as int),
                start + spec_product_range(shape@, axis as int, ndim as int) <= elen,
                depth + (ndim - axis) <= usize::MAX,
                cells@ == spec_to_be_printed(shape@[axis as int] as int, limit as int),
                forall|k: int|
                    0 <= k < n ==> cell_in_bounds(#[trigger] cells@[k], shape@[axis as int] as int),
                spec_format_sub(ev, shape@, axis as int, start as int, limit as int, depth as int)
                    == out@ + spec_render_nd(
                    ev,
                    shape@,
                    axis as int,
                    start as int,
                    limit as int,
                    depth as int,
                    cells@,
                    j as int,
                ) + "]"@,
            decreases n - j,
        {
            let ghost pre = out@;
            let ghost blanks = spec_repeat("\n"@, (ndim - axis - 2) as nat);
            match cells[j] {
                PrintableCell::ElementIndex(i) => {
                    if j != 0 {
                        let ind = repeat_str(" ", depth + 1);
                        out.append(ind.as_str());
                    }
                    proof {
                        lemma_product_split(shape@, axis as int, axis + 1, ndim as int);
                        lemma_product_one(shape@, axis as int);
                        assert(i * stride >= 0 && i * stride + stride == (i + 1) * stride && (i + 1)
                            * stride <= shape@[axis as int] * stride) by (nonlinear_arith)
                            requires
                                0 <= i + 1 <= shape@[axis as int],
                                stride >= 0,
                        ;
                    }
                    let sub = format_sub(elems, shape, axis + 1, start + i * stride, limit,
                        depth + 1);
                    out.append(sub.as_str());
                    if j != n - 1 {
                        out.append(",\n");
                        let bl = repeat_str("\n", ndim - axis - 2);
                        out.append(bl.as_str());
                        proof {
                            assert(out@ =~= pre + ((if j != 0 {
                                spec_repeat(" "@, (depth + 1) as nat)
                            } else {
                                Seq::<char>::empty()
                            }) + sub@ + (",\n"@ + blanks)));
                        }
                    } else {
                        proof {
                            assert(out@ =~= pre + ((if j != 0 {
                                spec_repeat(" "@, (depth + 1) as nat)
                            } else {
                                Seq::<char>::empty()
                            }) + sub@ + Seq::<char>::empty()));
                        }
                    }
                },
                PrintableCell::Ellipses => {
                    let ind = repeat_str(" ", depth + 1);
                    out.append(ind.as_str());
                    out.append("...,\n");
                    let bl = repeat_str("\n", ndim - axis - 2);
                    out.append(bl.as_str());
                    proof {
                        assert(out@ =~= pre + (spec_repeat(" "@, (depth + 1) as nat) + "...,\n"@
                            + blanks));
                    }
                },
            }
            proof {
                assert(out@ + spec_render_nd(
                    ev,
                    shape@,
                    axis as int,
                    start as int,
                    limit as int,
                    depth as int,
                    cells@,
                    j + 1,
                ) =~= pre + spec_render_nd(
                    ev,
                    shape@,
                    axis as int,
                    start as int,
                    limit as int,
                    depth as int,
                    cells@,
                    j as int,
                ));
            }
            j = j + 1;
        }
        out.append("]");
        proof {
            assert(spec_render_nd(
                ev,
                shape@,
                axis as int,
                start as int,
                limit as int,
                depth as int,
                cells@,
                n as int,
            ) == Seq::<char>::empty());
            assert(out@ =~= spec_format_sub(
                ev,
                shape@,
                axis as int,
                start as int,
                limit as int,
                depth as int,
            ));
        }
        out
    }
}

/// Render an array of any rank: the elements in logical (row-major)
/// order, each already rendered as a string, under the given axis
/// lengths. Along every axis at most `2 * limit` entries are shown;
/// `depth` spaces of indent are already in effect (a whole array is
/// rendered with depth zero).
pub fn format_array(elems: &Vec<String>, shape: &Vec<usize>, limit: usize, depth: usize) -> (out:
    String)
    requires
        spec_size(shape@) == elems@.len(),
        depth + shape@.len() <= usize::MAX,
    ensures
        out@ == spec_format_array(elems.deep_view(), shape@, limit as int, depth as int),
{
    let ndim = shape.len();
    let ghost ev = elems.deep_view();
    proof {
        assert(ev.len() == elems@.len());
    }
    let mut k: usize = 0;
    while k < ndim
        invariant
            k <= ndim,
            ndim == shape@.len(),
            forall|m: int| 0 <= m < k ==> shape@[m] > 0,
        decreases ndim - k,
    {
        if shape[k] == 0 {
            let mut out = repeat_str("[", ndim);
            let rb = repeat_str("]", ndim);
            out.append(rb.as_str());
            return out;
        }
        k = k + 1;
    }
    assert(!(exists|m: int| 0 <= m < shape@.len() && shape@[m] == 0));
    if ndim == 0 {
        let out = elems[0].clone();
        proof {
            assert(ev[0] == elems@[0]@);
        }
        out
    } else {
        proof {
            lemma_product_nonneg(shape@, 0, ndim as int);
        }
        format_sub(elems, shape, 0, 0, limit, depth)
    }
}

} // verus!

