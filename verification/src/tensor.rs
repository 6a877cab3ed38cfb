//! The dense three-axis array that holds a GAV tensor.
use crate::error::GavError;
use vstd::prelude::*;

verus! {

/// `ShapeError` of `ndarray`: why an array could not be made. Nothing is
/// read from it.
#[verifier::external_type_specification]
#[verifier::external_body]
pub struct ExShapeError(ndarray::ShapeError);

/// A dense three-axis array of sample words: an `Array3<u32>` of `ndarray`.
/// What it holds is known through `tensor_dim` and `tensor_elems` alone.
#[verifier::external_body]
pub struct GavTensor {
    array: ndarray::Array3<u32>,
}

/// The lengths of the three axes of a tensor.
pub uninterp spec fn tensor_dim(t: GavTensor) -> (nat, nat, nat);

/// The elements of a tensor, in row-major order of their indices.
pub uninterp spec fn tensor_elems(t: GavTensor) -> Seq<u32>;

/// An axis length as it counts towards the size limit: an empty axis counts as one.
pub open spec fn axis_or_one(d: nat) -> nat {
    if d == 0 {
        1
    } else {
        d
    }
}

/// Whether axis lengths are within the size limit of an array: the product of
/// those that are not zero is at most `isize::MAX`.
pub open spec fn shape_in_range(d0: nat, d1: nat, d2: nat) -> bool {
    axis_or_one(d0) * axis_or_one(d1) * axis_or_one(d2) <= isize::MAX as nat
}

/// Whether a buffer of `len` elements fills an array of the given axis lengths.
pub open spec fn shape_matches(d0: nat, d1: nat, d2: nat, len: nat) -> bool {
    shape_in_range(d0, d1, d2) && d0 * d1 * d2 == len
}

/// The place of element `[i, j, k]` in the row-major order of an array with
/// the given axis lengths.
pub open spec fn offset_of(dim: (nat, nat, nat), i: int, j: int, k: int) -> int {
    (i * dim.1 + j) * dim.2 + k
}

/// `ArrayBase::dim` of `ndarray`: the axis lengths of the array. The array
/// holds as many elements as their product.
#[verifier::external_body]
pub(crate) fn array3_dim(t: &GavTensor) -> (d: (usize, usize, usize))
    ensures
        tensor_dim(*t) == (d.0 as nat, d.1 as nat, d.2 as nat),
        tensor_elems(*t).len() == d.0 * d.1 * d.2,
{
    t.array.dim()
}

/// Indexing of `ndarray` (`Index<[usize; 3]>` of `ArrayBase`): the element at
/// `[i, j, k]`, which stands at `offset_of` in row-major order. The index is
/// within the axis lengths, as the outside function panics otherwise.
#[verifier::external_body]
pub(crate) fn array3_index(t: &GavTensor, i: usize, j: usize, k: usize) -> (v: u32)
    requires
        i < tensor_dim(*t).0,
        j < tensor_dim(*t).1,
        k < tensor_dim(*t).2,
    ensures
        v == tensor_elems(*t)[offset_of(tensor_dim(*t), i as int, j as int, k as int)],
{
    t.array[[i, j, k]]
}

/// `ArrayBase::from_shape_vec` of `ndarray`, with a plain shape: the array of
/// the given axis lengths whose elements, in row-major order, are those of
/// `v`. It is an error if and only if the axis lengths exceed the size limit
/// or their product is not the length of `v`.
#[verifier::external_body]
fn array3_from_shape_vec(d0: usize, d1: usize, d2: usize, v: Vec<u32>) -> (r: Result<
    GavTensor,
    ndarray::ShapeError,
>)
    ensures
        r is Ok <==> shape_matches(d0 as nat, d1 as nat, d2 as nat, v@.len()),
        r is Ok ==> tensor_dim(r->Ok_0) == (d0 as nat, d1 as nat, d2 as nat),
        r is Ok ==> tensor_elems(r->Ok_0) == v@,
{
    match ndarray::Array3::from_shape_vec((d0, d1, d2), v) {
        Ok(array) => Ok(GavTensor { array }),
        Err(e) => Err(e),
    }
}

/// An index below the axis lengths has its offset below their product.
pub proof fn lemma_offset_in_range(dim: (nat, nat, nat), i: int, j: int, k: int)
    requires
        0 <= i < dim.0,
        0 <= j < dim.1,
        0 <= k < dim.2,
    ensures
        0 <= offset_of(dim, i, j, k) < dim.0 * dim.1 * dim.2,
{
    let row = i * dim.1 + j;
    assert(0 <= row <= (dim.0 - 1) * dim.1 + (dim.1 - 1)) by (nonlinear_arith)
        requires
            0 <= i <= dim.0 - 1,
            0 <= j <= dim.1 - 1,
            row == i * dim.1 + j,
    ;
    assert((dim.0 - 1) * dim.1 + (dim.1 - 1) == dim.0 * dim.1 - 1) by (nonlinear_arith);
    assert(0 <= row * dim.2 + k < dim.0 * dim.1 * dim.2) by (nonlinear_arith)
        requires
            0 <= row <= dim.0 * dim.1 - 1,
            0 <= k < dim.2,
    ;
}

impl GavTensor {
    /// The tensor of the given axis lengths whose elements, in row-major
    /// order, are those of `data`.
    pub fn from_shape_vec(shape: (usize, usize, usize), data: Vec<u32>) -> (r: Result<
        GavTensor,
        GavError,
    >)
        ensures
            match r {
                Ok(t) => shape_matches(shape.0 as nat, shape.1 as nat, shape.2 as nat, data@.len())
                    && tensor_dim(t) == (shape.0 as nat, shape.1 as nat, shape.2 as nat)
                    && tensor_elems(t) == data@,
                Err(e) => e == GavError::ShapeMismatch && !shape_matches(
                    shape.0 as nat,
                    shape.1 as nat,
                    shape.2 as nat,
                    data@.len(),
                ),
            },
    {
        match array3_from_shape_vec(shape.0, shape.1, shape.2, data) {
            Ok(t) => Ok(t),
            Err(_) => Err(GavError::ShapeMismatch),
        }
    }

    /// The lengths of the three axes.
    pub fn dim(&self) -> (d: (usize, usize, usize))
        ensures
            tensor_dim(*self) == (d.0 as nat, d.1 as nat, d.2 as nat),
            tensor_elems(*self).len() == d.0 * d.1 * d.2,
    {
        array3_dim(self)
    }

    /// The element at `[i, j, k]`, if the index is within the axis lengths.
    pub fn get(&self, i: usize, j: usize, k: usize) -> (r: Option<u32>)
        ensures
            r == (if i < tensor_dim(*self).0 && j < tensor_dim(*self).1 && k < tensor_dim(*self).2 {
                Some(tensor_elems(*self)[offset_of(tensor_dim(*self), i as int, j as int, k as int)])
            } else {
                None
            }),
    {
        let d = array3_dim(self);
        if i < d.0 && j < d.1 && k < d.2 {
            Some(array3_index(self, i, j, k))
        } else {
            None
        }
    }

    /// All elements, in row-major order of their indices.
    pub fn to_vec(&self) -> (out: Vec<u32>)
        ensures
            out@ == tensor_elems(*self),
    {
        let d = array3_dim(self);
        let ghost dim = tensor_dim(*self);
        let ghost elems = tensor_elems(*self);
        let mut out: Vec<u32> = Vec::new();
        let mut i: usize = 0;
        assert(0 * dim.1 * dim.2 == 0) by (nonlinear_arith);
        while i < d.0
            invariant
                dim == tensor_dim(*self),
                elems == tensor_elems(*self),
                dim == (d.0 as nat, d.1 as nat, d.2 as nat),
                elems.len() == d.0 * d.1 * d.2,
                i <= d.0,
                out@.len() == i * dim.1 * dim.2,
                out@ == elems.take(out@.len() as int),
            decreases d.0 - i,
        {
            let mut j: usize = 0;
            assert(i * dim.1 * dim.2 == (i * dim.1 + 0) * dim.2) by (nonlinear_arith);
            while j < d.1
                invariant
                    dim == tensor_dim(*self),
                    elems == tensor_elems(*self),
                    dim == (d.0 as nat, d.1 as nat, d.2 as nat),
                    elems.len() == d.0 * d.1 * d.2,
                    i < d.0,
                    j <= d.1,
                    out@.len() == (i * dim.1 + j) * dim.2,
                    out@ == elems.take(out@.len() as int),
                decreases d.1 - j,
            {
                let mut k: usize = 0;
                while k < d.2
                    invariant
                        dim == tensor_dim(*self),
                        elems == tensor_elems(*self),
                        dim == (d.0 as nat, d.1 as nat, d.2 as nat),
                        elems.len() == d.0 * d.1 * d.2,
                        i < d.0,
                        j < d.1,
                        k <= d.2,
                        out@.len() == offset_of(dim, i as int, j as int, k as int),
                        out@ == elems.take(out@.len() as int),
                    decreases d.2 - k,
                {
                    let v = array3_index(self, i, j, k);
                    proof {
                        lemma_offset_in_range(dim, i as int, j as int, k as int);
                        assert(elems.take(out@.len() as int + 1) == elems.take(out@.len() as int).push(v));
                    }
                    out.push(v);
                    k = k + 1;
                }
                assert((i * dim.1 + j) * dim.2 + dim.2 == (i * dim.1 + (j + 1)) * dim.2)
                    by (nonlinear_arith);
                j = j + 1;
            }
            assert((i * dim.1 + dim.1) * dim.2 == (i + 1) * dim.1 * dim.2) by (nonlinear_arith);
            i = i + 1;
        }
        assert(out@.len() == elems.len()) by (nonlinear_arith)
            requires
                out@.len() == i * dim.1 * dim.2,
                i == d.0,
                elems.len() == d.0 * d.1 * d.2,
                dim.1 == d.1,
                dim.2 == d.2,
        ;
        assert(elems.take(elems.len() as int) == elems);
        out
    }
}

} // verus!
