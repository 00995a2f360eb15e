use vstd::prelude::*;

verus! {

/// A two-dimensional array of `u64` held by `ndarray`.
///
/// Verus does not accept a declaration of `ndarray::ArrayBase` (its storage bound is a
/// sealed trait), so the array sits in a private field and is read through the methods
/// below, whose contracts speak of `shape_of` and `entries_of`.
#[verifier::external_body]
#[derive(Debug)]
pub struct Matrix {
    array: ndarray::Array2<u64>,
}

/// The shape `(rows, columns)` of a matrix.
pub uninterp spec fn shape_of(m: Matrix) -> (usize, usize);

/// The elements of a matrix in row-major order.
pub uninterp spec fn entries_of(m: Matrix) -> Seq<u64>;

impl Matrix {
    /// Relies on `ndarray::ArrayBase::from_shape_vec`: with the default (row-major) layout,
    /// two non-zero axis lengths and a vector whose length is their product (so the product
    /// is at most `isize::MAX`, as a vector's length is), it returns `Ok` with an array of
    /// that shape that holds the vector's elements in order.
    #[verifier::external_body]
    pub(crate) fn from_shape_vec(rows: usize, cols: usize, v: Vec<u64>) -> (r: Matrix)
        requires
            rows > 0,
            cols > 0,
            v@.len() == rows * cols,
        ensures
            shape_of(r) == (rows, cols),
            entries_of(r) == v@,
    {
        Matrix { array: ndarray::Array2::from_shape_vec((rows, cols), v).unwrap() }
    }

    /// Relies on `ndarray::ArrayBase::dim`: the shape of a two-dimensional array as
    /// `(rows, columns)`; the array holds one element per row and column.
    #[verifier::external_body]
    pub fn dim(&self) -> (r: (usize, usize))
        ensures
            r == shape_of(*self),
            entries_of(*self).len() == r.0 * r.1,
    {
        self.array.dim()
    }

    /// Relies on indexing `ndarray::ArrayBase` by `(row, column)`: in the default
    /// (row-major) layout that is the element at `row * columns + column`.
    #[verifier::external_body]
    pub fn get(&self, row: usize, col: usize) -> (r: u64)
        requires
            row < shape_of(*self).0,
            col < shape_of(*self).1,
        ensures
            r == entries_of(*self)[row * shape_of(*self).1 + col],
    {
        self.array[(row, col)]
    }
}

} // verus!
