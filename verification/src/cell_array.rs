//! The two-dimensional cell storage of a grid, kept in an `ndarray` array.
use crate::gol::Cell;
use vstd::prelude::*;

verus! {

/// A `HEIGHT x WIDTH`-style two-dimensional array of cells, held in an
/// `ndarray::Array2`.  Verus sees nothing inside it; what it holds is named by
/// `array_cells`, and every operation the library performs on it goes through
/// the wrappers below.
#[verifier::external_body]
#[derive(Debug)]
pub struct CellArray {
    inner: ndarray::Array2<Cell>,
}

/// The contents of the array, row by row: `array_cells(a)[i][j]` is the view of
/// the element at index `[i, j]`.  An array of shape `(h, w)` has `h` rows of
/// length `w`.
pub uninterp spec fn array_cells(a: CellArray) -> Seq<Seq<(u32, u32)>>;

impl CellArray {
    /// Calls `ndarray::ArrayBase::from_elem` with shape `(height, width)`.
    /// Claimed: the result has `height` rows of `width` copies of `elem`
    /// (the documentation: "Create an array with copies of `elem`, shape
    /// `shape`").  It panics when the product of the non-zero axis lengths
    /// exceeds `isize::MAX` (so also when one axis is 0 and the other exceeds
    /// it), and the buffer of 8-byte cells cannot be larger than `isize::MAX`
    /// bytes; the `requires` excludes all of these.
    #[verifier::external_body]
    pub(crate) fn from_elem(height: usize, width: usize, elem: Cell) -> (r: CellArray)
        requires
            height <= isize::MAX,
            width <= isize::MAX,
            height * width * 8 <= isize::MAX,
        ensures
            array_cells(r) == Seq::new(height as nat, |i: int| Seq::new(width as nat, |j: int| elem@)),
    {
        CellArray { inner: ndarray::Array2::from_elem((height, width), elem) }
    }

    /// Calls `Index<[usize; 2]>::index` of `ndarray::ArrayBase` and copies the
    /// element out.  Claimed: it returns the element at `[x, y]`.  It panics
    /// out of bounds, which the `requires` excludes.
    #[verifier::external_body]
    pub(crate) fn get(&self, x: usize, y: usize) -> (r: Cell)
        requires
            x < array_cells(*self).len(),
            y < array_cells(*self)[x as int].len(),
        ensures
            r@ == array_cells(*self)[x as int][y as int],
    {
        self.inner[[x, y]]
    }

    /// Calls `IndexMut<[usize; 2]>::index_mut` of `ndarray::ArrayBase` and
    /// stores `value` there.  Claimed: only the element at `[x, y]` changes, and
    /// it becomes `value`.  It panics out of bounds, which the `requires`
    /// excludes.
    #[verifier::external_body]
    pub(crate) fn set(&mut self, x: usize, y: usize, value: Cell)
        requires
            x < array_cells(*old(self)).len(),
            y < array_cells(*old(self))[x as int].len(),
        ensures
            array_cells(*final(self)) == array_cells(*old(self)).update(
                x as int,
                array_cells(*old(self))[x as int].update(y as int, value@),
            ),
    {
        self.inner[[x, y]] = value;
    }

    /// Calls `Clone::clone` of `ndarray::ArrayBase`.  Claimed: the copy holds
    /// the same elements (the elements are `Copy` cells).
    #[verifier::external_body]
    pub(crate) fn duplicate(&self) -> (r: CellArray)
        ensures
            array_cells(r) == array_cells(*self),
    {
        CellArray { inner: self.inner.clone() }
    }
}

} // verus!
