//! Dense two-dimensional storage for the board's spaces, backed by
//! `ndarray::Array2`. The array type itself is opaque to the verifier, so the
//! grid is held in a private field and reached only through the wrappers
//! below, whose contracts speak of the two names `grid_dims` and `grid_cells`.

use vstd::prelude::*;

use crate::board::Space;

verus! {

/// A fixed-size two-dimensional arena of spaces, indexed by `(x, y)` with
/// `x` selecting the column and `y` the row.
#[verifier::external_body]
pub struct Grid {
    arr: ndarray::Array2<Space>,
}

/// The extent of a grid: the number of columns and the number of rows.
pub uninterp spec fn grid_dims(g: Grid) -> (int, int);

/// What a grid holds: the space at each in-bounds `(x, y)` pair.
pub uninterp spec fn grid_cells(g: Grid) -> Map<(int, int), Space>;

/// Relies on `ndarray::Array2::from_shape_vec`: an array of shape `(w, h)`
/// built from a vector of length `w * h` in standard order places the
/// vector's element `x * h + y` at index `(x, y)`. The length check never
/// fails here, so neither does the `unwrap`.
#[verifier::external_body]
pub(crate) fn grid_new(w: usize, h: usize, cells: Vec<Space>) -> (g: Grid)
    requires
        cells@.len() == w * h,
    ensures
        grid_dims(g) == (w as int, h as int),
        forall|x: int, y: int|
            0 <= x < w && 0 <= y < h ==> grid_cells(g)[(x, y)] == cells@[x * (h as int) + y],
{
    Grid { arr: ndarray::Array2::from_shape_vec((w, h), cells).unwrap() }
}

/// Relies on `ndarray::ArrayBase::get`: returns the element at `(x, y)`, or
/// `None` when the index lies outside the array's shape.
#[verifier::external_body]
pub(crate) fn grid_get(g: &Grid, x: usize, y: usize) -> (r: Option<Space>)
    ensures
        x < grid_dims(*g).0 && y < grid_dims(*g).1 ==> r == Some(
            grid_cells(*g)[(x as int, y as int)],
        ),
        !(x < grid_dims(*g).0 && y < grid_dims(*g).1) ==> r is None,
{
    g.arr.get((x, y)).copied()
}

/// Relies on `ndarray::ArrayBase`'s `IndexMut` implementation: assigning
/// through an in-bounds index replaces that element and no other, and leaves
/// the shape unchanged.
#[verifier::external_body]
pub(crate) fn grid_set(g: &mut Grid, x: usize, y: usize, s: Space)
    requires
        0 <= x < grid_dims(*old(g)).0,
        0 <= y < grid_dims(*old(g)).1,
    ensures
        grid_dims(*final(g)) == grid_dims(*old(g)),
        grid_cells(*final(g)) == grid_cells(*old(g)).insert((x as int, y as int), s),
{
    g.arr[(x, y)] = s;
}

/// Relies on `ndarray::ArrayBase::clone`: the clone has the same shape and
/// the same elements as the original.
#[verifier::external_body]
pub(crate) fn grid_clone(g: &Grid) -> (r: Grid)
    ensures
        grid_dims(r) == grid_dims(*g),
        grid_cells(r) == grid_cells(*g),
{
    Grid { arr: g.arr.clone() }
}

} // verus!
