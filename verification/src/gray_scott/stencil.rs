//! The nine-point neighborhood of a cell.

use crate::field::Grid;
use crate::torus::{lemma_cell_in_grid, lemma_wrapped_identity, wrap};
use vstd::prelude::*;

verus! {

/// The bits of `0.2`: the weight of each of the four cardinal neighbors in
/// the nine-point Laplacian. The center weighs `-1.0`.
pub const CARDINAL_WEIGHT: u64 = 0x3FC9_9999_9999_999A;

/// The bits of `0.05`: the weight of each of the four diagonal neighbors in
/// the nine-point Laplacian.
pub const DIAGONAL_WEIGHT: u64 = 0x3FA9_9999_9999_999A;

/// The samples of a cell and its eight neighbors on the torus. North is the
/// row above (`y - 1`), west the column before (`x - 1`).
#[derive(Debug, Clone, Copy, PartialEq, Eq)]
pub struct Stencil {
    pub center: u64,
    pub north: u64,
    pub south: u64,
    pub west: u64,
    pub east: u64,
    pub north_west: u64,
    pub north_east: u64,
    pub south_west: u64,
    pub south_east: u64,
}

impl Grid {
    /// The nine-point neighborhood of `(x, y)` on the torus.
    pub open spec fn stencil(self, x: int, y: int) -> Stencil {
        Stencil {
            center: self.at(x, y),
            north: self.at(x, y - 1),
            south: self.at(x, y + 1),
            west: self.at(x - 1, y),
            east: self.at(x + 1, y),
            north_west: self.at(x - 1, y - 1),
            north_east: self.at(x + 1, y - 1),
            south_west: self.at(x - 1, y + 1),
            south_east: self.at(x + 1, y + 1),
        }
    }
}

/// Gathers the nine-point neighborhood of cell `(x, y)` from row-major
/// samples of a `w × h` torus.
pub fn stencil_9pt(data: &Vec<u64>, x: usize, y: usize, w: usize, h: usize) -> (s: Stencil)
    requires
        x < w,
        y < h,
        data.len() == w * h,
    ensures
        s == (Grid { width: w as nat, height: h as nat, cells: data@ }).stencil(x as int, y as int),
{
    let xm: usize = wrap(x, -1, w);
    let xp: usize = wrap(x, 1, w);
    let ym: usize = wrap(y, -1, h);
    let yp: usize = wrap(y, 1, h);
    proof {
        lemma_wrapped_identity(x as int, w as int);
        lemma_wrapped_identity(y as int, h as int);
        lemma_cell_in_grid(x as int, y as int, w as int, h as int);
        lemma_cell_in_grid(x as int, ym as int, w as int, h as int);
        lemma_cell_in_grid(x as int, yp as int, w as int, h as int);
        lemma_cell_in_grid(xm as int, y as int, w as int, h as int);
        lemma_cell_in_grid(xp as int, y as int, w as int, h as int);
        lemma_cell_in_grid(xm as int, ym as int, w as int, h as int);
        lemma_cell_in_grid(xp as int, ym as int, w as int, h as int);
        lemma_cell_in_grid(xm as int, yp as int, w as int, h as int);
        lemma_cell_in_grid(xp as int, yp as int, w as int, h as int);
    }
    Stencil {
        center: data[y * w + x],
        north: data[ym * w + x],
        south: data[yp * w + x],
        west: data[y * w + xm],
        east: data[y * w + xp],
        north_west: data[ym * w + xm],
        north_east: data[ym * w + xp],
        south_west: data[yp * w + xm],
        south_east: data[yp * w + xp],
    }
}

} // verus!
