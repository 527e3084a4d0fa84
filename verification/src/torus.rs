//! Wrap-around arithmetic on one axis of a torus.

use vstd::arithmetic::div_mod::{
    lemma_add_mod_noop,
    lemma_fundamental_div_mod,
    lemma_fundamental_div_mod_converse,
    lemma_fundamental_div_mod_converse_mod,
    lemma_mod_bound,
    lemma_small_mod,
};
use vstd::prelude::*;

verus! {

/// The cell that `coord` names on an axis of `size` cells: the remainder of
/// the Euclidean division, which lies in `[0, size)` for every integer.
pub open spec fn wrapped(coord: int, size: int) -> int {
    coord % size
}

/// Wrapping lands on the axis.
pub proof fn lemma_wrapped_in_range(coord: int, size: int)
    requires
        size > 0,
    ensures
        0 <= wrapped(coord, size) < size,
{
    lemma_mod_bound(coord, size);
}

/// A coordinate on the axis names itself.
pub proof fn lemma_wrapped_identity(coord: int, size: int)
    requires
        0 <= coord < size,
    ensures
        wrapped(coord, size) == coord,
{
    lemma_small_mod(coord as nat, size as nat);
}

/// Going once around the axis, in either direction, names the same cell.
pub proof fn lemma_wrapped_periodic(coord: int, size: int)
    requires
        size > 0,
    ensures
        wrapped(coord + size, size) == wrapped(coord, size),
        wrapped(coord - size, size) == wrapped(coord, size),
{
    let q = coord / size;
    let r = coord % size;
    lemma_mod_bound(coord, size);
    lemma_fundamental_div_mod(coord, size);
    assert(coord + size == (q + 1) * size + r) by (nonlinear_arith)
        requires
            coord == size * q + r,
    ;
    assert(coord - size == (q - 1) * size + r) by (nonlinear_arith)
        requires
            coord == size * q + r,
    ;
    lemma_fundamental_div_mod_converse_mod(coord + size, size, q + 1, r);
    lemma_fundamental_div_mod_converse_mod(coord - size, size, q - 1, r);
}

/// Cell `(x, y)` of a `width × height` grid has a row-major index inside it.
pub proof fn lemma_cell_in_grid(x: int, y: int, width: int, height: int)
    requires
        0 <= x < width,
        0 <= y < height,
    ensures
        0 <= y * width <= y * width + x < width * height,
{
    assert(0 <= y * width && y * width + width <= height * width) by (nonlinear_arith)
        requires
            0 <= y,
            y + 1 <= height,
            0 < width,
    ;
    assert(height * width == width * height) by (nonlinear_arith);
}

/// The sum of two cells of one axis, wrapped.
pub fn add_wrapped(a: usize, b: usize, size: usize) -> (r: usize)
    requires
        a < size,
        b < size,
    ensures
        r == wrapped(a + b, size as int),
        r < size,
{
    if a >= size - b {
        proof {
            lemma_fundamental_div_mod_converse_mod(a + b, size as int, 1, a + b - size);
        }
        a - (size - b)
    } else {
        proof {
            lemma_small_mod((a + b) as nat, size as nat);
        }
        a + b
    }
}

/// Wraps a signed coordinate onto an axis of `size` cells.
pub fn wrap_coord(coord: isize, size: usize) -> (r: usize)
    requires
        size > 0,
    ensures
        r == wrapped(coord as int, size as int),
        r < size,
{
    if coord >= 0 {
        proof {
            lemma_mod_bound(coord as int, size as int);
        }
        (coord as usize) % size
    } else {
        let below: usize = (-(coord + 1)) as usize;
        let m: usize = below % size;
        proof {
            let q = (below as int) / (size as int);
            lemma_mod_bound(below as int, size as int);
            lemma_fundamental_div_mod(below as int, size as int);
            assert(coord as int == (-q - 1) * size + (size - 1 - m)) by (nonlinear_arith)
                requires
                    below as int == size * q + m,
                    below as int == -(coord as int + 1),
            ;
            lemma_fundamental_div_mod_converse_mod(
                coord as int,
                size as int,
                -q - 1,
                size - 1 - m,
            );
        }
        size - 1 - m
    }
}

/// Moves a cell of an axis by a signed offset, wrapping at both ends.
pub fn wrap(coord: usize, offset: isize, size: usize) -> (r: usize)
    requires
        size > 0,
    ensures
        r == wrapped(coord + offset, size as int),
        r < size,
{
    let c: usize = coord % size;
    let o: usize = wrap_coord(offset, size);
    proof {
        lemma_mod_bound(coord as int, size as int);
        lemma_add_mod_noop(coord as int, offset as int, size as int);
    }
    add_wrapped(c, o, size)
}

/// The row-major index of cell `(x, y)` splits back into `x` and `y`.
pub proof fn lemma_row_major(x: int, y: int, width: int)
    requires
        0 <= x < width,
    ensures
        (y * width + x) % width == x,
        (y * width + x) / width == y,
{
    lemma_fundamental_div_mod_converse(y * width + x, width, y, x);
}

/// A row-major index inside a `width × height` grid splits into a column
/// and a row inside it.
pub proof fn lemma_index_splits(i: int, width: int, height: int)
    requires
        0 < width,
        0 <= i < width * height,
    ensures
        0 <= i % width < width,
        0 <= i / width < height,
        i == (i / width) * width + i % width,
{
    let x = i % width;
    let y = i / width;
    lemma_fundamental_div_mod(i, width);
    lemma_mod_bound(i, width);
    assert(i == y * width + x) by (nonlinear_arith)
        requires
            i == width * y + x,
    ;
    assert(0 <= y < height) by (nonlinear_arith)
        requires
            0 <= i < width * height,
            i == y * width + x,
            0 <= x < width,
    ;
}

} // verus!
