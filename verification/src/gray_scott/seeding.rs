//! The spots of activator that an engine starts from.
//!
//! A spot is a disc of ones; where it is stamped is drawn from the
//! pseudo-random stream, two draws per spot, and the disc wraps around the
//! edges of the grid.

use crate::field::{Field, Grid};
use crate::prng::{advanced, xorshift, Xorshift64};
use crate::torus::{lemma_cell_in_grid, wrap};
use crate::unit::ONE_BITS;
use vstd::prelude::*;

verus! {

/// Radius, in cells, of a seeded spot.
pub const SPOT_RADIUS: isize = 3;

/// The number of cells that one seeded spot stands for.
pub const CELLS_PER_SPOT: usize = 2000;

/// The number of spots seeded on a grid of `area` cells: one per
/// [`CELLS_PER_SPOT`] cells, rounded up, and never fewer than one.
pub open spec fn spots_for(area: nat) -> nat {
    if area == 0 {
        1
    } else {
        ((area - 1) / (CELLS_PER_SPOT as int) + 1) as nat
    }
}

/// The number of spots seeded on a grid of `area` cells.
pub fn spot_count(area: usize) -> (n: usize)
    ensures
        n == spots_for(area as nat),
        n >= 1,
{
    if area == 0 {
        1
    } else {
        (area - 1) / CELLS_PER_SPOT + 1
    }
}

/// The offset `(dx, dy)` lies in the disc of radius [`SPOT_RADIUS`].
pub open spec fn in_disc(dx: int, dy: int) -> bool {
    &&& -SPOT_RADIUS <= dx <= SPOT_RADIUS
    &&& -SPOT_RADIUS <= dy <= SPOT_RADIUS
    &&& dx * dx + dy * dy <= SPOT_RADIUS * SPOT_RADIUS
}

/// The offset `(dx, dy)` lies in the disc and, taken from `(cx, cy)`, names
/// the cell with row-major index `i`.
pub open spec fn hits(g: Grid, cx: int, cy: int, dx: int, dy: int, i: int) -> bool {
    in_disc(dx, dy) && g.index(cx + dx, cy + dy) == i
}

/// The cell with row-major index `i` lies under the spot centered at
/// `(cx, cy)`, the disc wrapping around the edges of the grid.
pub open spec fn under_spot(g: Grid, cx: int, cy: int, i: int) -> bool {
    exists|dx: int, dy: int| #[trigger] hits(g, cx, cy, dx, dy, i)
}

/// The grid with a spot of ones stamped at `(cx, cy)`.
pub open spec fn stamped(g: Grid, cx: int, cy: int) -> Grid {
    Grid {
        cells: Seq::new(
            g.cells.len(),
            |i: int|
                if under_spot(g, cx, cy, i) {
                    ONE_BITS
                } else {
                    g.cells[i]
                },
        ),
        ..g
    }
}

/// The grid after `spots` spots were stamped, each centered where the next
/// two draws of the generator in state `state` point: the first draw
/// reduced modulo the width, the second modulo the height.
pub open spec fn seeded(g: Grid, state: u64, spots: nat) -> Grid
    decreases spots,
{
    if spots == 0 {
        g
    } else {
        let first = xorshift(state);
        let second = xorshift(first);
        seeded(
            stamped(g, first as int % g.width as int, second as int % g.height as int),
            second,
            (spots - 1) as nat,
        )
    }
}

/// Stamping a spot keeps the shape of the grid and leaves every sample in
/// the unit interval that was in it.
pub proof fn lemma_stamped_bounded(g: Grid, cx: int, cy: int)
    requires
        g.wf(),
    ensures
        stamped(g, cx, cy).wf(),
        stamped(g, cx, cy).same_shape(g),
        g.bounded() ==> stamped(g, cx, cy).bounded(),
{
}

/// Seeding keeps the shape of the grid and leaves every sample in the unit
/// interval that was in it.
pub proof fn lemma_seeded_bounded(g: Grid, state: u64, spots: nat)
    requires
        g.wf(),
    ensures
        seeded(g, state, spots).wf(),
        seeded(g, state, spots).same_shape(g),
        g.bounded() ==> seeded(g, state, spots).bounded(),
    decreases spots,
{
    if spots > 0 {
        let first = xorshift(state);
        let second = xorshift(first);
        let cx = first as int % g.width as int;
        let cy = second as int % g.height as int;
        lemma_stamped_bounded(g, cx, cy);
        lemma_seeded_bounded(stamped(g, cx, cy), second, (spots - 1) as nat);
    }
}

/// The offset `(dx, dy)` comes before `(ex, ey)` when the offsets are walked
/// row by row.
spec fn walked(dx: int, dy: int, ex: int, ey: int) -> bool {
    dy < ey || (dy == ey && dx < ex)
}

/// Cell `i` lies under the part of the spot that was stamped before the
/// walk reached `(ex, ey)`.
spec fn under_walked(g: Grid, cx: int, cy: int, ex: int, ey: int, i: int) -> bool {
    exists|dx: int, dy: int| #[trigger] hits(g, cx, cy, dx, dy, i) && walked(dx, dy, ex, ey)
}

/// The grid with the part of the spot stamped that the walk has passed.
spec fn stamped_until(g: Grid, cx: int, cy: int, ex: int, ey: int) -> Grid {
    Grid {
        cells: Seq::new(
            g.cells.len(),
            |i: int|
                if under_walked(g, cx, cy, ex, ey, i) {
                    ONE_BITS
                } else {
                    g.cells[i]
                },
        ),
        ..g
    }
}

/// Before the walk starts nothing is stamped.
proof fn lemma_walk_start(g: Grid, cx: int, cy: int)
    ensures
        stamped_until(g, cx, cy, -SPOT_RADIUS as int, -SPOT_RADIUS as int) =~= g,
{
    assert forall|i: int| 0 <= i < g.cells.len() implies !(#[trigger] under_walked(
        g,
        cx,
        cy,
        -SPOT_RADIUS as int,
        -SPOT_RADIUS as int,
        i,
    )) by {
        assert forall|dx: int, dy: int| #[trigger]
            hits(g, cx, cy, dx, dy, i) implies !walked(
            dx,
            dy,
            -SPOT_RADIUS as int,
            -SPOT_RADIUS as int,
        ) by {}
    }
}

/// Walking past one offset stamps the cell it names, if it lies in the disc.
proof fn lemma_walk_step(g: Grid, cx: int, cy: int, ex: int, ey: int)
    requires
        g.wf(),
    ensures
        in_disc(ex, ey) ==> stamped_until(g, cx, cy, ex + 1, ey).cells =~= stamped_until(
            g,
            cx,
            cy,
            ex,
            ey,
        ).cells.update(g.index(cx + ex, cy + ey), ONE_BITS),
        !in_disc(ex, ey) ==> stamped_until(g, cx, cy, ex + 1, ey) =~= stamped_until(
            g,
            cx,
            cy,
            ex,
            ey,
        ),
{
    let target = g.index(cx + ex, cy + ey);
    g.lemma_index_in_grid(cx + ex, cy + ey);
    assert forall|i: int| 0 <= i < g.cells.len() implies (#[trigger] under_walked(
        g,
        cx,
        cy,
        ex + 1,
        ey,
        i,
    ) <==> under_walked(g, cx, cy, ex, ey, i) || (in_disc(ex, ey) && i == target)) by {
        if under_walked(g, cx, cy, ex + 1, ey, i) {
            let (dx, dy) = choose|dx: int, dy: int| #[trigger]
                hits(g, cx, cy, dx, dy, i) && walked(dx, dy, ex + 1, ey);
            if walked(dx, dy, ex, ey) {
                assert(hits(g, cx, cy, dx, dy, i) && walked(dx, dy, ex, ey));
            } else {
                assert(dx == ex && dy == ey);
            }
        }
        if under_walked(g, cx, cy, ex, ey, i) {
            let (dx, dy) = choose|dx: int, dy: int| #[trigger]
                hits(g, cx, cy, dx, dy, i) && walked(dx, dy, ex, ey);
            assert(hits(g, cx, cy, dx, dy, i) && walked(dx, dy, ex + 1, ey));
        }
        if in_disc(ex, ey) && i == target {
            assert(hits(g, cx, cy, ex, ey, i) && walked(ex, ey, ex + 1, ey));
        }
    }
}

/// The end of one row of offsets is the start of the next.
proof fn lemma_walk_row(g: Grid, cx: int, cy: int, ey: int)
    ensures
        stamped_until(g, cx, cy, SPOT_RADIUS + 1, ey) =~= stamped_until(
            g,
            cx,
            cy,
            -SPOT_RADIUS as int,
            ey + 1,
        ),
{
    assert forall|i: int| 0 <= i < g.cells.len() implies (#[trigger] under_walked(
        g,
        cx,
        cy,
        SPOT_RADIUS + 1,
        ey,
        i,
    ) <==> under_walked(g, cx, cy, -SPOT_RADIUS as int, ey + 1, i)) by {
        if under_walked(g, cx, cy, SPOT_RADIUS + 1, ey, i) {
            let (dx, dy) = choose|dx: int, dy: int| #[trigger]
                hits(g, cx, cy, dx, dy, i) && walked(dx, dy, SPOT_RADIUS + 1, ey);
            assert(hits(g, cx, cy, dx, dy, i) && walked(dx, dy, -SPOT_RADIUS as int, ey + 1));
        }
        if under_walked(g, cx, cy, -SPOT_RADIUS as int, ey + 1, i) {
            let (dx, dy) = choose|dx: int, dy: int| #[trigger]
                hits(g, cx, cy, dx, dy, i) && walked(dx, dy, -SPOT_RADIUS as int, ey + 1);
            assert(hits(g, cx, cy, dx, dy, i) && walked(dx, dy, SPOT_RADIUS + 1, ey));
        }
    }
}

/// Once the walk has passed the last row the whole spot is stamped.
proof fn lemma_walk_end(g: Grid, cx: int, cy: int)
    ensures
        stamped_until(g, cx, cy, -SPOT_RADIUS as int, SPOT_RADIUS + 1) =~= stamped(g, cx, cy),
{
    assert forall|i: int| 0 <= i < g.cells.len() implies (#[trigger] under_walked(
        g,
        cx,
        cy,
        -SPOT_RADIUS as int,
        SPOT_RADIUS + 1,
        i,
    ) <==> under_spot(g, cx, cy, i)) by {
        if under_spot(g, cx, cy, i) {
            let (dx, dy) = choose|dx: int, dy: int| #[trigger] hits(g, cx, cy, dx, dy, i);
            assert(hits(g, cx, cy, dx, dy, i) && walked(
                dx,
                dy,
                -SPOT_RADIUS as int,
                SPOT_RADIUS + 1,
            ));
        }
    }
}

/// Stamps a spot of ones, centered at cell `(cx, cy)`, onto the field. The
/// disc wraps around the edges.
pub fn stamp_spot(v: &mut Field, cx: usize, cy: usize)
    requires
        old(v).wf(),
        cx < old(v)@.width,
        cy < old(v)@.height,
    ensures
        final(v).wf(),
        final(v)@ == stamped(old(v)@, cx as int, cy as int),
{
    let w: usize = v.width();
    let h: usize = v.height();
    let n: usize = v.data().len();
    let r: isize = SPOT_RADIUS;
    let ghost g = v@;
    proof {
        lemma_walk_start(g, cx as int, cy as int);
    }
    let mut dy: isize = -r;
    while dy <= r
        invariant
            r == SPOT_RADIUS,
            -r <= dy <= r + 1,
            g.wf(),
            w == g.width,
            h == g.height,
            n == g.cells.len(),
            v@ == stamped_until(g, cx as int, cy as int, -r as int, dy as int),
        decreases r + 1 - dy,
    {
        let mut dx: isize = -r;
        while dx <= r
            invariant
                r == SPOT_RADIUS,
                -r <= dy <= r,
                -r <= dx <= r + 1,
                g.wf(),
                w == g.width,
                h == g.height,
                n == g.cells.len(),
                v@ == stamped_until(g, cx as int, cy as int, dx as int, dy as int),
            decreases r + 1 - dx,
        {
            proof {
                lemma_walk_step(g, cx as int, cy as int, dx as int, dy as int);
                assert(0 <= dx * dx <= 9 && 0 <= dy * dy <= 9) by (nonlinear_arith)
                    requires
                        -3 <= dx <= 3,
                        -3 <= dy <= 3,
                ;
            }
            if dx * dx + dy * dy <= r * r {
                let xi: usize = wrap(cx, dx, w);
                let yi: usize = wrap(cy, dy, h);
                proof {
                    lemma_cell_in_grid(xi as int, yi as int, w as int, h as int);
                }
                let cells = v.data_mut();
                cells[yi * w + xi] = ONE_BITS;
            }
            dx += 1;
        }
        proof {
            lemma_walk_row(g, cx as int, cy as int, dy as int);
        }
        dy += 1;
    }
    proof {
        lemma_walk_end(g, cx as int, cy as int);
    }
}

/// Seeds the spots of the initial state: as many as the area of the field
/// asks for, each where the next two draws of `rng` point.
pub fn seed_initial_spots(v: &mut Field, rng: &mut Xorshift64)
    requires
        old(v).wf(),
    ensures
        final(v).wf(),
        final(v)@.same_shape(old(v)@),
        final(v)@ == seeded(
            old(v)@,
            old(rng)@,
            spots_for(old(v)@.width * old(v)@.height),
        ),
        final(rng)@ == advanced(old(rng)@, 2 * spots_for(old(v)@.width * old(v)@.height)),
        old(rng).wf() ==> final(rng).wf(),
{
    let w: usize = v.width();
    let h: usize = v.height();
    let count: usize = spot_count(v.data().len());
    let mut placed: usize = 0;
    while placed < count
        invariant
            placed <= count,
            v.wf(),
            w == v@.width,
            h == v@.height,
            v@.same_shape(old(v)@),
            old(rng).wf() ==> rng.wf(),
            rng@ == advanced(old(rng)@, (2 * placed) as nat),
            seeded(v@, rng@, (count - placed) as nat) == seeded(old(v)@, old(rng)@, count as nat),
        decreases count - placed,
    {
        let cx: usize = rng.next_usize(w);
        let cy: usize = rng.next_usize(h);
        stamp_spot(v, cx, cy);
        placed += 1;
        proof {
            reveal_with_fuel(advanced, 3);
        }
    }
}

} // verus!
