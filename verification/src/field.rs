//! A two-dimensional scalar field with toroidal addressing.
//!
//! A [`Field`] stores `width * height` samples in row-major order. Every
//! signed coordinate pair names a cell: coordinates wrap around at the
//! edges. A sample is the bit pattern of a binary64 number (see
//! [`crate::unit`]); samples written through [`Field::set`] are clamped to
//! `[0, 1]`, and the arithmetic of the element-wise operations is supplied
//! by the caller.

use crate::error::EngineError;
use crate::torus::{lemma_cell_in_grid, lemma_wrapped_periodic, wrap_coord, wrapped};
use crate::unit::{clamp_unit, clamped, in_unit_interval, is_nan, ZERO_BITS};
use vstd::prelude::*;

verus! {

/// The mathematical model of a field: its shape and its cells in row-major
/// order.
#[verifier::ext_equal]
pub struct Grid {
    pub width: nat,
    pub height: nat,
    pub cells: Seq<u64>,
}

impl Grid {
    /// Both sides are positive and there is one cell per position.
    pub open spec fn wf(self) -> bool {
        &&& self.width > 0
        &&& self.height > 0
        &&& self.cells.len() == self.width * self.height
    }

    /// A grid of the given shape with every cell holding `bits`.
    pub open spec fn filled(width: nat, height: nat, bits: u64) -> Grid {
        Grid { width, height, cells: Seq::new(width * height, |i: int| bits) }
    }

    /// The row-major index of the cell that `(x, y)` names on the torus.
    pub open spec fn index(self, x: int, y: int) -> int {
        wrapped(y, self.height as int) * self.width + wrapped(x, self.width as int)
    }

    /// The sample at `(x, y)` on the torus.
    pub open spec fn at(self, x: int, y: int) -> u64 {
        self.cells[self.index(x, y)]
    }

    /// The grid with the cell that `(x, y)` names replaced by `bits`.
    pub open spec fn put(self, x: int, y: int, bits: u64) -> Grid {
        Grid { cells: self.cells.update(self.index(x, y), bits), ..self }
    }

    /// Every sample lies in the unit interval.
    pub open spec fn bounded(self) -> bool {
        forall|i: int| 0 <= i < self.cells.len() ==> in_unit_interval(#[trigger] self.cells[i])
    }

    /// The two grids have the same shape.
    pub open spec fn same_shape(self, other: Grid) -> bool {
        self.width == other.width && self.height == other.height
    }

    /// Every coordinate pair names a cell of the grid.
    pub proof fn lemma_index_in_grid(self, x: int, y: int)
        requires
            self.wf(),
        ensures
            0 <= self.index(x, y) < self.cells.len(),
    {
        crate::torus::lemma_wrapped_in_range(x, self.width as int);
        crate::torus::lemma_wrapped_in_range(y, self.height as int);
        lemma_cell_in_grid(
            wrapped(x, self.width as int),
            wrapped(y, self.height as int),
            self.width as int,
            self.height as int,
        );
    }

    /// The torus closes on itself: going once around either axis, or both,
    /// comes back to the same cell.
    pub proof fn lemma_toroidal(self, x: int, y: int)
        requires
            self.wf(),
        ensures
            self.index(x + self.width, y + self.height) == self.index(x, y),
            self.at(x + self.width, y + self.height) == self.at(x, y),
            self.at(x + self.width, y) == self.at(x, y),
            self.at(x, y + self.height) == self.at(x, y),
    {
        lemma_wrapped_periodic(x, self.width as int);
        lemma_wrapped_periodic(y, self.height as int);
    }

    /// Reading back what was put at a position yields it, whichever of its
    /// names on the torus is used.
    pub proof fn lemma_put_at(self, x: int, y: int, bits: u64)
        requires
            self.wf(),
        ensures
            self.put(x, y, bits).wf(),
            self.put(x, y, bits).at(x, y) == bits,
            self.put(x, y, bits).at(x + self.width, y + self.height) == bits,
    {
        self.lemma_index_in_grid(x, y);
        self.put(x, y, bits).lemma_toroidal(x, y);
    }
}

/// The shapes a field can have: both sides positive, and a cell count that
/// fits the machine word.
pub open spec fn valid_dimensions(width: usize, height: usize) -> bool {
    width > 0 && height > 0 && width * height <= usize::MAX
}

/// Tells whether a field of this shape can exist; gives its cell count if so.
pub fn cell_count(width: usize, height: usize) -> (n: Option<usize>)
    ensures
        valid_dimensions(width, height) ==> n == Some((width * height) as usize),
        !valid_dimensions(width, height) ==> n is None,
{
    if width == 0 || height == 0 {
        return None;
    }
    width.checked_mul(height)
}

/// `out` is a possible result of `op` on `(a, b)`, clamped to `[0, 1]`.
pub open spec fn combined<F: Fn(u64, u64) -> u64>(op: F, a: u64, b: u64, out: u64) -> bool {
    exists|raw: u64| op.ensures((a, b), raw) && out == clamped(raw)
}

/// `out` is a possible result of `op` on `a`, clamped to `[0, 1]`.
pub open spec fn mapped<F: Fn(u64) -> u64>(op: F, a: u64, out: u64) -> bool {
    exists|raw: u64| op.ensures((a,), raw) && out == clamped(raw)
}

/// `out` combines `a` and `b` cell by cell through `op`, each result clamped.
pub open spec fn zipped<F: Fn(u64, u64) -> u64>(
    op: F,
    a: Seq<u64>,
    b: Seq<u64>,
    out: Seq<u64>,
) -> bool {
    &&& out.len() == a.len()
    &&& forall|i: int| 0 <= i < a.len() ==> #[trigger] combined(op, a[i], b[i], out[i])
}

/// `out` holds `op` of each cell of `a`, each result clamped.
pub open spec fn mapped_all<F: Fn(u64) -> u64>(op: F, a: Seq<u64>, out: Seq<u64>) -> bool {
    &&& out.len() == a.len()
    &&& forall|i: int| 0 <= i < a.len() ==> #[trigger] mapped(op, a[i], out[i])
}

/// An operation that never returns a NaN leaves every combined sample in
/// the unit interval.
pub proof fn lemma_zipped_bounded<F: Fn(u64, u64) -> u64>(
    op: F,
    a: Seq<u64>,
    b: Seq<u64>,
    out: Seq<u64>,
)
    requires
        zipped(op, a, b, out),
        forall|x: u64, y: u64, raw: u64| #[trigger] op.ensures((x, y), raw) ==> !is_nan(raw),
    ensures
        forall|i: int| 0 <= i < out.len() ==> in_unit_interval(#[trigger] out[i]),
{
    assert forall|i: int| 0 <= i < out.len() implies in_unit_interval(#[trigger] out[i]) by {
        assert(combined(op, a[i], b[i], out[i]));
    }
}

/// The operation has the same outcomes whichever way round its arguments
/// come.
pub open spec fn commutative<F: Fn(u64, u64) -> u64>(op: F) -> bool {
    forall|x: u64, y: u64, raw: u64|
        #![trigger op.ensures((x, y), raw)]
        op.ensures((x, y), raw) <==> op.ensures((y, x), raw)
}

/// Combining is commutative where the operation is: what combines `a` with
/// `b` also combines `b` with `a`.
pub proof fn lemma_zipped_commutes<F: Fn(u64, u64) -> u64>(
    op: F,
    a: Seq<u64>,
    b: Seq<u64>,
    out: Seq<u64>,
)
    requires
        commutative(op),
        a.len() == b.len(),
        zipped(op, a, b, out),
    ensures
        zipped(op, b, a, out),
{
    assert forall|i: int| 0 <= i < b.len() implies #[trigger] combined(op, b[i], a[i], out[i]) by {
        assert(combined(op, a[i], b[i], out[i]));
        let raw = choose|raw: u64| op.ensures((a[i], b[i]), raw) && out[i] == clamped(raw);
        assert(op.ensures((b[i], a[i]), raw));
    }
}

/// An operation that never returns a NaN leaves every mapped sample in the
/// unit interval.
pub proof fn lemma_mapped_bounded<F: Fn(u64) -> u64>(op: F, a: Seq<u64>, out: Seq<u64>)
    requires
        mapped_all(op, a, out),
        forall|x: u64, raw: u64| #[trigger] op.ensures((x,), raw) ==> !is_nan(raw),
    ensures
        forall|i: int| 0 <= i < out.len() ==> in_unit_interval(#[trigger] out[i]),
{
    assert forall|i: int| 0 <= i < out.len() implies in_unit_interval(#[trigger] out[i]) by {
        assert(mapped(op, a[i], out[i]));
    }
}

/// A 2D scalar field with toroidal coordinate wrapping.
#[derive(Debug)]
pub struct Field {
    width: usize,
    height: usize,
    data: Vec<u64>,
}

impl Clone for Field {
    /// An independent copy with the same shape and samples.
    fn clone(&self) -> (copy: Field)
        ensures
            copy@ == self@,
    {
        Field { width: self.width, height: self.height, data: self.data.clone() }
    }
}

impl View for Field {
    type V = Grid;

    closed spec fn view(&self) -> Grid {
        Grid { width: self.width as nat, height: self.height as nat, cells: self.data@ }
    }
}

impl Field {
    /// The field's shape is valid and it holds one sample per cell.
    pub open spec fn wf(&self) -> bool {
        self@.wf()
    }

    /// Creates a zero-filled field.
    pub fn new(width: usize, height: usize) -> (r: Result<Field, EngineError>)
        ensures
            valid_dimensions(width, height) ==> r is Ok && r->Ok_0.wf() && r->Ok_0@ =~= Grid::filled(
                width as nat,
                height as nat,
                ZERO_BITS,
            ) && r->Ok_0@.bounded(),
            !valid_dimensions(width, height) ==> r is Err && r->Err_0
                is InvalidDimensions,
    {
        match cell_count(width, height) {
            Some(len) => Ok(Field { width, height, data: vec![ZERO_BITS; len] }),
            None => Err(EngineError::InvalidDimensions),
        }
    }

    /// Creates a field with every cell holding `value`, clamped to `[0, 1]`.
    pub fn filled(width: usize, height: usize, value: u64) -> (r: Result<Field, EngineError>)
        ensures
            valid_dimensions(width, height) ==> r is Ok && r->Ok_0.wf() && r->Ok_0@ =~= Grid::filled(
                width as nat,
                height as nat,
                clamped(value),
            ) && (!is_nan(value) ==> r->Ok_0@.bounded()),
            !valid_dimensions(width, height) ==> r is Err && r->Err_0
                is InvalidDimensions,
    {
        match cell_count(width, height) {
            Some(len) => Ok(Field { width, height, data: vec![clamp_unit(value); len] }),
            None => Err(EngineError::InvalidDimensions),
        }
    }

    /// Creates a field from samples in row-major order. The samples are
    /// taken as they are, without clamping.
    pub fn from_data(width: usize, height: usize, data: Vec<u64>) -> (r: Result<
        Field,
        EngineError,
    >)
        ensures
            !valid_dimensions(width, height) ==> r is Err && r->Err_0
                is InvalidDimensions,
            valid_dimensions(width, height) && data.len() != width * height ==> r
                == Err::<Field, EngineError>(
                EngineError::DimensionMismatch {
                    lhs_w: width,
                    lhs_h: height,
                    rhs_w: data.len(),
                    rhs_h: 1,
                },
            ),
            valid_dimensions(width, height) && data.len() == width * height ==> r is Ok
                && r->Ok_0.wf() && r->Ok_0@ == (Grid {
                width: width as nat,
                height: height as nat,
                cells: data@,
            }),
    {
        match cell_count(width, height) {
            None => Err(EngineError::InvalidDimensions),
            Some(expected) => {
                if data.len() != expected {
                    Err(
                        EngineError::DimensionMismatch {
                            lhs_w: width,
                            lhs_h: height,
                            rhs_w: data.len(),
                            rhs_h: 1,
                        },
                    )
                } else {
                    Ok(Field { width, height, data })
                }
            },
        }
    }

    /// Field width in cells.
    pub fn width(&self) -> (w: usize)
        ensures
            w == self@.width,
    {
        self.width
    }

    /// Field height in cells.
    pub fn height(&self) -> (h: usize)
        ensures
            h == self@.height,
    {
        self.height
    }

    /// The samples in row-major order.
    pub fn data(&self) -> (cells: &Vec<u64>)
        ensures
            cells@ == self@.cells,
    {
        &self.data
    }

    /// The row-major index of the cell that `(x, y)` names on the torus.
    pub fn index(&self, x: isize, y: isize) -> (i: usize)
        requires
            self.wf(),
        ensures
            i == self@.index(x as int, y as int),
            i < self@.cells.len(),
    {
        let xi: usize = wrap_coord(x, self.width);
        let yi: usize = wrap_coord(y, self.height);
        proof {
            lemma_cell_in_grid(xi as int, yi as int, self.width as int, self.height as int);
            assert(self.data@.len() == self.data.len());
        }
        yi * self.width + xi
    }

    /// Gets the sample at `(x, y)` with toroidal wrapping.
    pub fn get(&self, x: isize, y: isize) -> (bits: u64)
        requires
            self.wf(),
        ensures
            bits == self@.at(x as int, y as int),
    {
        let i: usize = self.index(x, y);
        self.data[i]
    }

    /// Sets the sample at `(x, y)` with toroidal wrapping, clamped to `[0, 1]`.
    pub fn set(&mut self, x: isize, y: isize, value: u64)
        requires
            old(self).wf(),
        ensures
            final(self).wf(),
            final(self)@ == old(self)@.put(x as int, y as int, clamped(value)),
            final(self)@.at(x as int, y as int) == clamped(value),
            !is_nan(value) ==> in_unit_interval(final(self)@.at(x as int, y as int)),
            !is_nan(value) && old(self)@.bounded() ==> final(self)@.bounded(),
    {
        let i: usize = self.index(x, y);
        self.data.set(i, clamp_unit(value));
    }

    /// Mutable access to the samples in row-major order. What is written
    /// here is not clamped.
    pub fn data_mut(&mut self) -> (cells: &mut [u64])
        ensures
            cells@ == old(self)@.cells,
            final(self)@ == (Grid { cells: final(cells)@, ..old(self)@ }),
    {
        self.data.as_mut_slice()
    }

    /// The error that reports that `self` and `other` differ in shape.
    pub open spec fn mismatch(&self, other: &Field) -> EngineError {
        EngineError::DimensionMismatch {
            lhs_w: self@.width as usize,
            lhs_h: self@.height as usize,
            rhs_w: other@.width as usize,
            rhs_h: other@.height as usize,
        }
    }

    /// Combines two fields of one shape cell by cell: each cell of the
    /// result is `op` of the two cells at that position, clamped to `[0, 1]`.
    pub fn zip_with<F: Fn(u64, u64) -> u64>(&self, other: &Field, op: F) -> (r: Result<
        Field,
        EngineError,
    >)
        requires
            self.wf(),
            other.wf(),
            self@.same_shape(other@) ==> forall|i: int|
                0 <= i < self@.cells.len() ==> op.requires(
                    (#[trigger] self@.cells[i], other@.cells[i]),
                ),
        ensures
            !self@.same_shape(other@) ==> r == Err::<Field, EngineError>(self.mismatch(other)),
            self@.same_shape(other@) ==> r is Ok && r->Ok_0.wf() && r->Ok_0@.same_shape(self@)
                && zipped(op, self@.cells, other@.cells, r->Ok_0@.cells),
    {
        if self.width != other.width || self.height != other.height {
            return Err(
                EngineError::DimensionMismatch {
                    lhs_w: self.width,
                    lhs_h: self.height,
                    rhs_w: other.width,
                    rhs_h: other.height,
                },
            );
        }
        let n: usize = self.data.len();
        let mut out: Vec<u64> = Vec::with_capacity(n);
        let mut i: usize = 0;
        while i < n
            invariant
                i <= n,
                n == self.data.len(),
                n == other.data.len(),
                out.len() == i,
                forall|j: int|
                    0 <= j < n ==> op.requires((#[trigger] self.data@[j], other.data@[j])),
                forall|j: int|
                    0 <= j < i ==> #[trigger] combined(op, self.data@[j], other.data@[j], out@[j]),
            decreases n - i,
        {
            let raw: u64 = op(self.data[i], other.data[i]);
            out.push(clamp_unit(raw));
            i += 1;
        }
        Ok(Field { width: self.width, height: self.height, data: out })
    }

    /// Combines `other` into this field cell by cell: each cell becomes `op`
    /// of its old sample and the sample of `other` there, clamped to `[0, 1]`.
    /// On a shape mismatch the field is left as it was.
    pub fn zip_assign<F: Fn(u64, u64) -> u64>(&mut self, other: &Field, op: F) -> (r: Result<
        (),
        EngineError,
    >)
        requires
            old(self).wf(),
            other.wf(),
            old(self)@.same_shape(other@) ==> forall|i: int|
                0 <= i < old(self)@.cells.len() ==> op.requires(
                    (#[trigger] old(self)@.cells[i], other@.cells[i]),
                ),
        ensures
            final(self).wf(),
            final(self)@.same_shape(old(self)@),
            !old(self)@.same_shape(other@) ==> r == Err::<(), EngineError>(
                old(self).mismatch(other),
            ) && final(self)@ == old(self)@,
            old(self)@.same_shape(other@) ==> r is Ok && zipped(
                op,
                old(self)@.cells,
                other@.cells,
                final(self)@.cells,
            ),
    {
        if self.width != other.width || self.height != other.height {
            return Err(
                EngineError::DimensionMismatch {
                    lhs_w: self.width,
                    lhs_h: self.height,
                    rhs_w: other.width,
                    rhs_h: other.height,
                },
            );
        }
        let n: usize = self.data.len();
        let mut i: usize = 0;
        while i < n
            invariant
                i <= n,
                n == self.data.len(),
                n == other.data.len(),
                n == old(self).data.len(),
                self.width == old(self).width,
                self.height == old(self).height,
                forall|j: int|
                    0 <= j < n ==> op.requires((#[trigger] old(self).data@[j], other.data@[j])),
                forall|j: int| i <= j < n ==> self.data@[j] == old(self).data@[j],
                forall|j: int|
                    0 <= j < i ==> #[trigger] combined(
                        op,
                        old(self).data@[j],
                        other.data@[j],
                        self.data@[j],
                    ),
            decreases n - i,
        {
            let raw: u64 = op(self.data[i], other.data[i]);
            self.data.set(i, clamp_unit(raw));
            i += 1;
        }
        Ok(())
    }

    /// Applies `op` to every cell: each cell of the result is `op` of the
    /// sample at that position, clamped to `[0, 1]`.
    pub fn map<F: Fn(u64) -> u64>(&self, op: F) -> (out: Field)
        requires
            self.wf(),
            forall|i: int| 0 <= i < self@.cells.len() ==> op.requires((#[trigger] self@.cells[i],)),
        ensures
            out.wf(),
            out@.same_shape(self@),
            mapped_all(op, self@.cells, out@.cells),
    {
        let n: usize = self.data.len();
        let mut out: Vec<u64> = Vec::with_capacity(n);
        let mut i: usize = 0;
        while i < n
            invariant
                i <= n,
                n == self.data.len(),
                out.len() == i,
                forall|j: int| 0 <= j < n ==> op.requires((#[trigger] self.data@[j],)),
                forall|j: int| 0 <= j < i ==> #[trigger] mapped(op, self.data@[j], out@[j]),
            decreases n - i,
        {
            let raw: u64 = op(self.data[i]);
            out.push(clamp_unit(raw));
            i += 1;
        }
        Field { width: self.width, height: self.height, data: out }
    }

    /// Applies `op` to every cell in place, each result clamped to `[0, 1]`.
    pub fn map_assign<F: Fn(u64) -> u64>(&mut self, op: F)
        requires
            old(self).wf(),
            forall|i: int|
                0 <= i < old(self)@.cells.len() ==> op.requires((#[trigger] old(self)@.cells[i],)),
        ensures
            final(self).wf(),
            final(self)@.same_shape(old(self)@),
            mapped_all(op, old(self)@.cells, final(self)@.cells),
    {
        let n: usize = self.data.len();
        let mut i: usize = 0;
        while i < n
            invariant
                i <= n,
                n == self.data.len(),
                n == old(self).data.len(),
                self.width == old(self).width,
                self.height == old(self).height,
                forall|j: int| 0 <= j < n ==> op.requires((#[trigger] old(self).data@[j],)),
                forall|j: int| i <= j < n ==> self.data@[j] == old(self).data@[j],
                forall|j: int|
                    0 <= j < i ==> #[trigger] mapped(op, old(self).data@[j], self.data@[j]),
            decreases n - i,
        {
            let raw: u64 = op(self.data[i]);
            self.data.set(i, clamp_unit(raw));
            i += 1;
        }
    }

    /// All cells as `(x, y, sample)` triples in row-major order.
    pub fn iter(&self) -> (cells: Vec<(usize, usize, u64)>)
        requires
            self.wf(),
        ensures
            cells.len() == self@.cells.len(),
            forall|i: int|
                0 <= i < cells.len() ==> #[trigger] cells[i] == (
                    (i % self@.width as int) as usize,
                    (i / self@.width as int) as usize,
                    self@.cells[i],
                ),
    {
        let n: usize = self.data.len();
        let mut cells: Vec<(usize, usize, u64)> = Vec::with_capacity(n);
        let mut i: usize = 0;
        while i < n
            invariant
                i <= n,
                n == self.data.len(),
                self.width > 0,
                cells.len() == i,
                forall|j: int|
                    0 <= j < i ==> #[trigger] cells[j] == (
                        (j % self.width as int) as usize,
                        (j / self.width as int) as usize,
                        self.data@[j],
                    ),
            decreases n - i,
        {
            cells.push((i % self.width, i / self.width, self.data[i]));
            i += 1;
        }
        cells
    }
}

} // verus!
