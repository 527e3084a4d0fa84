//! The Gray-Scott reaction-diffusion stepper.
//!
//! Two species, `u` (substrate) and `v` (activator), live on two fields of
//! one shape. A step reads the nine-point neighborhood of every cell in both
//! fields, hands the two neighborhoods to the reaction kernel, clamps what
//! the kernel returns to `[0, 1]` and publishes all cells at once.

pub mod params;
pub mod seeding;
pub mod stencil;

pub use params::{
    param_schema, GrayScottParams, ParamSpec, DEFAULT_DIFFUSION_U, DEFAULT_DIFFUSION_V,
    DEFAULT_DT, DEFAULT_FEED_RATE, DEFAULT_KILL_RATE, MAX_DIFFUSION, MAX_RATE,
};

use params::is_schema;
pub use seeding::{seed_initial_spots, spot_count, stamp_spot, CELLS_PER_SPOT, SPOT_RADIUS};
pub use stencil::{stencil_9pt, Stencil, CARDINAL_WEIGHT, DIAGONAL_WEIGHT};

use crate::error::EngineError;
use crate::field::{valid_dimensions, Field, Grid};
use crate::prng::{initial_state, Xorshift64};
use crate::torus::{
    lemma_cell_in_grid,
    lemma_index_splits,
    lemma_row_major,
    lemma_wrapped_identity,
};
use crate::unit::{clamp_unit, clamped, in_unit_interval, is_nan, ONE_BITS, ZERO_BITS};
use seeding::{lemma_seeded_bounded, seeded, spots_for};
use vstd::prelude::*;

verus! {

/// The mathematical model of the engine: the two concentration grids and
/// the parameters.
#[verifier::ext_equal]
pub struct GrayScottModel {
    pub u: Grid,
    pub v: Grid,
    pub params: GrayScottParams,
}

impl GrayScottModel {
    /// Both grids are well formed and of one shape.
    pub open spec fn wf(self) -> bool {
        self.u.wf() && self.v.wf() && self.u.same_shape(self.v)
    }
}

/// `(u_next, v_next)` is a possible outcome for cell `(x, y)`: what the
/// kernel can return on the two neighborhoods of that cell, clamped.
pub open spec fn reacted<K: Fn(GrayScottParams, Stencil, Stencil) -> (u64, u64)>(
    kernel: K,
    before: GrayScottModel,
    x: int,
    y: int,
    u_next: u64,
    v_next: u64,
) -> bool {
    exists|raw: (u64, u64)|
        {
            &&& kernel.ensures(
                (before.params, before.u.stencil(x, y), before.v.stencil(x, y)),
                raw,
            )
            &&& u_next == clamped(raw.0)
            &&& v_next == clamped(raw.1)
        }
}

/// `after` is a possible outcome of one step from `before`: the shape is
/// kept and every cell is computed from the neighborhoods in `before` alone.
pub open spec fn stepped<K: Fn(GrayScottParams, Stencil, Stencil) -> (u64, u64)>(
    kernel: K,
    before: GrayScottModel,
    after: GrayScottModel,
) -> bool {
    &&& after.wf()
    &&& after.u.same_shape(before.u)
    &&& after.params == before.params
    &&& forall|x: int, y: int|
        0 <= x < before.u.width && 0 <= y < before.u.height ==> #[trigger] reacted(
            kernel,
            before,
            x,
            y,
            after.u.at(x, y),
            after.v.at(x, y),
        )
}

/// The kernel accepts the neighborhoods of every cell of `state`.
pub open spec fn accepts<K: Fn(GrayScottParams, Stencil, Stencil) -> (u64, u64)>(
    kernel: K,
    state: GrayScottModel,
) -> bool {
    forall|x: int, y: int|
        0 <= x < state.u.width && 0 <= y < state.u.height ==> kernel.requires(
            (state.params, #[trigger] state.u.stencil(x, y), state.v.stencil(x, y)),
        )
}

/// The kernel accepts every pair of neighborhoods under every choice of
/// parameters.
pub open spec fn total<K: Fn(GrayScottParams, Stencil, Stencil) -> (u64, u64)>(
    kernel: K,
) -> bool {
    forall|p: GrayScottParams, su: Stencil, sv: Stencil| #[trigger] kernel.requires((p, su, sv))
}

/// The state a run starts from: `u` is one everywhere, `v` is zero but for
/// the seeded spots.
pub open spec fn initial(
    width: nat,
    height: nat,
    seed: u64,
    params: GrayScottParams,
) -> GrayScottModel {
    GrayScottModel {
        u: Grid::filled(width, height, ONE_BITS),
        v: seeded(
            Grid::filled(width, height, ZERO_BITS),
            initial_state(seed),
            spots_for(width * height),
        ),
        params,
    }
}

/// Gray-Scott reaction-diffusion state: the substrate `u` and the activator
/// `v` on two fields of one shape.
#[derive(Debug)]
pub struct GrayScott {
    u: Field,
    v: Field,
    params: GrayScottParams,
}

impl Clone for GrayScott {
    /// An independent copy in the same state.
    fn clone(&self) -> (copy: GrayScott)
        ensures
            copy@ == self@,
    {
        GrayScott { u: self.u.clone(), v: self.v.clone(), params: self.params }
    }
}

impl View for GrayScott {
    type V = GrayScottModel;

    closed spec fn view(&self) -> GrayScottModel {
        GrayScottModel { u: self.u@, v: self.v@, params: self.params }
    }
}

impl GrayScott {
    /// Both fields are well formed and of one shape.
    pub open spec fn wf(&self) -> bool {
        self@.wf()
    }

    /// Creates the initial state: `u` is one everywhere; `v` is zero but for
    /// spots of ones at positions drawn from the generator seeded by `seed`.
    pub fn new(width: usize, height: usize, seed: u64, params: GrayScottParams) -> (r: Result<
        GrayScott,
        EngineError,
    >)
        ensures
            valid_dimensions(width, height) ==> r is Ok && r->Ok_0.wf() && r->Ok_0@ == initial(
                width as nat,
                height as nat,
                seed,
                params,
            ),
            !valid_dimensions(width, height) ==> r is Err && r->Err_0
                is InvalidDimensions,
    {
        let u = match Field::filled(width, height, ONE_BITS) {
            Ok(f) => f,
            Err(e) => {
                return Err(e);
            },
        };
        let mut v = match Field::new(width, height) {
            Ok(f) => f,
            Err(e) => {
                return Err(e);
            },
        };
        let mut rng = Xorshift64::new(seed);
        seed_initial_spots(&mut v, &mut rng);
        Ok(GrayScott { u, v, params })
    }

    /// Takes up a run from its two fields, which must be of one shape.
    pub fn from_fields(u: Field, v: Field, params: GrayScottParams) -> (r: Result<
        GrayScott,
        EngineError,
    >)
        requires
            u.wf(),
            v.wf(),
        ensures
            u@.same_shape(v@) ==> r is Ok && r->Ok_0.wf() && r->Ok_0@ == (GrayScottModel {
                u: u@,
                v: v@,
                params,
            }),
            !u@.same_shape(v@) ==> r == Err::<GrayScott, EngineError>(u.mismatch(&v)),
    {
        if u.width() != v.width() || u.height() != v.height() {
            return Err(
                EngineError::DimensionMismatch {
                    lhs_w: u.width(),
                    lhs_h: u.height(),
                    rhs_w: v.width(),
                    rhs_h: v.height(),
                },
            );
        }
        Ok(GrayScott { u, v, params })
    }

    /// The parameters of the run.
    pub fn params(&self) -> (p: GrayScottParams)
        ensures
            p == self@.params,
    {
        self.params
    }

    /// Current feed rate (F).
    pub fn feed_rate(&self) -> (bits: u64)
        ensures
            bits == self@.params.feed_rate,
    {
        self.params.feed_rate
    }

    /// Current kill rate (k).
    pub fn kill_rate(&self) -> (bits: u64)
        ensures
            bits == self@.params.kill_rate,
    {
        self.params.kill_rate
    }

    /// The substrate field.
    pub fn u_field(&self) -> (f: &Field)
        ensures
            f@ == self@.u,
    {
        &self.u
    }

    /// The activator field, which is the output of the engine.
    pub fn v_field(&self) -> (f: &Field)
        ensures
            f@ == self@.v,
    {
        &self.v
    }

    /// The primary output of the engine: the activator field.
    pub fn field(&self) -> (f: &Field)
        ensures
            f@ == self@.v,
    {
        &self.v
    }

    /// The secondary field that modulates hue: this engine has none.
    pub fn hue_field(&self) -> (f: Option<&Field>)
        ensures
            f is None,
    {
        None
    }

    /// The schema of the parameters of this engine.
    pub fn param_schema(&self) -> (schema: Vec<ParamSpec>)
        ensures
            is_schema(schema@),
    {
        param_schema()
    }

    /// Advances the state by one step. Every cell of the new state is
    /// computed from the old state alone: the kernel gets the neighborhoods
    /// of the cell in the old `u` and `v`, and what it returns is clamped to
    /// `[0, 1]`. All cells are published together. With a kernel that has
    /// one outcome on each input, the new state is a function of the old
    /// one: engines in the same state step to the same state, bit for bit.
    pub fn step<K: Fn(GrayScottParams, Stencil, Stencil) -> (u64, u64)>(
        &mut self,
        kernel: &K,
    ) -> (r: Result<(), EngineError>)
        requires
            old(self).wf(),
            accepts(*kernel, old(self)@),
        ensures
            r is Ok,
            stepped(*kernel, old(self)@, final(self)@),
            functional(*kernel) ==> final(self)@ == successor(*kernel, old(self)@),
    {
        let w: usize = self.u.width();
        let h: usize = self.u.height();
        let n: usize = self.u.data().len();
        let ghost before = self@;
        let mut u_next: Vec<u64> = Vec::with_capacity(n);
        let mut v_next: Vec<u64> = Vec::with_capacity(n);
        let mut y: usize = 0;
        while y < h
            invariant
                y <= h,
                self@ == before,
                before.wf(),
                w == before.u.width,
                h == before.u.height,
                accepts(*kernel, before),
                u_next.len() == y * w,
                v_next.len() == y * w,
                forall|j: int|
                    0 <= j < y * w ==> #[trigger] reacted_at(
                        *kernel,
                        before,
                        j,
                        u_next@[j],
                        v_next@[j],
                    ),
            decreases h - y,
        {
            let mut x: usize = 0;
            while x < w
                invariant
                    x <= w,
                    y < h,
                    self@ == before,
                    before.wf(),
                    w == before.u.width,
                    h == before.u.height,
                    accepts(*kernel, before),
                    u_next.len() == y * w + x,
                    v_next.len() == y * w + x,
                    forall|j: int|
                        0 <= j < y * w + x ==> #[trigger] reacted_at(
                            *kernel,
                            before,
                            j,
                            u_next@[j],
                            v_next@[j],
                        ),
                decreases w - x,
            {
                let su: Stencil = stencil_9pt(self.u.data(), x, y, w, h);
                let sv: Stencil = stencil_9pt(self.v.data(), x, y, w, h);
                let (raw_u, raw_v) = kernel(self.params, su, sv);
                proof {
                    lemma_row_major(x as int, y as int, w as int);
                    assert(reacted(
                        *kernel,
                        before,
                        x as int,
                        y as int,
                        clamped(raw_u),
                        clamped(raw_v),
                    )) by {
                        assert(kernel.ensures(
                            (
                                before.params,
                                before.u.stencil(x as int, y as int),
                                before.v.stencil(x as int, y as int),
                            ),
                            (raw_u, raw_v),
                        ));
                    }
                }
                u_next.push(clamp_unit(raw_u));
                v_next.push(clamp_unit(raw_v));
                x += 1;
            }
            proof {
                assert(y * w + w == (y + 1) * w) by (nonlinear_arith);
            }
            y += 1;
        }
        proof {
            assert(h * w == w * h) by (nonlinear_arith);
        }
        let u = match Field::from_data(w, h, u_next) {
            Ok(f) => f,
            Err(e) => {
                return Err(e);
            },
        };
        let v = match Field::from_data(w, h, v_next) {
            Ok(f) => f,
            Err(e) => {
                return Err(e);
            },
        };
        self.u = u;
        self.v = v;
        proof {
            let after = self@;
            assert forall|x: int, y: int|
                0 <= x < before.u.width && 0 <= y < before.u.height implies #[trigger] reacted(
                *kernel,
                before,
                x,
                y,
                after.u.at(x, y),
                after.v.at(x, y),
            ) by {
                lemma_row_major(x, y, w as int);
                lemma_wrapped_identity(x, w as int);
                lemma_wrapped_identity(y, h as int);
                lemma_cell_in_grid(x, y, w as int, h as int);
                assert(reacted_at(
                    *kernel,
                    before,
                    y * w + x,
                    u_next@[y * w + x],
                    v_next@[y * w + x],
                ));
            }
            if functional(*kernel) {
                lemma_stepped_is_successor(*kernel, before, after);
            }
        }
        Ok(())
    }

    /// Advances the state by `steps` steps, one after the other.
    pub fn run<K: Fn(GrayScottParams, Stencil, Stencil) -> (u64, u64)>(
        &mut self,
        kernel: &K,
        steps: usize,
    ) -> (r: Result<(), EngineError>)
        requires
            old(self).wf(),
            total(*kernel),
        ensures
            r is Ok,
            final(self).wf(),
            evolved(*kernel, old(self)@, final(self)@, steps as nat),
            functional(*kernel) ==> final(self)@ == descendant(
                *kernel,
                old(self)@,
                steps as nat,
            ),
    {
        let mut done: usize = 0;
        while done < steps
            invariant
                done <= steps,
                self.wf(),
                total(*kernel),
                evolved(*kernel, old(self)@, self@, done as nat),
                functional(*kernel) ==> self@ == descendant(*kernel, old(self)@, done as nat),
            decreases steps - done,
        {
            let ghost mid = self@;
            match self.step(kernel) {
                Ok(_) => {},
                Err(e) => {
                    return Err(e);
                },
            }
            done += 1;
            assert(evolved(*kernel, old(self)@, mid, (done - 1) as nat) && stepped(
                *kernel,
                mid,
                self@,
            ));
        }
        Ok(())
    }
}

/// `(u_next, v_next)` is a possible outcome for the cell with row-major
/// index `j`.
pub open spec fn reacted_at<K: Fn(GrayScottParams, Stencil, Stencil) -> (u64, u64)>(
    kernel: K,
    before: GrayScottModel,
    j: int,
    u_next: u64,
    v_next: u64,
) -> bool {
    reacted(kernel, before, j % before.u.width as int, j / before.u.width as int, u_next, v_next)
}

/// A kernel that never returns a NaN leaves every sample of both species
/// in the unit interval after a step.
pub proof fn lemma_stepped_bounded<K: Fn(GrayScottParams, Stencil, Stencil) -> (u64, u64)>(
    kernel: K,
    before: GrayScottModel,
    after: GrayScottModel,
)
    requires
        stepped(kernel, before, after),
        numeric(kernel),
    ensures
        bounded(after),
{
    let w = before.u.width as int;
    let h = before.u.height as int;
    assert forall|i: int| 0 <= i < after.u.cells.len() implies in_unit_interval(
        #[trigger] after.u.cells[i],
    ) && in_unit_interval(after.v.cells[i]) by {
        lemma_index_splits(i, w, h);
        let x = i % w;
        let y = i / w;
        lemma_wrapped_identity(x, w);
        lemma_wrapped_identity(y, h);
        assert(reacted(kernel, before, x, y, after.u.at(x, y), after.v.at(x, y)));
    }
    assert forall|i: int| 0 <= i < after.v.cells.len() implies in_unit_interval(
        #[trigger] after.v.cells[i],
    ) by {
        assert(in_unit_interval(after.u.cells[i]) && in_unit_interval(after.v.cells[i]));
    }
}

/// The kernel never returns a NaN.
pub open spec fn numeric<K: Fn(GrayScottParams, Stencil, Stencil) -> (u64, u64)>(
    kernel: K,
) -> bool {
    forall|p: GrayScottParams, su: Stencil, sv: Stencil, raw: (u64, u64)| #[trigger]
        kernel.ensures((p, su, sv), raw) ==> !is_nan(raw.0) && !is_nan(raw.1)
}

/// Every sample of both species lies in the unit interval.
pub open spec fn bounded(state: GrayScottModel) -> bool {
    state.u.bounded() && state.v.bounded()
}

/// The state a run starts from is well formed, and all its samples lie in
/// the unit interval.
pub proof fn lemma_initial_bounded(width: nat, height: nat, seed: u64, params: GrayScottParams)
    requires
        width > 0,
        height > 0,
    ensures
        initial(width, height, seed, params).wf(),
        bounded(initial(width, height, seed, params)),
{
    lemma_seeded_bounded(
        Grid::filled(width, height, ZERO_BITS),
        initial_state(seed),
        spots_for(width * height),
    );
}

/// With a kernel that never returns a NaN, every state of a run that starts
/// inside the unit interval lies inside it.
pub proof fn lemma_run_bounded<K: Fn(GrayScottParams, Stencil, Stencil) -> (u64, u64)>(
    kernel: K,
    start: GrayScottModel,
    after: GrayScottModel,
    steps: nat,
)
    requires
        numeric(kernel),
        bounded(start),
        evolved(kernel, start, after, steps),
    ensures
        bounded(after),
{
    if steps > 0 {
        let mid = choose|mid: GrayScottModel|
            evolved(kernel, start, mid, (steps - 1) as nat) && #[trigger] stepped(
                kernel,
                mid,
                after,
            );
        lemma_stepped_bounded(kernel, mid, after);
    }
}

/// The neighborhood of a cell in a grid that holds `bits` everywhere.
pub open spec fn flat(bits: u64) -> Stencil {
    Stencil {
        center: bits,
        north: bits,
        south: bits,
        west: bits,
        east: bits,
        north_west: bits,
        north_east: bits,
        south_west: bits,
        south_east: bits,
    }
}

/// The grid holds `bits` in every cell.
pub open spec fn uniform(g: Grid, bits: u64) -> bool {
    forall|i: int| 0 <= i < g.cells.len() ==> #[trigger] g.cells[i] == bits
}

/// A uniform state stays uniform: if `u` is `a` everywhere and `v` is `b`
/// everywhere, and the kernel turns that neighborhood into `a_next` and
/// `b_next` once clamped, then after a step `u` is `a_next` everywhere and
/// `v` is `b_next` everywhere.
pub proof fn lemma_uniform_step<K: Fn(GrayScottParams, Stencil, Stencil) -> (u64, u64)>(
    kernel: K,
    before: GrayScottModel,
    after: GrayScottModel,
    a: u64,
    b: u64,
    a_next: u64,
    b_next: u64,
)
    requires
        before.wf(),
        uniform(before.u, a),
        uniform(before.v, b),
        stepped(kernel, before, after),
        forall|raw: (u64, u64)| #[trigger]
            kernel.ensures((before.params, flat(a), flat(b)), raw) ==> clamped(raw.0) == a_next
                && clamped(raw.1) == b_next,
    ensures
        uniform(after.u, a_next),
        uniform(after.v, b_next),
{
    let w = before.u.width as int;
    let h = before.u.height as int;
    assert forall|i: int| 0 <= i < after.u.cells.len() implies #[trigger] after.u.cells[i]
        == a_next && after.v.cells[i] == b_next by {
        lemma_index_splits(i, w, h);
        let x = i % w;
        let y = i / w;
        lemma_wrapped_identity(x, w);
        lemma_wrapped_identity(y, h);
        lemma_flat_stencil(before.u, a, x, y);
        lemma_flat_stencil(before.v, b, x, y);
        assert(reacted(kernel, before, x, y, after.u.at(x, y), after.v.at(x, y)));
    }
    assert forall|i: int| 0 <= i < after.v.cells.len() implies #[trigger] after.v.cells[i]
        == b_next by {
        assert(after.u.cells[i] == a_next && after.v.cells[i] == b_next);
    }
}

/// Steady state: a uniform state that the kernel maps to itself is left
/// unchanged by a step.
pub proof fn lemma_steady_state<K: Fn(GrayScottParams, Stencil, Stencil) -> (u64, u64)>(
    kernel: K,
    before: GrayScottModel,
    after: GrayScottModel,
    a: u64,
    b: u64,
)
    requires
        before.wf(),
        uniform(before.u, a),
        uniform(before.v, b),
        stepped(kernel, before, after),
        forall|raw: (u64, u64)| #[trigger]
            kernel.ensures((before.params, flat(a), flat(b)), raw) ==> clamped(raw.0) == a
                && clamped(raw.1) == b,
    ensures
        after == before,
{
    lemma_uniform_step(kernel, before, after, a, b, a, b);
    assert(after.u =~= before.u);
    assert(after.v =~= before.v);
    assert(after =~= before);
}

/// In a grid that holds `bits` everywhere every neighborhood is flat.
pub proof fn lemma_flat_stencil(g: Grid, bits: u64, x: int, y: int)
    requires
        g.wf(),
        uniform(g, bits),
    ensures
        g.stencil(x, y) == flat(bits),
{
    g.lemma_index_in_grid(x, y);
    g.lemma_index_in_grid(x, y - 1);
    g.lemma_index_in_grid(x, y + 1);
    g.lemma_index_in_grid(x - 1, y);
    g.lemma_index_in_grid(x + 1, y);
    g.lemma_index_in_grid(x - 1, y - 1);
    g.lemma_index_in_grid(x + 1, y - 1);
    g.lemma_index_in_grid(x - 1, y + 1);
    g.lemma_index_in_grid(x + 1, y + 1);
}

/// The outcome of the kernel on a pair of neighborhoods, for a kernel that
/// has one.
pub open spec fn outcome<K: Fn(GrayScottParams, Stencil, Stencil) -> (u64, u64)>(
    kernel: K,
    params: GrayScottParams,
    su: Stencil,
    sv: Stencil,
) -> (u64, u64) {
    choose|raw: (u64, u64)| kernel.ensures((params, su, sv), raw)
}

/// The outcome of the kernel for the cell with row-major index `i`.
pub open spec fn outcome_at<K: Fn(GrayScottParams, Stencil, Stencil) -> (u64, u64)>(
    kernel: K,
    before: GrayScottModel,
    i: int,
) -> (u64, u64) {
    let x = i % before.u.width as int;
    let y = i / before.u.width as int;
    outcome(kernel, before.params, before.u.stencil(x, y), before.v.stencil(x, y))
}

/// The state that follows `before`, for a kernel that is a function: every
/// cell holds the clamped outcome of the kernel on the neighborhoods of
/// that cell in `before`.
pub open spec fn successor<K: Fn(GrayScottParams, Stencil, Stencil) -> (u64, u64)>(
    kernel: K,
    before: GrayScottModel,
) -> GrayScottModel {
    GrayScottModel {
        u: Grid {
            cells: Seq::new(
                before.u.cells.len(),
                |i: int| clamped(outcome_at(kernel, before, i).0),
            ),
            ..before.u
        },
        v: Grid {
            cells: Seq::new(
                before.u.cells.len(),
                |i: int| clamped(outcome_at(kernel, before, i).1),
            ),
            ..before.v
        },
        params: before.params,
    }
}

/// The state that follows `start` after `steps` steps, for a kernel that is
/// a function.
pub open spec fn descendant<K: Fn(GrayScottParams, Stencil, Stencil) -> (u64, u64)>(
    kernel: K,
    start: GrayScottModel,
    steps: nat,
) -> GrayScottModel
    decreases steps,
{
    if steps == 0 {
        start
    } else {
        successor(kernel, descendant(kernel, start, (steps - 1) as nat))
    }
}

/// With a kernel that is a function, the state after a step is a function
/// of the state before it.
pub proof fn lemma_stepped_is_successor<K: Fn(GrayScottParams, Stencil, Stencil) -> (u64, u64)>(
    kernel: K,
    before: GrayScottModel,
    after: GrayScottModel,
)
    requires
        functional(kernel),
        before.wf(),
        stepped(kernel, before, after),
    ensures
        after == successor(kernel, before),
{
    let w = before.u.width as int;
    let h = before.u.height as int;
    let next = successor(kernel, before);
    assert forall|i: int| 0 <= i < after.u.cells.len() implies after.u.cells[i]
        == next.u.cells[i] && after.v.cells[i] == next.v.cells[i] by {
        let x = i % w;
        let y = i / w;
        lemma_index_splits(i, w, h);
        lemma_wrapped_identity(x, w);
        lemma_wrapped_identity(y, h);
        assert(reacted(kernel, before, x, y, after.u.at(x, y), after.v.at(x, y)));
        let raw = choose|raw: (u64, u64)|
            {
                &&& kernel.ensures(
                    (before.params, before.u.stencil(x, y), before.v.stencil(x, y)),
                    raw,
                )
                &&& after.u.at(x, y) == clamped(raw.0)
                &&& after.v.at(x, y) == clamped(raw.1)
            };
        let chosen = outcome(
            kernel,
            before.params,
            before.u.stencil(x, y),
            before.v.stencil(x, y),
        );
        assert(kernel.ensures(
            (before.params, before.u.stencil(x, y), before.v.stencil(x, y)),
            chosen,
        ));
        assert(raw == chosen);
    }
    assert(after.u =~= next.u);
    assert(after.v =~= next.v);
    assert(after =~= next);
}

/// The kernel is a function: it has one outcome on each pair of
/// neighborhoods.
pub open spec fn functional<K: Fn(GrayScottParams, Stencil, Stencil) -> (u64, u64)>(
    kernel: K,
) -> bool {
    forall|p: GrayScottParams, su: Stencil, sv: Stencil, a: (u64, u64), b: (u64, u64)|
        #![trigger kernel.ensures((p, su, sv), a), kernel.ensures((p, su, sv), b)]
        kernel.ensures((p, su, sv), a) && kernel.ensures((p, su, sv), b) ==> a == b
}

/// `after` is a possible outcome of `steps` steps from `before`.
pub open spec fn evolved<K: Fn(GrayScottParams, Stencil, Stencil) -> (u64, u64)>(
    kernel: K,
    before: GrayScottModel,
    after: GrayScottModel,
    steps: nat,
) -> bool
    decreases steps,
{
    if steps == 0 {
        after == before
    } else {
        exists|mid: GrayScottModel|
            evolved(kernel, before, mid, (steps - 1) as nat) && #[trigger] stepped(
                kernel,
                mid,
                after,
            )
    }
}

/// With a kernel that is a function, a step has one outcome: two states
/// that both follow from `before` are equal cell by cell.
pub proof fn lemma_step_deterministic<K: Fn(GrayScottParams, Stencil, Stencil) -> (u64, u64)>(
    kernel: K,
    before: GrayScottModel,
    a: GrayScottModel,
    b: GrayScottModel,
)
    requires
        functional(kernel),
        stepped(kernel, before, a),
        stepped(kernel, before, b),
    ensures
        a == b,
{
    let w = before.u.width as int;
    let h = before.u.height as int;
    assert forall|i: int| 0 <= i < a.u.cells.len() implies a.u.cells[i] == b.u.cells[i]
        && a.v.cells[i] == b.v.cells[i] by {
        let x = i % w;
        let y = i / w;
        lemma_index_splits(i, w, h);
        lemma_wrapped_identity(x, w);
        lemma_wrapped_identity(y, h);
        assert(reacted(kernel, before, x, y, a.u.at(x, y), a.v.at(x, y)));
        assert(reacted(kernel, before, x, y, b.u.at(x, y), b.v.at(x, y)));
    }
    assert(a.u =~= b.u);
    assert(a.v =~= b.v);
    assert(a =~= b);
}

/// Determinism of a run: with a kernel that is a function, two runs of
/// equally many steps from one state end in the same state, bit for bit.
pub proof fn lemma_run_deterministic<K: Fn(GrayScottParams, Stencil, Stencil) -> (u64, u64)>(
    kernel: K,
    start: GrayScottModel,
    steps: nat,
    a: GrayScottModel,
    b: GrayScottModel,
)
    requires
        functional(kernel),
        evolved(kernel, start, a, steps),
        evolved(kernel, start, b, steps),
    ensures
        a == b,
    decreases steps,
{
    if steps > 0 {
        let mid_a = choose|mid: GrayScottModel|
            evolved(kernel, start, mid, (steps - 1) as nat) && #[trigger] stepped(kernel, mid, a);
        let mid_b = choose|mid: GrayScottModel|
            evolved(kernel, start, mid, (steps - 1) as nat) && #[trigger] stepped(kernel, mid, b);
        lemma_run_deterministic(kernel, start, (steps - 1) as nat, mid_a, mid_b);
        lemma_step_deterministic(kernel, mid_a, a, b);
    }
}

/// Two engines built from the same shape, seed and parameters start in the
/// same state and so, with a kernel that is a function, stay equal step
/// after step.
pub proof fn lemma_same_seed_same_run<K: Fn(GrayScottParams, Stencil, Stencil) -> (u64, u64)>(
    kernel: K,
    width: nat,
    height: nat,
    seed: u64,
    params: GrayScottParams,
    steps: nat,
    a: GrayScottModel,
    b: GrayScottModel,
)
    requires
        functional(kernel),
        evolved(kernel, initial(width, height, seed, params), a, steps),
        evolved(kernel, initial(width, height, seed, params), b, steps),
    ensures
        a == b,
{
    lemma_run_deterministic(kernel, initial(width, height, seed, params), steps, a, b);
}

} // verus!
