//! The registry of engines: construction by name.

use crate::error::EngineError;
use crate::field::{valid_dimensions, Field};
use crate::gray_scott::params::is_schema;
use crate::gray_scott::{
    accepts, functional, initial, stepped, successor, GrayScott, GrayScottParams, ParamSpec,
    Stencil,
};
use vstd::prelude::*;

verus! {

/// The name under which the Gray-Scott engine is registered.
pub const GRAY_SCOTT: &'static str = "gray-scott";

/// The name is one that the registry knows.
pub open spec fn is_registered(name: Seq<char>) -> bool {
    name == GRAY_SCOTT@
}

/// All available engines.
pub enum EngineKind {
    /// Gray-Scott reaction-diffusion.
    GrayScott(GrayScott),
}

impl EngineKind {
    /// The engine is in a state that can be stepped.
    pub open spec fn wf(&self) -> bool {
        match self {
            EngineKind::GrayScott(engine) => engine.wf(),
        }
    }

    /// Constructs an engine by name, in its initial state.
    pub fn from_name(
        name: &str,
        width: usize,
        height: usize,
        seed: u64,
        params: GrayScottParams,
    ) -> (r: Result<EngineKind, EngineError>)
        ensures
            !is_registered(name@) ==> r is Err && r->Err_0 is UnknownEngine
                && r->Err_0->UnknownEngine_0@ == name@,
            is_registered(name@) && !valid_dimensions(width, height) ==> r is Err && r->Err_0
                is InvalidDimensions,
            is_registered(name@) && valid_dimensions(width, height) ==> r is Ok && r->Ok_0.wf()
                && r->Ok_0 is GrayScott && r->Ok_0->GrayScott_0@ == initial(
                width as nat,
                height as nat,
                seed,
                params,
            ),
    {
        let wanted: String = name.to_owned();
        if wanted == GRAY_SCOTT.to_owned() {
            match GrayScott::new(width, height, seed, params) {
                Ok(engine) => Ok(EngineKind::GrayScott(engine)),
                Err(e) => Err(e),
            }
        } else {
            Err(EngineError::UnknownEngine(wanted))
        }
    }

    /// The names of all registered engines.
    pub fn list_engines() -> (names: Vec<&'static str>)
        ensures
            names@.len() == 1,
            names@[0]@ == GRAY_SCOTT@,
            forall|name: Seq<char>|
                is_registered(name) <==> exists|i: int|
                    0 <= i < names@.len() && (#[trigger] names@[i])@ == name,
    {
        let names = vec![GRAY_SCOTT];
        proof {
            assert forall|name: Seq<char>| is_registered(name) implies exists|i: int|
                0 <= i < names@.len() && (#[trigger] names@[i])@ == name by {
                assert(names@[0]@ == name);
            }
        }
        names
    }

    /// Advances the engine by one step with the given reaction kernel.
    pub fn step<K: Fn(GrayScottParams, Stencil, Stencil) -> (u64, u64)>(
        &mut self,
        kernel: &K,
    ) -> (r: Result<(), EngineError>)
        requires
            old(self).wf(),
            accepts(*kernel, old(self)->GrayScott_0@),
        ensures
            r is Ok,
            final(self).wf(),
            stepped(*kernel, old(self)->GrayScott_0@, final(self)->GrayScott_0@),
            functional(*kernel) ==> final(self)->GrayScott_0@ == successor(
                *kernel,
                old(self)->GrayScott_0@,
            ),
    {
        match self {
            EngineKind::GrayScott(engine) => engine.step(kernel),
        }
    }

    /// The primary output field of the engine.
    pub fn field(&self) -> (f: &Field)
        ensures
            f@ == self->GrayScott_0@.v,
    {
        match self {
            EngineKind::GrayScott(engine) => engine.field(),
        }
    }

    /// The current parameter values of the engine.
    pub fn params(&self) -> (p: GrayScottParams)
        ensures
            p == self->GrayScott_0@.params,
    {
        match self {
            EngineKind::GrayScott(engine) => engine.params(),
        }
    }

    /// The schema of the parameters of the engine.
    pub fn param_schema(&self) -> (schema: Vec<ParamSpec>)
        ensures
            is_schema(schema@),
    {
        match self {
            EngineKind::GrayScott(engine) => engine.param_schema(),
        }
    }

    /// The secondary field that modulates hue, for engines that have one.
    pub fn hue_field(&self) -> (f: Option<&Field>)
        ensures
            f is None,
    {
        match self {
            EngineKind::GrayScott(engine) => engine.hue_field(),
        }
    }
}

} // verus!
