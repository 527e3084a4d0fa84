//! The description of a run from which it can be recreated.

use crate::error::EngineError;
use crate::field::{cell_count, valid_dimensions};
use crate::params::{empty_object, json_fields, json_is_object, no_fields};
use vstd::prelude::*;

verus! {

/// Everything needed to recreate a run: engine name, dimensions, parameter
/// overrides, PRNG seed and step count.
#[derive(Debug, PartialEq)]
pub struct Seed {
    pub engine: String,
    pub width: usize,
    pub height: usize,
    pub params: serde_json::Value,
    pub seed: u64,
    pub steps: usize,
}

impl Clone for Seed {
    /// A description of the same run.
    fn clone(&self) -> (copy: Seed)
        ensures
            copy.engine@ == self.engine@,
            copy.width == self.width,
            copy.height == self.height,
            json_is_object(copy.params) == json_is_object(self.params),
            json_fields(copy.params) == json_fields(self.params),
            copy.seed == self.seed,
            copy.steps == self.steps,
    {
        Seed {
            engine: self.engine.clone(),
            width: self.width,
            height: self.height,
            params: self.params.clone(),
            seed: self.seed,
            steps: self.steps,
        }
    }
}

impl Seed {
    /// Creates a seed with no parameter overrides and no steps.
    pub fn new(engine: &str, width: usize, height: usize, seed: u64) -> (s: Seed)
        ensures
            s.engine@ == engine@,
            s.width == width,
            s.height == height,
            json_is_object(s.params),
            json_fields(s.params) == no_fields(),
            s.seed == seed,
            s.steps == 0,
    {
        Seed { engine: engine.to_owned(), width, height, params: empty_object(), seed, steps: 0 }
    }

    /// Checks that a field of these dimensions can exist.
    pub fn validate(&self) -> (r: Result<(), EngineError>)
        ensures
            valid_dimensions(self.width, self.height) ==> r is Ok,
            !valid_dimensions(self.width, self.height) ==> r is Err && r->Err_0
                is InvalidDimensions,
    {
        match cell_count(self.width, self.height) {
            Some(_) => Ok(()),
            None => Err(EngineError::InvalidDimensions),
        }
    }
}

} // verus!
