//! The parameters of the Gray-Scott model and their schema.

use crate::unit::ZERO_BITS;
use vstd::prelude::*;

verus! {

/// The bits of `0.055`: the default feed rate.
pub const DEFAULT_FEED_RATE: u64 = 0x3FAC_28F5_C28F_5C29;

/// The bits of `0.062`: the default kill rate.
pub const DEFAULT_KILL_RATE: u64 = 0x3FAF_BE76_C8B4_3958;

/// The bits of `1.0`: the default diffusion rate of the substrate.
pub const DEFAULT_DIFFUSION_U: u64 = 0x3FF0_0000_0000_0000;

/// The bits of `0.5`: the default diffusion rate of the activator.
pub const DEFAULT_DIFFUSION_V: u64 = 0x3FE0_0000_0000_0000;

/// The bits of `1.0`: the default time step.
pub const DEFAULT_DT: u64 = 0x3FF0_0000_0000_0000;

/// The bits of `0.1`: the upper bound of the two rates.
pub const MAX_RATE: u64 = 0x3FB9_9999_9999_999A;

/// The bits of `2.0`: the upper bound of the diffusion rates and the time
/// step.
pub const MAX_DIFFUSION: u64 = 0x4000_0000_0000_0000;

/// The five parameters of the model, each a binary64 bit pattern.
#[derive(Debug, Clone, Copy, PartialEq, Eq, Structural)]
pub struct GrayScottParams {
    /// Feed rate (F): how fast substrate U is replenished.
    pub feed_rate: u64,
    /// Kill rate (k): how fast activator V is removed.
    pub kill_rate: u64,
    /// Diffusion rate for U (substrate).
    pub diffusion_u: u64,
    /// Diffusion rate for V (activator).
    pub diffusion_v: u64,
    /// Time step per step.
    pub dt: u64,
}

impl GrayScottParams {
    /// The classic coral regime: F = 0.055, k = 0.062, Du = 1.0, Dv = 0.5,
    /// dt = 1.0.
    pub open spec fn coral() -> GrayScottParams {
        GrayScottParams {
            feed_rate: DEFAULT_FEED_RATE,
            kill_rate: DEFAULT_KILL_RATE,
            diffusion_u: DEFAULT_DIFFUSION_U,
            diffusion_v: DEFAULT_DIFFUSION_V,
            dt: DEFAULT_DT,
        }
    }

    /// The parameter at position `i` of the schema.
    pub open spec fn at(self, i: int) -> u64 {
        if i == 0 {
            self.feed_rate
        } else if i == 1 {
            self.kill_rate
        } else if i == 2 {
            self.diffusion_u
        } else if i == 3 {
            self.diffusion_v
        } else {
            self.dt
        }
    }
}

impl Default for GrayScottParams {
    fn default() -> (p: GrayScottParams)
        ensures
            p == GrayScottParams::coral(),
    {
        GrayScottParams {
            feed_rate: DEFAULT_FEED_RATE,
            kill_rate: DEFAULT_KILL_RATE,
            diffusion_u: DEFAULT_DIFFUSION_U,
            diffusion_v: DEFAULT_DIFFUSION_V,
            dt: DEFAULT_DT,
        }
    }
}

/// The description of one parameter: its name, the kind of its value, its
/// default and bounds as binary64 bit patterns, and a sentence about it.
#[derive(Debug, Clone, Copy, PartialEq, Eq)]
pub struct ParamSpec {
    pub name: &'static str,
    pub kind: &'static str,
    pub default: u64,
    pub min: u64,
    pub max: u64,
    pub description: &'static str,
}

/// The names of the five parameters, in the order of the schema.
pub open spec fn param_name(i: int) -> Seq<char> {
    if i == 0 {
        "feed_rate"@
    } else if i == 1 {
        "kill_rate"@
    } else if i == 2 {
        "diffusion_u"@
    } else if i == 3 {
        "diffusion_v"@
    } else {
        "dt"@
    }
}

/// The sentences that describe the five parameters, in the order of the
/// schema.
pub open spec fn param_description(i: int) -> Seq<char> {
    if i == 0 {
        "Feed rate (F): how fast substrate U is replenished"@
    } else if i == 1 {
        "Kill rate (k): how fast activator V is removed"@
    } else if i == 2 {
        "Diffusion rate for U (substrate)"@
    } else if i == 3 {
        "Diffusion rate for V (activator)"@
    } else {
        "Time step per step() call"@
    }
}

/// The schema of the parameters: one entry for each, in a fixed order, with
/// the coral regime as defaults. All bounds are non-negative numbers, for
/// which the order of the bit patterns is the order of the numbers; every
/// default lies within its bounds.
pub open spec fn is_schema(schema: Seq<ParamSpec>) -> bool {
    &&& schema.len() == 5
    &&& forall|i: int|
        0 <= i < 5 ==> {
            &&& (#[trigger] schema[i]).name@ == param_name(i)
            &&& schema[i].kind@ == "number"@
            &&& schema[i].default == GrayScottParams::coral().at(i)
            &&& schema[i].min == ZERO_BITS
            &&& schema[i].max == if i < 2 {
                MAX_RATE
            } else {
                MAX_DIFFUSION
            }
            &&& schema[i].min <= schema[i].default <= schema[i].max
            &&& schema[i].description@ == param_description(i)
        }
}

/// The schema of the parameters.
pub fn param_schema() -> (schema: Vec<ParamSpec>)
    ensures
        is_schema(schema@),
{
    vec![
        ParamSpec {
            name: "feed_rate",
            kind: "number",
            default: DEFAULT_FEED_RATE,
            min: ZERO_BITS,
            max: MAX_RATE,
            description: "Feed rate (F): how fast substrate U is replenished",
        },
        ParamSpec {
            name: "kill_rate",
            kind: "number",
            default: DEFAULT_KILL_RATE,
            min: ZERO_BITS,
            max: MAX_RATE,
            description: "Kill rate (k): how fast activator V is removed",
        },
        ParamSpec {
            name: "diffusion_u",
            kind: "number",
            default: DEFAULT_DIFFUSION_U,
            min: ZERO_BITS,
            max: MAX_DIFFUSION,
            description: "Diffusion rate for U (substrate)",
        },
        ParamSpec {
            name: "diffusion_v",
            kind: "number",
            default: DEFAULT_DIFFUSION_V,
            min: ZERO_BITS,
            max: MAX_DIFFUSION,
            description: "Diffusion rate for V (activator)",
        },
        ParamSpec {
            name: "dt",
            kind: "number",
            default: DEFAULT_DT,
            min: ZERO_BITS,
            max: MAX_DIFFUSION,
            description: "Time step per step() call",
        },
    ]
}

} // verus!
