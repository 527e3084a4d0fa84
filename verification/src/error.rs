//! The error conditions of the engine and their messages.

use crate::text::{decimal_digits, push_decimal};
use vstd::prelude::*;
use vstd::string::StringExecFns;

verus! {

/// Errors produced by engine operations.
#[derive(Debug)]
pub enum EngineError {
    /// Width or height was zero, or their product does not fit the machine word.
    InvalidDimensions,
    /// A requested parameter name was not found.
    ParamNotFound(String),
    /// A parameter existed but had the wrong type.
    ParamTypeMismatch { name: String, expected: String, got: String },
    /// A coordinate was outside the bounds of a field.
    OutOfBounds { x: usize, y: usize, width: usize, height: usize },
    /// Two fields had different shapes in an element-wise operation.
    DimensionMismatch { lhs_w: usize, lhs_h: usize, rhs_w: usize, rhs_h: usize },
    /// A color string could not be parsed.
    InvalidColor(String),
    /// A palette could not be built from the given colors.
    InvalidPalette(String),
    /// No engine is registered under the given name.
    UnknownEngine(String),
    /// Reading or writing outside the process failed.
    Io(String),
    /// A canvas already holds a layer of the given name.
    DuplicateLayerName(String),
    /// A canvas holds no layer of the given name.
    LayerNotFound(String),
}

impl EngineError {
    /// The text that [`EngineError::message`] produces.
    pub open spec fn message_text(&self) -> Seq<char> {
        match self {
            EngineError::InvalidDimensions => {
                "invalid dimensions: width and height must be non-zero"@
            },
            EngineError::ParamNotFound(name) => "parameter not found: "@ + name@,
            EngineError::ParamTypeMismatch { name, expected, got } => {
                "parameter type mismatch for '"@ + name@ + "': expected "@ + expected@ + ", got "@
                    + got@
            },
            EngineError::OutOfBounds { x, y, width, height } => {
                "index ("@ + decimal_digits(*x as nat) + ", "@ + decimal_digits(*y as nat)
                    + ") out of bounds for field of size ("@ + decimal_digits(*width as nat)
                    + ", "@ + decimal_digits(*height as nat) + ")"@
            },
            EngineError::DimensionMismatch { lhs_w, lhs_h, rhs_w, rhs_h } => {
                "dimension mismatch: ("@ + decimal_digits(*lhs_w as nat) + ", "@ + decimal_digits(
                    *lhs_h as nat,
                ) + ") vs ("@ + decimal_digits(*rhs_w as nat) + ", "@ + decimal_digits(
                    *rhs_h as nat,
                ) + ")"@
            },
            EngineError::InvalidColor(detail) => "invalid color: "@ + detail@,
            EngineError::InvalidPalette(detail) => "invalid palette: "@ + detail@,
            EngineError::UnknownEngine(name) => "unknown engine: "@ + name@,
            EngineError::Io(detail) => "I/O error: "@ + detail@,
            EngineError::DuplicateLayerName(name) => "duplicate layer name: "@ + name@,
            EngineError::LayerNotFound(name) => "layer not found: "@ + name@,
        }
    }

    /// A human-readable description of the error.
    pub fn message(&self) -> (text: String)
        ensures
            text@ == self.message_text(),
    {
        let mut out = String::new();
        match self {
            EngineError::InvalidDimensions => {
                out.append("invalid dimensions: width and height must be non-zero");
            },
            EngineError::ParamNotFound(name) => {
                out.append("parameter not found: ");
                out.append(name.as_str());
            },
            EngineError::ParamTypeMismatch { name, expected, got } => {
                out.append("parameter type mismatch for '");
                out.append(name.as_str());
                out.append("': expected ");
                out.append(expected.as_str());
                out.append(", got ");
                out.append(got.as_str());
            },
            EngineError::OutOfBounds { x, y, width, height } => {
                out.append("index (");
                push_decimal(&mut out, *x);
                out.append(", ");
                push_decimal(&mut out, *y);
                out.append(") out of bounds for field of size (");
                push_decimal(&mut out, *width);
                out.append(", ");
                push_decimal(&mut out, *height);
                out.append(")");
            },
            EngineError::DimensionMismatch { lhs_w, lhs_h, rhs_w, rhs_h } => {
                out.append("dimension mismatch: (");
                push_decimal(&mut out, *lhs_w);
                out.append(", ");
                push_decimal(&mut out, *lhs_h);
                out.append(") vs (");
                push_decimal(&mut out, *rhs_w);
                out.append(", ");
                push_decimal(&mut out, *rhs_h);
                out.append(")");
            },
            EngineError::InvalidColor(detail) => {
                out.append("invalid color: ");
                out.append(detail.as_str());
            },
            EngineError::InvalidPalette(detail) => {
                out.append("invalid palette: ");
                out.append(detail.as_str());
            },
            EngineError::UnknownEngine(name) => {
                out.append("unknown engine: ");
                out.append(name.as_str());
            },
            EngineError::Io(detail) => {
                out.append("I/O error: ");
                out.append(detail.as_str());
            },
            EngineError::DuplicateLayerName(name) => {
                out.append("duplicate layer name: ");
                out.append(name.as_str());
            },
            EngineError::LayerNotFound(name) => {
                out.append("layer not found: ");
                out.append(name.as_str());
            },
        }
        assert(out@ =~= self.message_text());
        out
    }
}

} // verus!
