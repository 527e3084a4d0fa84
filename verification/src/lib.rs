//! A deterministic reaction-diffusion engine on a toroidal grid.
//!
//! The crate is the discrete core of the engine: grid addressing, the
//! double-buffered stepping loop, seeding, the pseudo-random stream, the
//! registries and the text formats. Samples are carried as IEEE-754 binary64
//! bit patterns (`u64`), so the core never performs floating-point
//! arithmetic itself: it clamps and compares on the bit patterns, and the
//! numeric kernels are handed in by the caller as closures.
//!
//! - [`unit`]: the unit interval on bit patterns: clamping, fractions.
//! - [`torus`]: wrap-around arithmetic on one axis.
//! - [`field`]: the scalar field with toroidal addressing.
//! - [`prng`]: the xorshift64 stream.
//! - [`gray_scott`]: the Gray-Scott stepper, its parameters and its seeding.
//! - [`engines`]: construction of engines by name.
//! - [`color`], [`palette`], [`pixel`]: eight-bit colors, their hex form,
//!   palettes of stops and RGBA pixel buffers.
//! - [`canvas`]: canvases and their layer stacks.
//! - [`params`], [`seed`]: typed reads from JSON parameter bags, and the
//!   description of a run.
//! - [`field_source`]: seeds of the noise generators of vector fields.
//! - [`error`], [`cli`]: error conditions, messages and exit codes.
//! - [`render`]: the GPU-independent parts of the rendering pipeline.
//! - [`text`]: numerals and other text building blocks.

pub mod canvas;
pub mod cli;
pub mod color;
pub mod engines;
pub mod error;
pub mod field;
pub mod field_source;
pub mod gray_scott;
pub mod palette;
pub mod params;
pub mod pixel;
pub mod prng;
pub mod render;
pub mod seed;
pub mod text;
pub mod torus;
pub mod unit;

pub use canvas::{BlendMode, Canvas, ContentType, Layer};
pub use cli::CliError;
pub use color::Srgb8;
pub use engines::EngineKind;
pub use error::EngineError;
pub use field::Field;
pub use gray_scott::{GrayScott, GrayScottParams};
pub use palette::Palette;
pub use prng::Xorshift64;
pub use seed::Seed;
