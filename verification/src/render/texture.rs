//! Texture configuration.

use vstd::prelude::*;

verus! {

/// GL internal format: four half-float channels.
pub const RGBA16F: u32 = 0x881A;

/// GL internal format: three half-float channels.
pub const RGB16F: u32 = 0x881B;

/// GL internal format: four float channels.
pub const RGBA32F: u32 = 0x8814;

/// GL internal format: three float channels.
pub const RGB32F: u32 = 0x8815;

/// GL pixel type: half float.
pub const HALF_FLOAT: u32 = 0x140B;

/// GL pixel type: float.
pub const FLOAT: u32 = 0x1406;

/// GL pixel type: unsigned byte.
pub const UNSIGNED_BYTE: u32 = 0x1401;

/// GL texture filter: linear interpolation.
pub const LINEAR: u32 = 0x2601;

/// Configuration for creating a GPU texture.
#[derive(Debug, Clone, Copy, PartialEq, Eq, Structural)]
pub struct TextureConfig {
    /// Texture width in pixels.
    pub width: u32,
    /// Texture height in pixels.
    pub height: u32,
    /// GL internal format.
    pub internal_format: u32,
    /// GL texture filter mode.
    pub filter: u32,
}

impl TextureConfig {
    /// The configuration of a half-float HDR texture with linear filtering.
    pub fn rgba16f(width: u32, height: u32) -> (config: TextureConfig)
        ensures
            config == (TextureConfig { width, height, internal_format: RGBA16F, filter: LINEAR }),
    {
        TextureConfig { width, height, internal_format: RGBA16F, filter: LINEAR }
    }
}

/// The pixel type in which a texture of the given internal format is
/// uploaded.
pub open spec fn pixel_type(internal_format: u32) -> u32 {
    if internal_format == RGBA16F || internal_format == RGB16F {
        HALF_FLOAT
    } else if internal_format == RGBA32F || internal_format == RGB32F {
        FLOAT
    } else {
        UNSIGNED_BYTE
    }
}

/// Returns the GL pixel type that corresponds to a given internal format.
pub fn pixel_type_for_format(internal_format: u32) -> (r: u32)
    ensures
        r == pixel_type(internal_format),
{
    if internal_format == RGBA16F || internal_format == RGB16F {
        HALF_FLOAT
    } else if internal_format == RGBA32F || internal_format == RGB32F {
        FLOAT
    } else {
        UNSIGNED_BYTE
    }
}

} // verus!
