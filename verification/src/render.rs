//! The GPU-independent parts of the rendering pipeline: buffer index
//! bookkeeping, shader diagnostics and texture configuration.

pub mod context;
pub mod fullscreen;
pub mod ping_pong;
pub mod shader;
pub mod target;
pub mod texture;
