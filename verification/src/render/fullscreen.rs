//! The vertex shader of the fullscreen triangle.

use vstd::prelude::*;

verus! {

/// GLSL ES 3.0 vertex shader that renders a fullscreen triangle. It makes
/// clip-space positions and UV coordinates from `gl_VertexID` alone, so no
/// vertex buffer is needed.
pub const FULLSCREEN_VERTEX_SHADER: &'static str =
    "#version 300 es\nout vec2 v_uv;\nvoid main() {\n    v_uv = vec2((gl_VertexID << 1) & 2, gl_VertexID & 2);\n    gl_Position = vec4(v_uv * 2.0 - 1.0, 0.0, 1.0);\n}\n";

} // verus!
