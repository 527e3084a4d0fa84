//! What the rendering pipeline asks of a GPU context.

use vstd::prelude::*;
use vstd::string::StringExecFns;

verus! {

/// The extension that rendering to half-float framebuffers needs.
pub const COLOR_BUFFER_FLOAT: &'static str = "EXT_color_buffer_float";

/// The complaint about a context that lacks [`COLOR_BUFFER_FLOAT`].
pub open spec fn missing_extension_text() -> Seq<char> {
    "required extension "@ + COLOR_BUFFER_FLOAT@ + " is not supported"@
}

/// Judges a context by whether it supports [`COLOR_BUFFER_FLOAT`]: the
/// pipeline cannot work without it.
pub fn check_color_buffer_float(supported: bool) -> (r: Result<(), String>)
    ensures
        supported ==> r is Ok,
        !supported ==> r is Err && r->Err_0@ == missing_extension_text(),
{
    if supported {
        return Ok(());
    }
    let mut complaint = String::from_str("required extension ");
    complaint.append(COLOR_BUFFER_FLOAT);
    complaint.append(" is not supported");
    Err(complaint)
}

} // verus!
