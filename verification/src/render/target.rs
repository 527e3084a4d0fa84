//! Framebuffer completeness diagnostics for render targets.

use crate::text::{push_upper_hex_padded, upper_hex_padded};
use vstd::prelude::*;
use vstd::string::StringExecFns;

verus! {

/// GL framebuffer status: complete.
pub const FRAMEBUFFER_COMPLETE: u32 = 0x8CD5;

/// The complaint about a framebuffer whose status is not complete: the
/// status follows in hexadecimal, at least four digits wide.
pub open spec fn incomplete_text(status: u32, resized: bool) -> Seq<char> {
    (if resized {
        "framebuffer incomplete after resize: status 0x"@
    } else {
        "framebuffer incomplete: status 0x"@
    }) + upper_hex_padded(status as nat, 4)
}

/// Judges the status of a framebuffer after its texture was attached, at
/// creation or after a resize.
pub fn framebuffer_status(status: u32, resized: bool) -> (r: Result<(), String>)
    ensures
        status == FRAMEBUFFER_COMPLETE ==> r is Ok,
        status != FRAMEBUFFER_COMPLETE ==> r is Err && r->Err_0@ == incomplete_text(
            status,
            resized,
        ),
{
    if status == FRAMEBUFFER_COMPLETE {
        return Ok(());
    }
    let mut out = String::new();
    if resized {
        out.append("framebuffer incomplete after resize: status 0x");
    } else {
        out.append("framebuffer incomplete: status 0x");
    }
    push_upper_hex_padded(&mut out, status as usize, 4);
    assert(out@ =~= incomplete_text(status, resized));
    Err(out)
}

} // verus!
