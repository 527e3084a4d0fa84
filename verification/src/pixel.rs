//! Pixel buffers: a field shaded into RGBA8 bytes.

use crate::color::Srgb8;
use crate::error::EngineError;
use crate::field::Field;
use vstd::prelude::*;

verus! {

/// The alpha byte of every pixel: fully opaque.
pub const OPAQUE: u8 = 255;

/// `bytes` holds, for each sample in order, four bytes: the red, green and
/// blue of a color that `shade` can return for the sample, and [`OPAQUE`].
pub open spec fn shaded<F: Fn(u64) -> Srgb8>(shade: F, cells: Seq<u64>, bytes: Seq<u8>) -> bool {
    &&& bytes.len() == 4 * cells.len()
    &&& forall|i: int|
        0 <= i < cells.len() ==> shade.ensures(
            (#[trigger] cells[i],),
            Srgb8 { r: bytes[4 * i], g: bytes[4 * i + 1], b: bytes[4 * i + 2] },
        ) && bytes[4 * i + 3] == OPAQUE
}

/// Shades a field into an RGBA8 pixel buffer in row-major order: each
/// sample becomes the color that `shade` gives it, followed by an opaque
/// alpha byte.
pub fn field_to_rgba<F: Fn(u64) -> Srgb8>(field: &Field, shade: F) -> (bytes: Vec<u8>)
    requires
        forall|i: int|
            0 <= i < field@.cells.len() ==> shade.requires((#[trigger] field@.cells[i],)),
    ensures
        shaded(shade, field@.cells, bytes@),
{
    let cells: &Vec<u64> = field.data();
    let n: usize = cells.len();
    let mut bytes: Vec<u8> = Vec::new();
    let mut i: usize = 0;
    while i < n
        invariant
            i <= n,
            n == cells.len(),
            forall|j: int| 0 <= j < n ==> shade.requires((#[trigger] cells@[j],)),
            shaded(shade, cells@.take(i as int), bytes@),
        decreases n - i,
    {
        let color: Srgb8 = shade(cells[i]);
        let ghost before = bytes@;
        bytes.push(color.r);
        bytes.push(color.g);
        bytes.push(color.b);
        bytes.push(OPAQUE);
        proof {
            let taken = cells@.take(i + 1);
            assert forall|j: int| 0 <= j < taken.len() implies shade.ensures(
                (#[trigger] taken[j],),
                Srgb8 { r: bytes@[4 * j], g: bytes@[4 * j + 1], b: bytes@[4 * j + 2] },
            ) && bytes@[4 * j + 3] == OPAQUE by {
                if j < i {
                    assert(cells@.take(i as int)[j] == taken[j]);
                    assert(bytes@[4 * j] == before[4 * j]);
                }
            }
        }
        i += 1;
    }
    assert(cells@.take(n as int) =~= cells@);
    bytes
}

/// The sides of a field as an image encoder takes them: each must fit in
/// 32 bits.
pub fn image_dimensions(field: &Field) -> (r: Result<(u32, u32), EngineError>)
    ensures
        field@.width <= u32::MAX && field@.height <= u32::MAX ==> r == Ok::<
            (u32, u32),
            EngineError,
        >((field@.width as u32, field@.height as u32)),
        field@.width > u32::MAX || field@.height > u32::MAX ==> r is Err && r->Err_0
            is InvalidDimensions,
{
    let w: usize = field.width();
    let h: usize = field.height();
    if w > u32::MAX as usize || h > u32::MAX as usize {
        return Err(EngineError::InvalidDimensions);
    }
    Ok((w as u32, h as u32))
}

} // verus!
