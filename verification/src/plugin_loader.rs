//! Checks made by the host before it hands a pixel buffer to a plugin.
use vstd::prelude::*;
use crate::error::AppError;
use crate::rgba::image_bytes;

verus! {

/// Checks that `rgba` holds exactly the `width * height * 4` bytes of an
/// RGBA8 image of that size.
pub fn validate_rgba(width: u32, height: u32, rgba: &[u8]) -> (res: Result<(), AppError>)
    requires
        image_bytes(width as int, height as int) <= usize::MAX,
    ensures
        res is Ok <==> rgba@.len() == image_bytes(width as int, height as int),
        res is Err ==> res matches Err(AppError::InvalidImageBuffer),
{
    assert(width * height <= width * height * 4) by (nonlinear_arith)
        requires
            width >= 0,
            height >= 0,
    ;
    if rgba.len() != (width as usize * height as usize * 4) {
        return Err(AppError::InvalidImageBuffer);
    }
    Ok(())
}

} // verus!
