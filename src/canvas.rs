//! The size rules of a canvas in pixels.
use vstd::prelude::*;

verus! {

/// Largest canvas width or height, in pixels.
pub const MAX_CANVAS_DIMENSION: u32 = 4096;

/// Accepts a canvas of `width` by `height` pixels: both must be non-zero and
/// at most `MAX_CANVAS_DIMENSION`.
pub fn validate_canvas_size(width: u32, height: u32) -> (r: Result<(), String>)
    ensures
        r.is_ok() <==> (0 < width <= MAX_CANVAS_DIMENSION && 0 < height <= MAX_CANVAS_DIMENSION),
        (width == 0 || height == 0) ==> r.is_err() && r.unwrap_err()@ == "Invalid dimensions"@,
        (width != 0 && height != 0 && (width > MAX_CANVAS_DIMENSION || height
            > MAX_CANVAS_DIMENSION)) ==> r.is_err() && r.unwrap_err()@ == "Dimensions too large"@,
{
    if width == 0 || height == 0 {
        return Err("Invalid dimensions".to_string());
    }
    if width > MAX_CANVAS_DIMENSION || height > MAX_CANVAS_DIMENSION {
        return Err("Dimensions too large".to_string());
    }
    Ok(())
}

} // verus!
