//! Layout of RGBA8 pixel buffers: a row-major grid of pixels, four bytes
//! (red, green, blue, alpha) per pixel, and the size check that both
//! plugins perform before they touch a buffer.
use vstd::prelude::*;

verus! {

/// Byte offset of the pixel at column `x`, row `y` in an image `width` pixels wide.
pub open spec fn pixel_offset(width: int, x: int, y: int) -> int {
    (y * width + x) * 4
}

/// Channel (0 = red, 1 = green, 2 = blue, 3 = alpha) of byte `i`.
pub open spec fn chan(i: int) -> int {
    i % 4
}

/// Column of the pixel that byte `i` belongs to.
pub open spec fn col(width: int, i: int) -> int {
    (i / 4) % width
}

/// Row of the pixel that byte `i` belongs to.
pub open spec fn row(width: int, i: int) -> int {
    (i / 4) / width
}

/// Number of bytes that the pixels of a `width` by `height` image take.
pub open spec fn image_bytes(width: int, height: int) -> int {
    width * height * 4
}

/// Reading a byte of a pixel back gives that pixel's column, row and channel.
pub proof fn lemma_offset_coords(width: int, x: int, y: int, c: int)
    requires
        0 <= x < width,
        0 <= y,
        0 <= c < 4,
    ensures
        (pixel_offset(width, x, y) + c) / 4 == y * width + x,
        chan(pixel_offset(width, x, y) + c) == c,
        col(width, pixel_offset(width, x, y) + c) == x,
        row(width, pixel_offset(width, x, y) + c) == y,
{
    let p = y * width + x;
    assert(p >= 0) by (nonlinear_arith)
        requires
            0 <= x < width,
            0 <= y,
            p == y * width + x,
    ;
    vstd::arithmetic::div_mod::lemma_fundamental_div_mod_converse(p * 4 + c, 4, p, c);
    vstd::arithmetic::div_mod::lemma_fundamental_div_mod_converse(p, width, y, x);
}

/// Every byte of a pixel lies inside the image's bytes.
pub proof fn lemma_offset_bounds(width: int, height: int, x: int, y: int)
    requires
        0 <= x < width,
        0 <= y < height,
    ensures
        0 <= pixel_offset(width, x, y),
        pixel_offset(width, x, y) + 4 <= image_bytes(width, height),
        y * width + x < width * height,
{
    assert(0 <= y * width + x < width * height) by (nonlinear_arith)
        requires
            0 <= x < width,
            0 <= y < height,
    ;
}

/// Each byte of the image is a channel of exactly one pixel.
pub proof fn lemma_decompose(width: int, height: int, i: int)
    requires
        0 <= i < image_bytes(width, height),
        width >= 0,
        height >= 0,
    ensures
        width > 0,
        height > 0,
        0 <= col(width, i) < width,
        0 <= row(width, i) < height,
        0 <= chan(i) < 4,
        i == pixel_offset(width, col(width, i), row(width, i)) + chan(i),
        i / 4 == row(width, i) * width + col(width, i),
{
    assert(width > 0 && height > 0) by (nonlinear_arith)
        requires
            0 <= i < width * height * 4,
            width >= 0,
            height >= 0,
    ;
    let p = i / 4;
    vstd::arithmetic::div_mod::lemma_fundamental_div_mod(i, 4);
    vstd::arithmetic::div_mod::lemma_fundamental_div_mod(p, width);
    vstd::arithmetic::div_mod::lemma_mod_bound(p, width);
    assert(0 <= p);
    assert(p < width * height) by (nonlinear_arith)
        requires
            0 <= i < width * height * 4,
            p == i / 4,
    ;
    let q = p / width;
    let r = p % width;
    assert(0 <= q < height) by (nonlinear_arith)
        requires
            0 <= p < width * height,
            width > 0,
            p == width * q + r,
            0 <= r < width,
    ;
    assert(p == (p / width) * width + p % width) by (nonlinear_arith)
        requires
            p == width * (p / width) + p % width,
    ;
}

/// Why a plugin refuses the image it is handed.
#[derive(Debug, Clone, Copy, PartialEq, Eq, Structural)]
pub enum PluginError {
    /// A blur was asked for with zero iterations.
    ZeroIterations,
    /// `width * height` does not fit in `usize`.
    PixelCountOverflow,
    /// `width * height * 4` does not fit in `usize`.
    BufferLenOverflow,
    /// The image has no pixels.
    EmptyBuffer,
}

/// What the size check of a plugin returns for the given dimensions.
pub open spec fn rgba_len_result(width: u32, height: u32) -> Result<usize, PluginError> {
    if width * height > usize::MAX {
        Err(PluginError::PixelCountOverflow)
    } else if width * height * 4 > usize::MAX {
        Err(PluginError::BufferLenOverflow)
    } else if width * height * 4 == 0 {
        Err(PluginError::EmptyBuffer)
    } else {
        Ok((width * height * 4) as usize)
    }
}

/// Length in bytes of the RGBA8 buffer of a `width` by `height` image, or
/// why no such buffer can be handled.
pub fn rgba_len(width: u32, height: u32) -> (res: Result<usize, PluginError>)
    ensures
        res == rgba_len_result(width, height),
        0 < width * height * 4 <= usize::MAX ==> res == Ok::<usize, PluginError>(
            (width * height * 4) as usize,
        ),
        res == Err::<usize, PluginError>(PluginError::EmptyBuffer) <==> (width == 0 || height
            == 0),
        res == Err::<usize, PluginError>(PluginError::PixelCountOverflow) <==> width * height
            > usize::MAX,
        res == Err::<usize, PluginError>(PluginError::BufferLenOverflow) <==> (width * height
            <= usize::MAX && width * height * 4 > usize::MAX),
{
    proof {
        lemma_rgba_len_result(width, height);
    }
    let pixel_count = match (width as usize).checked_mul(height as usize) {
        Some(n) => n,
        None => return Err(PluginError::PixelCountOverflow),
    };
    let len = match pixel_count.checked_mul(4) {
        Some(n) => n,
        None => return Err(PluginError::BufferLenOverflow),
    };
    if len == 0 {
        return Err(PluginError::EmptyBuffer);
    }
    Ok(len)
}

/// The size check accepts exactly the non-empty images whose buffer size
/// fits in `usize`, with the buffer size `width * height * 4`; it calls an
/// image empty exactly when it has no columns or no rows, and otherwise
/// refuses only sizes that overflow `usize`.
pub proof fn lemma_rgba_len_result(width: u32, height: u32)
    ensures
        0 < width * height * 4 <= usize::MAX ==> rgba_len_result(width, height) == Ok::<
            usize,
            PluginError,
        >((width * height * 4) as usize),
        rgba_len_result(width, height) is Ok ==> 0 < width * height * 4 <= usize::MAX,
        rgba_len_result(width, height) == Err::<usize, PluginError>(PluginError::EmptyBuffer)
            <==> (width == 0 || height == 0),
        rgba_len_result(width, height) == Err::<usize, PluginError>(
            PluginError::PixelCountOverflow,
        ) <==> width * height > usize::MAX,
        rgba_len_result(width, height) == Err::<usize, PluginError>(
            PluginError::BufferLenOverflow,
        ) <==> (width * height <= usize::MAX && width * height * 4 > usize::MAX),
        rgba_len_result(width, height) is Err ==> (width == 0 || height == 0 || width * height
            * 4 > usize::MAX),
{
    assert((width * height * 4 == 0) <==> (width == 0 || height == 0)) by (nonlinear_arith)
        requires
            width >= 0,
            height >= 0,
    ;
    assert(width * height <= width * height * 4) by (nonlinear_arith)
        requires
            width >= 0,
            height >= 0,
    ;
}

} // verus!
