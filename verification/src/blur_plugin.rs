//! The blur plugin: a circular blur with linear fall-off over an RGBA8 image, in place.
//!
//! For every pixel the plugin gathers the pixels of a square window of
//! `radius` pixels around it, keeps those whose squared distance to the
//! centre is at most `radius * radius`, and hands them, in row-major order,
//! to a blending function that weights them and computes the new red,
//! green and blue values. The blending function works in floating point
//! and is supplied by the caller; everything around it (the window, the
//! distance test, the addressing, the fallback to the old colour and the
//! untouched alpha channel) is done here.
use vstd::prelude::*;
use crate::rgba::{
    chan, pixel_offset, image_bytes, lemma_offset_coords, lemma_offset_bounds, lemma_decompose,
    PluginError, rgba_len, rgba_len_result,
};

verus! {

/// Parameters of the blur plugin (`{"radius": u32, "iterations": u32}`).
#[derive(Debug, Clone, Copy, PartialEq, Eq, Structural)]
pub struct BlurParams {
    /// Radius of the blur circle, in pixels.
    pub radius: u32,
    /// How many times the blur is applied.
    pub iterations: u32,
}

/// A neighbour of the pixel being blurred: its colour and its squared
/// distance to the centre pixel.
#[derive(Debug, Clone, Copy, PartialEq, Eq, Structural)]
pub struct BlurSample {
    /// Red channel of the neighbour.
    pub r: u8,
    /// Green channel of the neighbour.
    pub g: u8,
    /// Blue channel of the neighbour.
    pub b: u8,
    /// `dx * dx + dy * dy` for the neighbour's offset from the centre.
    pub dist_sqr: i64,
}

/// First index of the window around `c` (saturating at 0).
pub open spec fn window_lo(c: int, radius: int) -> int {
    if c >= radius {
        c - radius
    } else {
        0
    }
}

/// Last index of the window around `c`, clamped to the last of `n` indices.
pub open spec fn window_hi(c: int, radius: int, n: int) -> int {
    if c + radius <= n - 1 {
        c + radius
    } else {
        n - 1
    }
}

/// Largest squared distance that is still inside the blur circle; the
/// product is taken in `usize` and reinterpreted as `i64`.
pub open spec fn circle_bound(radius: usize) -> i64 {
    (radius * radius) as i64
}

/// Squared distance between pixels `(nx, ny)` and `(cx, cy)`.
pub open spec fn dist_sqr(nx: int, ny: int, cx: int, cy: int) -> int {
    (nx - cx) * (nx - cx) + (ny - cy) * (ny - cy)
}

/// The sample that pixel `(nx, ny)` of `src` contributes, at squared distance `d`.
pub open spec fn sample_at(src: Seq<u8>, width: int, nx: int, ny: int, d: int) -> BlurSample {
    let o = pixel_offset(width, nx, ny);
    BlurSample { r: src[o], g: src[o + 1], b: src[o + 2], dist_sqr: d as i64 }
}

/// Samples of row `ny` for columns `x0 .. x_end` that lie inside the circle
/// around `(cx, cy)`, left to right.
pub open spec fn row_samples(
    src: Seq<u8>,
    width: int,
    cx: int,
    cy: int,
    bound: int,
    ny: int,
    x0: int,
    x_end: int,
) -> Seq<BlurSample>
    decreases x_end - x0,
{
    if x_end <= x0 {
        Seq::empty()
    } else {
        let prev = row_samples(src, width, cx, cy, bound, ny, x0, x_end - 1);
        let d = dist_sqr(x_end - 1, ny, cx, cy);
        if d <= bound {
            prev.push(sample_at(src, width, x_end - 1, ny, d))
        } else {
            prev
        }
    }
}

/// Samples of rows `y0 .. y_end`, columns `x0 .. x_end`, that lie inside the
/// circle around `(cx, cy)`, in row-major order.
pub open spec fn window_samples(
    src: Seq<u8>,
    width: int,
    cx: int,
    cy: int,
    bound: int,
    y0: int,
    y_end: int,
    x0: int,
    x_end: int,
) -> Seq<BlurSample>
    decreases y_end - y0,
{
    if y_end <= y0 {
        Seq::empty()
    } else {
        window_samples(src, width, cx, cy, bound, y0, y_end - 1, x0, x_end) + row_samples(
            src,
            width,
            cx,
            cy,
            bound,
            y_end - 1,
            x0,
            x_end,
        )
    }
}

/// The samples handed to the blending function for the pixel at `(x, y)`.
pub open spec fn pixel_samples(
    src: Seq<u8>,
    width: usize,
    height: usize,
    radius: usize,
    x: int,
    y: int,
) -> Seq<BlurSample> {
    window_samples(
        src,
        width as int,
        x,
        y,
        circle_bound(radius) as int,
        window_lo(y, radius as int),
        window_hi(y, radius as int, height as int) + 1,
        window_lo(x, radius as int),
        window_hi(x, radius as int, width as int) + 1,
    )
}

/// `out` is a result that `blend` may give for a list holding `samples`.
pub open spec fn blend_allows<F: Fn(Vec<BlurSample>) -> Option<(u8, u8, u8)>>(
    blend: F,
    samples: Seq<BlurSample>,
    out: Option<(u8, u8, u8)>,
) -> bool {
    exists|v: Vec<BlurSample>| v@ == samples && #[trigger] call_ensures(blend, (v,), out)
}

/// Byte `i` of the blurred buffer, given the blending results `outs` of the
/// first `outs.len()` pixels: red, green and blue come from the blending
/// result where there is one, everything else is the source byte.
pub open spec fn blurred_byte(src: Seq<u8>, outs: Seq<Option<(u8, u8, u8)>>, i: int) -> u8 {
    if 0 <= i < 4 * outs.len() && chan(i) != 3 {
        match outs[i / 4] {
            Some((r, g, b)) => if chan(i) == 0 {
                r
            } else if chan(i) == 1 {
                g
            } else {
                b
            },
            None => src[i],
        }
    } else {
        src[i]
    }
}

/// The buffer `src` after the first `outs.len()` pixels got their blending results.
pub open spec fn blur_result(src: Seq<u8>, outs: Seq<Option<(u8, u8, u8)>>) -> Seq<u8> {
    Seq::new(src.len(), |i: int| blurred_byte(src, outs, i))
}

/// `outs` holds, for every pixel of the image in row-major order, a result
/// that `blend` may give for that pixel's samples.
pub open spec fn blend_outputs_ok<F: Fn(Vec<BlurSample>) -> Option<(u8, u8, u8)>>(
    blend: F,
    src: Seq<u8>,
    width: usize,
    height: usize,
    radius: usize,
    outs: Seq<Option<(u8, u8, u8)>>,
) -> bool {
    &&& outs.len() == width * height
    &&& forall|p: int|
        0 <= p < outs.len() ==> blend_allows(
            blend,
            pixel_samples(src, width, height, radius, p % (width as int), p / (width as int)),
            #[trigger] outs[p],
        )
}

/// `b` is a result of one blur pass over `a` with a radius greater than zero.
pub open spec fn blur_step<F: Fn(Vec<BlurSample>) -> Option<(u8, u8, u8)>>(
    blend: F,
    a: Seq<u8>,
    b: Seq<u8>,
    width: usize,
    height: usize,
    radius: usize,
) -> bool {
    exists|outs: Seq<Option<(u8, u8, u8)>>|
        #[trigger] blend_outputs_ok(blend, a, width, height, radius, outs) && b == blur_result(
            a,
            outs,
        )
}

/// Each buffer of `chain` is a result of one blur pass over the one before it.
pub open spec fn blur_chain<F: Fn(Vec<BlurSample>) -> Option<(u8, u8, u8)>>(
    blend: F,
    chain: Seq<Seq<u8>>,
    width: usize,
    height: usize,
    radius: usize,
) -> bool {
    forall|k: int|
        0 <= k < chain.len() - 1 ==> blur_step(blend, #[trigger] chain[k], chain[k + 1], width, height, radius)
}

/// `b` is a result of `n` blur passes over `a`.
pub open spec fn blurred_times<F: Fn(Vec<BlurSample>) -> Option<(u8, u8, u8)>>(
    blend: F,
    a: Seq<u8>,
    b: Seq<u8>,
    width: usize,
    height: usize,
    radius: usize,
    n: nat,
) -> bool {
    exists|chain: Seq<Seq<u8>>|
        #[trigger] blur_chain(blend, chain, width, height, radius) && chain.len() == n + 1 && chain[0]
            == a && chain[n as int] == b
}

/// `b` has the length of `a`, and the same alpha bytes and the same bytes
/// past the image.
pub open spec fn alpha_kept(a: Seq<u8>, b: Seq<u8>, width: usize, height: usize) -> bool {
    &&& b.len() == a.len()
    &&& forall|i: int|
        0 <= i < a.len() && (i >= image_bytes(width as int, height as int) || chan(i) == 3)
            ==> #[trigger] b[i] == a[i]
}

/// The smaller of `radius` and `n - 1`: how far a window reaches from its centre.
pub open spec fn reach(radius: int, n: int) -> int {
    if radius <= n - 1 {
        radius
    } else {
        n - 1
    }
}

/// The blur pass runs without arithmetic overflow and stays inside a buffer of `len` bytes.
pub open spec fn blur_fits(width: usize, height: usize, radius: usize, len: int) -> bool {
    &&& radius * radius <= usize::MAX
    &&& height > 0 ==> height - 1 + radius <= usize::MAX
    &&& (width > 0 && height > 0) ==> {
        &&& width - 1 + radius <= usize::MAX
        &&& reach(radius as int, width as int) * reach(radius as int, width as int) + reach(
            radius as int,
            height as int,
        ) * reach(radius as int, height as int) <= i64::MAX
    }
    &&& image_bytes(width as int, height as int) <= len
}

/// Appends to `samples` the pixels of row `ny`, columns `x0 ..= x1`, that lie
/// inside the circle around `(x, y)`, left to right.
fn gather_row(
    src: &Vec<u8>,
    samples: &mut Vec<BlurSample>,
    width: usize,
    height: usize,
    x: usize,
    y: usize,
    r_sqr: i64,
    ny: usize,
    x0: usize,
    x1: usize,
    sx: Ghost<int>,
    sy: Ghost<int>,
)
    requires
        x0 <= x <= x1 < width,
        y < height,
        ny < height,
        image_bytes(width as int, height as int) <= src@.len(),
        src@.len() <= usize::MAX,
        width <= i64::MAX,
        height <= i64::MAX,
        x - x0 <= sx@,
        x1 - x <= sx@,
        -sy@ <= ny - y <= sy@,
        sx@ * sx@ + sy@ * sy@ <= i64::MAX,
    ensures
        final(samples)@ == old(samples)@ + row_samples(
            src@,
            width as int,
            x as int,
            y as int,
            r_sqr as int,
            ny as int,
            x0 as int,
            x1 + 1,
        ),
{
    let ghost base = samples@;
    let mut nx = x0;
    while nx <= x1
        invariant
            x0 <= nx <= x1 + 1,
            x0 <= x <= x1 < width,
            y < height,
            ny < height,
            image_bytes(width as int, height as int) <= src@.len(),
            src@.len() <= usize::MAX,
            width <= i64::MAX,
            height <= i64::MAX,
            x - x0 <= sx@,
            x1 - x <= sx@,
            -sy@ <= ny - y <= sy@,
            sx@ * sx@ + sy@ * sy@ <= i64::MAX,
            samples@ == base + row_samples(
                src@,
                width as int,
                x as int,
                y as int,
                r_sqr as int,
                ny as int,
                x0 as int,
                nx as int,
            ),
        decreases x1 + 1 - nx,
    {
        let ghost prev = samples@;
        let dx: i64 = nx as i64 - x as i64;
        let dy: i64 = ny as i64 - y as i64;
        assert(dx * dx <= sx@ * sx@ && dy * dy <= sy@ * sy@ && 0 <= dx * dx && 0 <= dy * dy)
            by (nonlinear_arith)
            requires
                -sx@ <= dx <= sx@,
                -sy@ <= dy <= sy@,
        ;
        let d_sqr = dx * dx + dy * dy;
        assert(d_sqr == dist_sqr(nx as int, ny as int, x as int, y as int));
        if d_sqr <= r_sqr {
            proof {
                lemma_offset_bounds(width as int, height as int, nx as int, ny as int);
                assert(ny * width >= 0) by (nonlinear_arith)
                    requires
                        ny >= 0,
                        width >= 0,
                ;
            }
            let i = (ny * width + nx) * 4;
            assert(i == pixel_offset(width as int, nx as int, ny as int));
            samples.push(BlurSample { r: src[i], g: src[i + 1], b: src[i + 2], dist_sqr: d_sqr });
            assert(samples@ =~= base + row_samples(
                src@,
                width as int,
                x as int,
                y as int,
                r_sqr as int,
                ny as int,
                x0 as int,
                nx + 1,
            ));
        } else {
            assert(samples@ =~= base + row_samples(
                src@,
                width as int,
                x as int,
                y as int,
                r_sqr as int,
                ny as int,
                x0 as int,
                nx + 1,
            ));
        }
        nx = nx + 1;
    }
}

/// Collects the samples for the pixel at `(x, y)`: the pixels of its window
/// that lie inside the blur circle, in row-major order.
fn gather_samples(
    src: &Vec<u8>,
    width: usize,
    height: usize,
    radius: usize,
    r_sqr: i64,
    x: usize,
    y: usize,
) -> (samples: Vec<BlurSample>)
    requires
        x < width,
        y < height,
        blur_fits(width, height, radius, src@.len() as int),
        src@.len() <= usize::MAX,
        r_sqr == circle_bound(radius),
    ensures
        samples@ == pixel_samples(src@, width, height, radius, x as int, y as int),
{
    let ghost w = width as int;
    let ghost h = height as int;
    let ghost r = radius as int;
    assert(w <= w * h && h <= w * h) by (nonlinear_arith)
        requires
            0 <= x < w,
            0 <= y < h,
    ;
    assert(usize::MAX <= 0xffff_ffff_ffff_ffff);
    let y0 = y.saturating_sub(radius);
    let y1 = if y + radius <= height - 1 {
        y + radius
    } else {
        height - 1
    };
    let x0 = x.saturating_sub(radius);
    let x1 = if x + radius <= width - 1 {
        x + radius
    } else {
        width - 1
    };
    assert(y0 == window_lo(y as int, r));
    assert(x0 == window_lo(x as int, r));
    let ghost sx = reach(r, w);
    let ghost sy = reach(r, h);
    let mut samples: Vec<BlurSample> = Vec::new();
    let mut ny = y0;
    while ny <= y1
        invariant
            y0 <= ny <= y1 + 1,
            y0 <= y <= y1 < height,
            x0 <= x <= x1 < width,
            y0 == window_lo(y as int, r),
            y1 == window_hi(y as int, r, h),
            x0 == window_lo(x as int, r),
            x1 == window_hi(x as int, r, w),
            w == width,
            h == height,
            r == radius,
            sx == reach(r, w),
            sy == reach(r, h),
            sx * sx + sy * sy <= i64::MAX,
            image_bytes(w, h) <= src@.len(),
            src@.len() <= usize::MAX,
            width <= i64::MAX,
            height <= i64::MAX,
            samples@ == window_samples(
                src@,
                w,
                x as int,
                y as int,
                r_sqr as int,
                y0 as int,
                ny as int,
                x0 as int,
                x1 + 1,
            ),
        decreases y1 + 1 - ny,
    {
        gather_row(src, &mut samples, width, height, x, y, r_sqr, ny, x0, x1, Ghost(sx), Ghost(sy));
        ny = ny + 1;
    }
    samples
}

/// One blur pass over the `width` by `height` RGBA8 image in `buf`.
///
/// With radius 0 the buffer is left alone. Otherwise every pixel gets the
/// colour that `blend` computes from its samples (see [`pixel_samples`]),
/// or keeps its colour where `blend` returns `None`; alpha bytes and bytes
/// past the image are kept, and all samples are taken from the buffer as it
/// was before the pass.
pub fn blur_once<F: Fn(Vec<BlurSample>) -> Option<(u8, u8, u8)>>(
    buf: &mut [u8],
    width: usize,
    height: usize,
    radius: usize,
    blend: &F,
)
    requires
        radius == 0 || (blur_fits(width, height, radius, old(buf)@.len() as int) && forall|
            v: Vec<BlurSample>,
        | call_requires(*blend, (v,))),
    ensures
        radius == 0 ==> final(buf)@ == old(buf)@,
        radius > 0 ==> blur_step(*blend, old(buf)@, final(buf)@, width, height, radius),
        alpha_kept(old(buf)@, final(buf)@, width, height),
{
    if radius == 0 {
        return;
    }
    let len = buf.len();
    let src = vstd::slice::slice_to_vec(buf);
    let ghost s = src@;
    let r_sqr = (radius * radius) as i64;
    let ghost w = width as int;
    let ghost h = height as int;
    let ghost mut outs: Seq<Option<(u8, u8, u8)>> = Seq::empty();
    let mut y: usize = 0;
    while y < height
        invariant
            0 <= y <= height,
            w == width,
            h == height,
            s == src@,
            s.len() == len,
            buf@.len() == len,
            blur_fits(width, height, radius, len as int),
            r_sqr == circle_bound(radius),
            forall|v: Vec<BlurSample>| call_requires(*blend, (v,)),
            outs.len() == y * w,
            buf@ == blur_result(s, outs),
            forall|p: int|
                0 <= p < outs.len() ==> blend_allows(
                    *blend,
                    pixel_samples(s, width, height, radius, p % w, p / w),
                    #[trigger] outs[p],
                ),
        decreases height - y,
    {
        let mut x: usize = 0;
        while x < width
            invariant
                0 <= y < height,
                0 <= x <= width,
                w == width,
                h == height,
                s == src@,
                s.len() == len,
                buf@.len() == len,
                blur_fits(width, height, radius, len as int),
                r_sqr == circle_bound(radius),
                forall|v: Vec<BlurSample>| call_requires(*blend, (v,)),
                outs.len() == y * w + x,
                buf@ == blur_result(s, outs),
                forall|p: int|
                    0 <= p < outs.len() ==> blend_allows(
                        *blend,
                        pixel_samples(s, width, height, radius, p % w, p / w),
                        #[trigger] outs[p],
                    ),
            decreases width - x,
        {
            let samples = gather_samples(&src, width, height, radius, r_sqr, x, y);
            let ghost sv = samples;
            proof {
                lemma_offset_bounds(w, h, x as int, y as int);
                assert(y * width >= 0) by (nonlinear_arith)
                    requires
                        y >= 0,
                        width >= 0,
                ;
            }
            let out = (y * width + x) * 4;
            let res = blend(samples);
            let ghost p: int = outs.len() as int;
            proof {
                vstd::arithmetic::div_mod::lemma_fundamental_div_mod_converse(
                    p,
                    w,
                    y as int,
                    x as int,
                );
                assert(blend_allows(*blend, pixel_samples(s, width, height, radius, p % w, p / w), res));
            }
            match res {
                Some((r, g, b)) => {
                    buf[out] = r;
                    buf[out + 1] = g;
                    buf[out + 2] = b;
                },
                None => {
                    buf[out] = src[out];
                    buf[out + 1] = src[out + 1];
                    buf[out + 2] = src[out + 2];
                },
            }
            buf[out + 3] = src[out + 3];
            proof {
                let old_outs = outs;
                outs = outs.push(res);
                assert forall|i: int| 0 <= i < len implies #[trigger] buf@[i] == blurred_byte(s, outs, i) by {
                    if i < out {
                        assert(i / 4 < p);
                        assert(outs[i / 4] == old_outs[i / 4]);
                        assert(blurred_byte(s, outs, i) == blurred_byte(s, old_outs, i));
                    } else if i < out + 4 {
                        assert(i / 4 == p);
                    }
                }
                assert(buf@ =~= blur_result(s, outs));
                assert forall|q: int| 0 <= q < outs.len() implies blend_allows(
                    *blend,
                    pixel_samples(s, width, height, radius, q % w, q / w),
                    #[trigger] outs[q],
                ) by {
                    if q < p {
                        assert(outs[q] == old_outs[q]);
                    }
                }
            }
            x = x + 1;
        }
        assert(outs.len() == (y + 1) * w) by (nonlinear_arith)
            requires
                outs.len() == y * w + w,
        ;
        y = y + 1;
    }
    assert(outs.len() == width * height) by (nonlinear_arith)
        requires
            outs.len() == h * w,
            w == width,
            h == height,
    ;
    assert(blend_outputs_ok(*blend, s, width, height, radius, outs));
    assert forall|i: int|
        0 <= i < s.len() && (i >= image_bytes(w, h) || chan(i) == 3) implies #[trigger] buf@[i] == s[i] by {
        assert(buf@[i] == blurred_byte(s, outs, i));
    }
}

/// A blur pass keeps the alpha channel, the bytes past the image and the length.
pub proof fn lemma_blur_step_keeps_alpha<F: Fn(Vec<BlurSample>) -> Option<(u8, u8, u8)>>(
    blend: F,
    a: Seq<u8>,
    b: Seq<u8>,
    width: usize,
    height: usize,
    radius: usize,
)
    requires
        blur_step(blend, a, b, width, height, radius),
    ensures
        alpha_kept(a, b, width, height),
{
    let outs = choose|outs: Seq<Option<(u8, u8, u8)>>|
        #[trigger] blend_outputs_ok(blend, a, width, height, radius, outs) && b == blur_result(
            a,
            outs,
        );
    assert forall|i: int|
        0 <= i < a.len() && (i >= image_bytes(width as int, height as int) || chan(i) == 3)
            implies #[trigger] b[i] == a[i] by {
        assert(outs.len() * 4 == image_bytes(width as int, height as int));
        assert(b[i] == blurred_byte(a, outs, i));
    }
}

/// Any number of blur passes keeps the alpha channel, the bytes past the
/// image and the length of the buffer.
pub proof fn lemma_blur_keeps_alpha<F: Fn(Vec<BlurSample>) -> Option<(u8, u8, u8)>>(
    blend: F,
    a: Seq<u8>,
    b: Seq<u8>,
    width: usize,
    height: usize,
    radius: usize,
    n: nat,
)
    requires
        blurred_times(blend, a, b, width, height, radius, n),
    ensures
        alpha_kept(a, b, width, height),
{
    let chain = choose|chain: Seq<Seq<u8>>|
        #[trigger] blur_chain(blend, chain, width, height, radius) && chain.len() == n + 1 && chain[0]
            == a && chain[n as int] == b;
    lemma_chain_keeps_alpha(blend, chain, width, height, radius, n as int);
}

/// The first `k` passes of a blur chain keep the alpha channel.
proof fn lemma_chain_keeps_alpha<F: Fn(Vec<BlurSample>) -> Option<(u8, u8, u8)>>(
    blend: F,
    chain: Seq<Seq<u8>>,
    width: usize,
    height: usize,
    radius: usize,
    k: int,
)
    requires
        0 <= k < chain.len(),
        blur_chain(blend, chain, width, height, radius),
    ensures
        alpha_kept(chain[0], chain[k], width, height),
    decreases k,
{
    if k > 0 {
        lemma_chain_keeps_alpha(blend, chain, width, height, radius, k - 1);
        lemma_blur_step_keeps_alpha(blend, chain[k - 1], chain[k], width, height, radius);
    }
}

/// Whether a blur pass with these dimensions runs without arithmetic
/// overflow on a buffer of `len` bytes (see [`blur_fits`]).
pub fn blur_fits_in(width: usize, height: usize, radius: usize, len: usize) -> (res: bool)
    ensures
        res == blur_fits(width, height, radius, len as int),
{
    assert(usize::MAX <= 0xffff_ffff_ffff_ffff);
    let rr = match radius.checked_mul(radius) {
        Some(v) => v,
        None => return false,
    };
    if height > 0 && radius > usize::MAX - (height - 1) {
        return false;
    }
    if width > 0 && height > 0 {
        if radius > usize::MAX - (width - 1) {
            return false;
        }
        let sx: u128 = if radius <= width - 1 { radius as u128 } else { (width - 1) as u128 };
        let sy: u128 = if radius <= height - 1 { radius as u128 } else { (height - 1) as u128 };
        assert(sx * sx <= 0xffff_ffff_ffff_ffff * 0xffff_ffff_ffff_ffff
            && sy * sy <= 0xffff_ffff_ffff_ffff * 0xffff_ffff_ffff_ffff) by (nonlinear_arith)
            requires
                sx <= 0xffff_ffff_ffff_ffff,
                sy <= 0xffff_ffff_ffff_ffff,
        ;
        let sxx = sx * sx;
        let syy = sy * sy;
        match sxx.checked_add(syy) {
            Some(total) => {
                if total > 0x7fff_ffff_ffff_ffff {
                    return false;
                }
            },
            None => return false,
        }
    }
    let pixels = match width.checked_mul(height) {
        Some(v) => v,
        None => {
            assert(image_bytes(width as int, height as int) > len) by (nonlinear_arith)
                requires
                    width * height > usize::MAX,
                    len <= usize::MAX,
            ;
            return false;
        },
    };
    match pixels.checked_mul(4) {
        Some(bytes) => bytes <= len,
        None => false,
    }
}

/// Blurs the `width` by `height` RGBA8 image in `buf` `iterations` times
/// with [`blur_once`]; a radius of 0 leaves the buffer as it is.
pub fn apply_blur<F: Fn(Vec<BlurSample>) -> Option<(u8, u8, u8)>>(
    buf: &mut [u8],
    width: usize,
    height: usize,
    radius: usize,
    iterations: u32,
    blend: &F,
)
    requires
        radius == 0 || iterations == 0 || (blur_fits(width, height, radius, old(buf)@.len() as int)
            && forall|v: Vec<BlurSample>| call_requires(*blend, (v,))),
    ensures
        radius == 0 ==> final(buf)@ == old(buf)@,
        radius > 0 ==> blurred_times(
            *blend,
            old(buf)@,
            final(buf)@,
            width,
            height,
            radius,
            iterations as nat,
        ),
        alpha_kept(old(buf)@, final(buf)@, width, height),
{
    let ghost s = buf@;
    if radius == 0 {
        return;
    }
    let ghost mut chain: Seq<Seq<u8>> = seq![s];
    let mut k: u32 = 0;
    while k < iterations
        invariant
            0 <= k <= iterations,
            radius > 0,
            buf@.len() == s.len(),
            iterations > 0 ==> (blur_fits(width, height, radius, s.len() as int) && forall|
                v: Vec<BlurSample>,
            | call_requires(*blend, (v,))),
            chain.len() == k + 1,
            chain[0] == s,
            chain[k as int] == buf@,
            blur_chain(*blend, chain, width, height, radius),
        decreases iterations - k,
    {
        let ghost prev = buf@;
        blur_once(buf, width, height, radius, blend);
        proof {
            let old_chain = chain;
            chain = chain.push(buf@);
            assert forall|j: int| 0 <= j < chain.len() - 1 implies blur_step(
                *blend,
                #[trigger] chain[j],
                chain[j + 1],
                width,
                height,
                radius,
            ) by {
                if j < k {
                    assert(chain[j] == old_chain[j] && chain[j + 1] == old_chain[j + 1]);
                }
            }
        }
        k = k + 1;
    }
    assert(blur_chain(*blend, chain, width, height, radius));
    proof {
        lemma_blur_keeps_alpha(*blend, s, buf@, width, height, radius, iterations as nat);
    }
}

/// What the blur plugin requires of a buffer it is handed for these parameters.
pub open spec fn blur_input_ok<F: Fn(Vec<BlurSample>) -> Option<(u8, u8, u8)>>(
    width: u32,
    height: u32,
    len: int,
    params: BlurParams,
    blend: F,
) -> bool {
    (params.iterations > 0 && rgba_len_result(width, height) is Ok) ==> {
        &&& len == image_bytes(width as int, height as int)
        &&& params.radius == 0 || (blur_fits(
            width as usize,
            height as usize,
            params.radius as usize,
            len,
        ) && forall|v: Vec<BlurSample>| call_requires(blend, (v,)))
    }
}

/// Applies the blur plugin to a `width` by `height` RGBA8 image: refuses
/// zero iterations and images whose buffer size does not fit or is empty,
/// then blurs `params.iterations` times with radius `params.radius`. On
/// error the buffer is left as it was.
pub fn process_image<F: Fn(Vec<BlurSample>) -> Option<(u8, u8, u8)>>(
    width: u32,
    height: u32,
    rgba_data: &mut [u8],
    params: &BlurParams,
    blend: &F,
) -> (res: Result<(), PluginError>)
    requires
        blur_input_ok(width, height, old(rgba_data)@.len() as int, *params, *blend),
    ensures
        params.iterations == 0 ==> res == Err::<(), PluginError>(PluginError::ZeroIterations)
            && final(rgba_data)@ == old(rgba_data)@,
        params.iterations > 0 ==> match rgba_len_result(width, height) {
            Err(e) => res == Err::<(), PluginError>(e) && final(rgba_data)@ == old(rgba_data)@,
            Ok(_) => {
                &&& res == Ok::<(), PluginError>(())
                &&& params.radius == 0 ==> final(rgba_data)@ == old(rgba_data)@
                &&& params.radius > 0 ==> blurred_times(
                    *blend,
                    old(rgba_data)@,
                    final(rgba_data)@,
                    width as usize,
                    height as usize,
                    params.radius as usize,
                    params.iterations as nat,
                )
                &&& alpha_kept(old(rgba_data)@, final(rgba_data)@, width as usize, height as usize)
            },
        },
        params.iterations > 0 && 0 < width * height * 4 <= usize::MAX ==> res is Ok,
        params.iterations > 0 ==> (res == Err::<(), PluginError>(PluginError::EmptyBuffer) <==> (
        width == 0 || height == 0)),
{
    proof {
        crate::rgba::lemma_rgba_len_result(width, height);
    }
    if params.iterations == 0 {
        return Err(PluginError::ZeroIterations);
    }
    match rgba_len(width, height) {
        Ok(_) => {},
        Err(e) => return Err(e),
    }
    apply_blur(
        rgba_data,
        width as usize,
        height as usize,
        params.radius as usize,
        params.iterations,
        blend,
    );
    Ok(())
}

} // verus!
