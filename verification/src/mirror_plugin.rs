//! The mirror plugin: flips an RGBA8 image left-to-right and/or top-to-bottom, in place.
use vstd::prelude::*;
use crate::rgba::{
    chan, col, row, pixel_offset, image_bytes, lemma_offset_coords, lemma_offset_bounds,
    lemma_decompose, PluginError, rgba_len, rgba_len_result,
};

verus! {

/// Parameters of the mirror plugin (`{"horizontal": bool, "vertical": bool}`).
#[derive(Debug, Clone, Copy, PartialEq, Eq, Structural)]
pub struct MirrorParams {
    /// Flip each row left-to-right.
    pub horizontal: bool,
    /// Flip each column top-to-bottom.
    pub vertical: bool,
}

/// The byte whose value ends up at byte `i` after a horizontal flip.
pub open spec fn mirror_h_source(width: int, height: int, i: int) -> int {
    if 0 <= i < image_bytes(width, height) {
        pixel_offset(width, width - 1 - col(width, i), row(width, i)) + chan(i)
    } else {
        i
    }
}

/// The byte whose value ends up at byte `i` after a vertical flip.
pub open spec fn mirror_v_source(width: int, height: int, i: int) -> int {
    if 0 <= i < image_bytes(width, height) {
        pixel_offset(width, col(width, i), height - 1 - row(width, i)) + chan(i)
    } else {
        i
    }
}

/// The buffer `s` with every row of the `width` by `height` image reversed.
pub open spec fn mirrored_horizontally(s: Seq<u8>, width: int, height: int) -> Seq<u8> {
    Seq::new(s.len(), |i: int| s[mirror_h_source(width, height, i)])
}

/// The buffer `s` with every column of the `width` by `height` image reversed.
pub open spec fn mirrored_vertically(s: Seq<u8>, width: int, height: int) -> Seq<u8> {
    Seq::new(s.len(), |i: int| s[mirror_v_source(width, height, i)])
}

/// The buffer `s` with the image turned by half a turn.
pub open spec fn half_turned(s: Seq<u8>, width: int, height: int) -> Seq<u8> {
    Seq::new(
        s.len(),
        |i: int|
            if 0 <= i < image_bytes(width, height) {
                s[pixel_offset(width, width - 1 - col(width, i), height - 1 - row(width, i))
                    + chan(i)]
            } else {
                s[i]
            },
    )
}

/// What the mirror plugin makes of the buffer `s` with parameters `params`:
/// the horizontal flip first, then the vertical one.
pub open spec fn mirrored(s: Seq<u8>, width: int, height: int, params: MirrorParams) -> Seq<u8> {
    let s1 = if params.horizontal {
        mirrored_horizontally(s, width, height)
    } else {
        s
    };
    if params.vertical {
        mirrored_vertically(s1, width, height)
    } else {
        s1
    }
}

/// The byte whose value ends up at byte `i` after the four bytes at `a` and
/// the four bytes at `b` are exchanged, channel by channel.
pub open spec fn pixel_swap_source(a: int, b: int, i: int) -> int {
    if a <= i < a + 4 {
        i - a + b
    } else if b <= i < b + 4 {
        i - b + a
    } else {
        i
    }
}

/// Exchanges the pixel at byte offset `a` with the pixel at byte offset `b`.
fn swap_pixels(buf: &mut [u8], a: usize, b: usize)
    requires
        a + 4 <= b,
        b + 4 <= old(buf)@.len(),
    ensures
        final(buf)@ == Seq::new(old(buf)@.len(), |i: int| old(buf)@[pixel_swap_source(a as int, b as int, i)]),
{
    let ghost s = buf@;
    let mut c: usize = 0;
    while c < 4
        invariant
            0 <= c <= 4,
            a + 4 <= b,
            b + 4 <= s.len(),
            buf@.len() == s.len(),
            forall|i: int|
                0 <= i < s.len() ==> #[trigger] buf@[i] == s[
                    if a <= i < a + c {
                        i - a + b
                    } else if b <= i < b + c {
                        i - b + a
                    } else {
                        i
                    }
                ],
        decreases 4 - c,
    {
        let t = buf[a + c];
        let u = buf[b + c];
        buf[a + c] = u;
        buf[b + c] = t;
        c = c + 1;
    }
    assert(buf@ =~= Seq::new(s.len(), |i: int| s[pixel_swap_source(a as int, b as int, i)]));
}

/// Whether byte `i` has already been moved by the horizontal flip after
/// the rows above `y`, and the outer `x` columns at each end of row `y`, are done.
spec fn h_done(width: int, height: int, y: int, x: int, i: int) -> bool {
    &&& 0 <= i < image_bytes(width, height)
    &&& (row(width, i) < y || (row(width, i) == y && (col(width, i) < x || (x > 0 && col(width, i)
        >= width - x))))
}

/// Whether byte `i` has already been moved by the vertical flip after
/// the columns left of `x`, and the outer `y` rows at each end of column `x`, are done.
spec fn v_done(width: int, height: int, x: int, y: int, i: int) -> bool {
    &&& 0 <= i < image_bytes(width, height)
    &&& (col(width, i) < x || (col(width, i) == x && (row(width, i) < y || (y > 0 && row(width, i)
        >= height - y))))
}

/// Flips the image left-to-right in place: each row of pixels is reversed.
pub fn mirror_horizontal(buf: &mut [u8], width: usize, height: usize)
    requires
        width < 2 || height == 0 || image_bytes(width as int, height as int) <= old(buf)@.len(),
    ensures
        final(buf)@ == mirrored_horizontally(old(buf)@, width as int, height as int),
{
    let len = buf.len();
    let ghost s = buf@;
    let ghost w = width as int;
    let ghost h = height as int;
    let mut y: usize = 0;
    while y < height
        invariant
            0 <= y <= height,
            w == width,
            h == height,
            buf@.len() == s.len(),
            s.len() == len,
            width < 2 || height == 0 || image_bytes(w, h) <= s.len(),
            forall|i: int|
                0 <= i < s.len() ==> #[trigger] buf@[i] == (if h_done(w, h, y as int, 0, i) {
                    s[mirror_h_source(w, h, i)]
                } else {
                    s[i]
                }),
        decreases height - y,
    {
        let mut x: usize = 0;
        while x < width / 2
            invariant
                0 <= y < height,
                0 <= x <= width / 2,
                w == width,
                h == height,
                buf@.len() == s.len(),
                s.len() == len,
                width < 2 || height == 0 || image_bytes(w, h) <= s.len(),
                forall|i: int|
                    0 <= i < s.len() ==> #[trigger] buf@[i] == (if h_done(w, h, y as int, x as int, i) {
                        s[mirror_h_source(w, h, i)]
                    } else {
                        s[i]
                    }),
            decreases width / 2 - x,
        {
            let ghost xr = w - 1 - x;
            proof {
                lemma_offset_bounds(w, h, x as int, y as int);
                lemma_offset_bounds(w, h, xr, y as int);
                assert(y * w >= 0) by (nonlinear_arith)
                    requires
                        y >= 0,
                        w >= 0,
                ;
            }
            let left = (y * width + x) * 4;
            let right = (y * width + (width - x - 1)) * 4;
            assert(left == pixel_offset(w, x as int, y as int));
            assert(right == pixel_offset(w, xr, y as int));
            let ghost prev = buf@;
            swap_pixels(buf, left, right);
            proof {
                assert forall|i: int| 0 <= i < s.len() implies #[trigger] buf@[i] == (if h_done(
                    w,
                    h,
                    y as int,
                    x + 1,
                    i,
                ) {
                    s[mirror_h_source(w, h, i)]
                } else {
                    s[i]
                }) by {
                    if left <= i < left + 4 {
                        lemma_offset_coords(w, x as int, y as int, i - left);
                        lemma_offset_coords(w, xr, y as int, i - left);
                        assert(buf@[i] == prev[right + (i - left)]);
                    } else if right <= i < right + 4 {
                        lemma_offset_coords(w, xr, y as int, i - right);
                        lemma_offset_coords(w, x as int, y as int, i - right);
                        assert(buf@[i] == prev[left + (i - right)]);
                    } else {
                        assert(buf@[i] == prev[i]);
                        if 0 <= i < image_bytes(w, h) {
                            lemma_decompose(w, h, i);
                            if row(w, i) == y && col(w, i) == x {
                                assert(i == left + chan(i));
                            }
                            if row(w, i) == y && col(w, i) == xr {
                                assert(i == right + chan(i));
                            }
                        }
                    }
                }
            }
            x = x + 1;
        }
        proof {
            assert forall|i: int| 0 <= i < s.len() implies #[trigger] buf@[i] == (if h_done(
                w,
                h,
                y + 1,
                0,
                i,
            ) {
                s[mirror_h_source(w, h, i)]
            } else {
                s[i]
            }) by {
                if 0 <= i < image_bytes(w, h) && row(w, i) == y {
                    lemma_decompose(w, h, i);
                    if !h_done(w, h, y as int, x as int, i) {
                        assert(col(w, i) == w - 1 - col(w, i));
                    }
                }
            }
        }
        y = y + 1;
    }
    proof {
        assert forall|i: int| 0 <= i < s.len() implies #[trigger] buf@[i] == s[mirror_h_source(
            w,
            h,
            i,
        )] by {
            if 0 <= i < image_bytes(w, h) {
                lemma_decompose(w, h, i);
            }
        }
    }
    assert(buf@ =~= mirrored_horizontally(s, w, h));
}

/// Flips the image top-to-bottom in place: each column of pixels is reversed.
pub fn mirror_vertical(buf: &mut [u8], width: usize, height: usize)
    requires
        width == 0 || height < 2 || image_bytes(width as int, height as int) <= old(buf)@.len(),
    ensures
        final(buf)@ == mirrored_vertically(old(buf)@, width as int, height as int),
{
    let len = buf.len();
    let ghost s = buf@;
    let ghost w = width as int;
    let ghost h = height as int;
    let mut x: usize = 0;
    while x < width
        invariant
            0 <= x <= width,
            w == width,
            h == height,
            buf@.len() == s.len(),
            s.len() == len,
            width == 0 || height < 2 || image_bytes(w, h) <= s.len(),
            forall|i: int|
                0 <= i < s.len() ==> #[trigger] buf@[i] == (if v_done(w, h, x as int, 0, i) {
                    s[mirror_v_source(w, h, i)]
                } else {
                    s[i]
                }),
        decreases width - x,
    {
        let mut y: usize = 0;
        while y < height / 2
            invariant
                0 <= x < width,
                0 <= y <= height / 2,
                w == width,
                h == height,
                buf@.len() == s.len(),
                s.len() == len,
                width == 0 || height < 2 || image_bytes(w, h) <= s.len(),
                forall|i: int|
                    0 <= i < s.len() ==> #[trigger] buf@[i] == (if v_done(w, h, x as int, y as int, i) {
                        s[mirror_v_source(w, h, i)]
                    } else {
                        s[i]
                    }),
            decreases height / 2 - y,
        {
            let ghost yb = h - 1 - y;
            proof {
                lemma_offset_bounds(w, h, x as int, y as int);
                lemma_offset_bounds(w, h, x as int, yb);
                assert(y * w >= 0 && (y * w + x + 1) <= yb * w + x) by (nonlinear_arith)
                    requires
                        y >= 0,
                        w > x >= 0,
                        y + 1 <= yb,
                ;
            }
            let top = (y * width + x) * 4;
            let bot = ((height - y - 1) * width + x) * 4;
            assert(top == pixel_offset(w, x as int, y as int));
            assert(bot == pixel_offset(w, x as int, yb));
            let ghost prev = buf@;
            swap_pixels(buf, top, bot);
            proof {
                assert forall|i: int| 0 <= i < s.len() implies #[trigger] buf@[i] == (if v_done(
                    w,
                    h,
                    x as int,
                    y + 1,
                    i,
                ) {
                    s[mirror_v_source(w, h, i)]
                } else {
                    s[i]
                }) by {
                    if top <= i < top + 4 {
                        lemma_offset_coords(w, x as int, y as int, i - top);
                        lemma_offset_coords(w, x as int, yb, i - top);
                        assert(buf@[i] == prev[bot + (i - top)]);
                    } else if bot <= i < bot + 4 {
                        lemma_offset_coords(w, x as int, yb, i - bot);
                        lemma_offset_coords(w, x as int, y as int, i - bot);
                        assert(buf@[i] == prev[top + (i - bot)]);
                    } else {
                        assert(buf@[i] == prev[i]);
                        if 0 <= i < image_bytes(w, h) {
                            lemma_decompose(w, h, i);
                            if col(w, i) == x && row(w, i) == y {
                                assert(i == top + chan(i));
                            }
                            if col(w, i) == x && row(w, i) == yb {
                                assert(i == bot + chan(i));
                            }
                        }
                    }
                }
            }
            y = y + 1;
        }
        proof {
            assert forall|i: int| 0 <= i < s.len() implies #[trigger] buf@[i] == (if v_done(
                w,
                h,
                x + 1,
                0,
                i,
            ) {
                s[mirror_v_source(w, h, i)]
            } else {
                s[i]
            }) by {
                if 0 <= i < image_bytes(w, h) && col(w, i) == x {
                    lemma_decompose(w, h, i);
                    if !v_done(w, h, x as int, y as int, i) {
                        assert(row(w, i) == h - 1 - row(w, i));
                    }
                }
            }
        }
        x = x + 1;
    }
    proof {
        assert forall|i: int| 0 <= i < s.len() implies #[trigger] buf@[i] == s[mirror_v_source(
            w,
            h,
            i,
        )] by {
            if 0 <= i < image_bytes(w, h) {
                lemma_decompose(w, h, i);
            }
        }
    }
    assert(buf@ =~= mirrored_vertically(s, w, h));
}

/// Applies the mirror plugin to a `width` by `height` RGBA8 image: checks
/// that the image has a buffer size that fits in memory and is not empty,
/// then flips it horizontally and/or vertically as `params` ask. On error the
/// buffer is left as it was.
pub fn process_image(
    width: u32,
    height: u32,
    rgba_data: &mut [u8],
    params: &MirrorParams,
) -> (res: Result<(), PluginError>)
    requires
        rgba_len_result(width, height) is Ok ==> old(rgba_data)@.len() == image_bytes(
            width as int,
            height as int,
        ),
    ensures
        match rgba_len_result(width, height) {
            Ok(_) => {
                &&& res == Ok::<(), PluginError>(())
                &&& final(rgba_data)@ == mirrored(old(rgba_data)@, width as int, height as int, *params)
                &&& (params.horizontal && params.vertical) ==> final(rgba_data)@
                    == mirrored_vertically(
                    mirrored_horizontally(old(rgba_data)@, width as int, height as int),
                    width as int,
                    height as int,
                )
                &&& (params.horizontal && !params.vertical) ==> final(rgba_data)@
                    == mirrored_horizontally(old(rgba_data)@, width as int, height as int)
                &&& (!params.horizontal && params.vertical) ==> final(rgba_data)@
                    == mirrored_vertically(old(rgba_data)@, width as int, height as int)
                &&& (!params.horizontal && !params.vertical) ==> final(rgba_data)@ == old(
                    rgba_data,
                )@
            },
            Err(e) => res == Err::<(), PluginError>(e) && final(rgba_data)@ == old(rgba_data)@,
        },
        0 < width * height * 4 <= usize::MAX ==> res is Ok,
        res == Err::<(), PluginError>(PluginError::EmptyBuffer) <==> (width == 0 || height == 0),
{
    proof {
        crate::rgba::lemma_rgba_len_result(width, height);
    }
    match rgba_len(width, height) {
        Ok(_) => {},
        Err(e) => return Err(e),
    }
    let ghost s0 = rgba_data@;
    if params.horizontal {
        mirror_horizontal(rgba_data, width as usize, height as usize);
    }
    if params.vertical {
        mirror_vertical(rgba_data, width as usize, height as usize);
    }
    proof {
        lemma_mirrored_flags(s0, width as usize, height as usize, *params);
    }
    Ok(())
}

/// On an image narrower than two pixels, or with no rows, the horizontal flip changes nothing.
proof fn lemma_mirror_horizontal_narrow(s: Seq<u8>, width: usize, height: usize)
    requires
        width < 2 || height == 0,
    ensures
        mirrored_horizontally(s, width as int, height as int) == s,
{
    let w = width as int;
    let h = height as int;
    assert forall|i: int| 0 <= i < s.len() implies #[trigger] mirrored_horizontally(s, w, h)[i] == s[i] by {
        if i < image_bytes(w, h) {
            lemma_decompose(w, h, i);
        }
    }
    assert(mirrored_horizontally(s, w, h) =~= s);
}

/// On an image lower than two pixels, or with no columns, the vertical flip changes nothing.
proof fn lemma_mirror_vertical_flat(s: Seq<u8>, width: usize, height: usize)
    requires
        width == 0 || height < 2,
    ensures
        mirrored_vertically(s, width as int, height as int) == s,
{
    let w = width as int;
    let h = height as int;
    assert forall|i: int| 0 <= i < s.len() implies #[trigger] mirrored_vertically(s, w, h)[i] == s[i] by {
        if i < image_bytes(w, h) {
            lemma_decompose(w, h, i);
        }
    }
    assert(mirrored_vertically(s, w, h) =~= s);
}

/// Flipping an image left-to-right twice gives back the buffer it started from.
pub proof fn lemma_mirror_horizontal_twice(s: Seq<u8>, width: usize, height: usize)
    requires
        width < 2 || height == 0 || image_bytes(width as int, height as int) <= s.len(),
    ensures
        mirrored_horizontally(mirrored_horizontally(s, width as int, height as int), width as int, height as int) == s,
{
    let w = width as int;
    let h = height as int;
    if width < 2 || height == 0 {
        lemma_mirror_horizontal_narrow(s, width, height);
        return;
    }
    let m = mirrored_horizontally(s, w, h);
    assert forall|i: int| 0 <= i < s.len() implies #[trigger] mirrored_horizontally(m, w, h)[i] == s[i] by {
        if i < image_bytes(w, h) {
            lemma_decompose(w, h, i);
            let x = col(w, i);
            let y = row(w, i);
            lemma_offset_coords(w, w - 1 - x, y, chan(i));
            lemma_offset_bounds(w, h, w - 1 - x, y);
        }
    }
    assert(mirrored_horizontally(m, w, h) =~= s);
}

/// Flipping an image top-to-bottom twice gives back the buffer it started from.
pub proof fn lemma_mirror_vertical_twice(s: Seq<u8>, width: usize, height: usize)
    requires
        width == 0 || height < 2 || image_bytes(width as int, height as int) <= s.len(),
    ensures
        mirrored_vertically(mirrored_vertically(s, width as int, height as int), width as int, height as int) == s,
{
    let w = width as int;
    let h = height as int;
    if width == 0 || height < 2 {
        lemma_mirror_vertical_flat(s, width, height);
        return;
    }
    let m = mirrored_vertically(s, w, h);
    assert forall|i: int| 0 <= i < s.len() implies #[trigger] mirrored_vertically(m, w, h)[i] == s[i] by {
        if i < image_bytes(w, h) {
            lemma_decompose(w, h, i);
            let x = col(w, i);
            let y = row(w, i);
            lemma_offset_coords(w, x, h - 1 - y, chan(i));
            lemma_offset_bounds(w, h, x, h - 1 - y);
        }
    }
    assert(mirrored_vertically(m, w, h) =~= s);
}

/// The two flips commute, and together they turn the image by half a turn:
/// the pixel at column `x`, row `y` ends up at column `width - 1 - x`, row `height - 1 - y`.
pub proof fn lemma_mirror_both_is_half_turn(s: Seq<u8>, width: usize, height: usize)
    requires
        width < 2 || height == 0 || image_bytes(width as int, height as int) <= s.len(),
        width == 0 || height < 2 || image_bytes(width as int, height as int) <= s.len(),
    ensures
        mirrored_vertically(mirrored_horizontally(s, width as int, height as int), width as int, height as int)
            == half_turned(s, width as int, height as int),
        mirrored_horizontally(mirrored_vertically(s, width as int, height as int), width as int, height as int)
            == half_turned(s, width as int, height as int),
{
    let w = width as int;
    let h = height as int;
    let mh = mirrored_horizontally(s, w, h);
    let mv = mirrored_vertically(s, w, h);
    let t = half_turned(s, w, h);
    if image_bytes(w, h) > s.len() {
        // then the image is a single pixel, which neither flip moves
        assert(w == 1 && h == 1) by (nonlinear_arith)
            requires
                w < 2 || h == 0 || w * h * 4 <= s.len(),
                w == 0 || h < 2 || w * h * 4 <= s.len(),
                w * h * 4 > s.len(),
                w >= 0,
                h >= 0,
        ;
        lemma_mirror_horizontal_narrow(s, width, height);
        lemma_mirror_vertical_flat(s, width, height);
        lemma_mirror_horizontal_narrow(mv, width, height);
        lemma_mirror_vertical_flat(mh, width, height);
        assert forall|i: int| 0 <= i < s.len() implies #[trigger] t[i] == s[i] by {
            if i < image_bytes(w, h) {
                lemma_decompose(w, h, i);
            }
        }
        assert(t =~= s);
        return;
    }
    assert forall|i: int| 0 <= i < s.len() implies #[trigger] mirrored_vertically(mh, w, h)[i] == t[i]
        && mirrored_horizontally(mv, w, h)[i] == t[i] by {
        if i < image_bytes(w, h) {
            lemma_decompose(w, h, i);
            let x = col(w, i);
            let y = row(w, i);
            lemma_offset_coords(w, x, h - 1 - y, chan(i));
            lemma_offset_bounds(w, h, x, h - 1 - y);
            lemma_offset_coords(w, w - 1 - x, y, chan(i));
            lemma_offset_bounds(w, h, w - 1 - x, y);
        }
    }
    assert(mirrored_vertically(mh, w, h) =~= t);
    assert(mirrored_horizontally(mv, w, h) =~= t);
}

/// The plugin's two flags act independently: asking for the vertical flip
/// flips vertically whatever the horizontal flag gave, and asking for the
/// horizontal flip flips horizontally whatever the vertical flag gives
/// (the flips commute). No flag leaves the buffer as it is.
pub proof fn lemma_mirrored_flags(s: Seq<u8>, width: usize, height: usize, params: MirrorParams)
    ensures
        mirrored(s, width as int, height as int, MirrorParams { horizontal: false, vertical: false }) == s,
        mirrored(s, width as int, height as int, MirrorParams { horizontal: true, vertical: false })
            == mirrored_horizontally(s, width as int, height as int),
        mirrored(s, width as int, height as int, MirrorParams { horizontal: false, vertical: true })
            == mirrored_vertically(s, width as int, height as int),
        mirrored(s, width as int, height as int, MirrorParams { horizontal: params.horizontal, vertical: true })
            == mirrored_vertically(
            mirrored(s, width as int, height as int, MirrorParams { horizontal: params.horizontal, vertical: false }),
            width as int,
            height as int,
        ),
        mirrored(s, width as int, height as int, MirrorParams { horizontal: true, vertical: params.vertical })
            == mirrored(
            mirrored_horizontally(s, width as int, height as int),
            width as int,
            height as int,
            MirrorParams { horizontal: false, vertical: params.vertical },
        ),
        params.horizontal && params.vertical ==> mirrored(s, width as int, height as int, params)
            == mirrored_vertically(mirrored_horizontally(s, width as int, height as int), width as int, height as int),
        params.horizontal && !params.vertical ==> mirrored(s, width as int, height as int, params)
            == mirrored_horizontally(s, width as int, height as int),
        !params.horizontal && params.vertical ==> mirrored(s, width as int, height as int, params)
            == mirrored_vertically(s, width as int, height as int),
        !params.horizontal && !params.vertical ==> mirrored(s, width as int, height as int, params) == s,
{
}

/// With both flags set the plugin turns the image by half a turn, and the
/// horizontal flag flips horizontally whatever the vertical flag gives.
pub proof fn lemma_mirrored_horizontal_flag(s: Seq<u8>, width: usize, height: usize, vertical: bool)
    requires
        width < 2 || height == 0 || image_bytes(width as int, height as int) <= s.len(),
        width == 0 || height < 2 || image_bytes(width as int, height as int) <= s.len(),
    ensures
        mirrored(s, width as int, height as int, MirrorParams { horizontal: true, vertical })
            == mirrored_horizontally(
            mirrored(s, width as int, height as int, MirrorParams { horizontal: false, vertical }),
            width as int,
            height as int,
        ),
        mirrored(s, width as int, height as int, MirrorParams { horizontal: true, vertical: true })
            == half_turned(s, width as int, height as int),
{
    lemma_mirror_both_is_half_turn(s, width, height);
}

} // verus!
