//! Verified operations on raw RGBA8 pixel buffers.
//!
//! A buffer holds `4 * width * height` bytes, row-major, one pixel as four
//! bytes `r, g, b, a`. Every function here states its result exactly.

use vstd::prelude::*;

verus! {

/// True when some pixel's alpha byte is below full opacity.
pub open spec fn spec_has_translucent(data: Seq<u8>) -> bool {
    exists|k: int| 0 <= k && 4 * k + 3 < data.len() && #[trigger] data[4 * k + 3] != 255
}

/// Scans the whole buffer for a pixel whose alpha is below 255.
pub fn has_translucent(data: &Vec<u8>) -> (r: bool)
    ensures
        r == spec_has_translucent(data@),
{
    let n = data.len();
    let mut k: usize = 0;
    let mut found = false;
    while k < n / 4
        invariant
            0 <= k <= n / 4,
            n == data@.len(),
            found == exists|j: int| 0 <= j < k && 4 * j + 3 < n && #[trigger] data@[4 * j + 3]
                != 255,
        decreases n / 4 - k,
    {
        proof {
            assert(4 * k + 3 < n) by (nonlinear_arith)
                requires 0 <= k < n / 4;
        }
        if data[4 * k + 3] != 255 {
            found = true;
        }
        k += 1;
    }
    proof {
        if !found {
            assert forall|j: int| 0 <= j && 4 * j + 3 < n implies #[trigger] data@[4 * j + 3]
                == 255 by {
                assert(j < n / 4) by (nonlinear_arith)
                    requires 4 * j + 3 < n, 0 <= j;
            }
        }
    }
    found
}

/// The four bytes of pixel `(x, y)` in a `w`-wide buffer.
pub open spec fn spec_pixel(data: Seq<u8>, w: int, x: int, y: int) -> Seq<u8> {
    data.subrange(4 * (y * w + x), 4 * (y * w + x) + 4)
}

/// One cropped row: the bytes of pixels `(x .. x + cw)` of row `y + j`.
pub open spec fn spec_crop_row(data: Seq<u8>, w: int, x: int, y: int, cw: int, j: int) -> Seq<
    u8,
> {
    data.subrange(4 * ((y + j) * w + x), 4 * ((y + j) * w + x) + 4 * cw)
}

/// The first `rows` rows of the crop of a `w`-wide buffer at `(x, y)`,
/// `cw` pixels wide, concatenated.
pub open spec fn spec_cropped(
    data: Seq<u8>,
    w: int,
    x: int,
    y: int,
    cw: int,
    rows: int,
) -> Seq<u8>
    decreases rows,
{
    if rows <= 0 {
        Seq::empty()
    } else {
        spec_cropped(data, w, x, y, cw, rows - 1) + spec_crop_row(data, w, x, y, cw, rows - 1)
    }
}

/// A crop row that lies inside the buffer has `4 * cw` bytes.
proof fn lemma_crop_row_len(data: Seq<u8>, w: int, h: int, x: int, y: int, cw: int, j: int)
    requires
        data.len() == 4 * w * h,
        0 <= x,
        0 <= cw,
        x + cw <= w,
        0 <= y + j,
        y + j < h,
    ensures
        spec_crop_row(data, w, x, y, cw, j).len() == 4 * cw,
        0 <= 4 * ((y + j) * w + x),
        4 * ((y + j) * w + x) + 4 * cw <= data.len(),
{
    assert(0 <= 4 * ((y + j) * w + x) && 4 * ((y + j) * w + x) + 4 * cw <= 4 * w * h)
        by (nonlinear_arith)
        requires 0 <= x, 0 <= cw, x + cw <= w, 0 <= y + j, y + j < h;
}

/// The concatenation of `rows` in-bounds crop rows has `4 * cw * rows` bytes.
proof fn lemma_cropped_len(data: Seq<u8>, w: int, h: int, x: int, y: int, cw: int, rows: int)
    requires
        data.len() == 4 * w * h,
        0 <= x,
        0 <= cw,
        x + cw <= w,
        0 <= y,
        0 <= rows,
        y + rows <= h,
    ensures
        spec_cropped(data, w, x, y, cw, rows).len() == 4 * cw * rows,
    decreases rows,
{
    if rows > 0 {
        lemma_cropped_len(data, w, h, x, y, cw, rows - 1);
        lemma_crop_row_len(data, w, h, x, y, cw, rows - 1);
        assert(spec_cropped(data, w, x, y, cw, rows).len() == 4 * cw * (rows - 1) + 4 * cw);
        assert(4 * cw * (rows - 1) + 4 * cw == 4 * cw * rows) by (nonlinear_arith);
    } else {
        assert(rows == 0);
        assert(4 * cw * 0 == 0) by (nonlinear_arith);
    }
}

/// Extracts the rectangle at `(x, y)` of size `cw` by `ch` from a `w` by `h`
/// buffer, row by row.
pub fn crop_pixels(data: &Vec<u8>, w: u32, h: u32, x: u32, y: u32, cw: u32, ch: u32) -> (r: Vec<
    u8,
>)
    requires
        data@.len() == 4 * w * h,
        1 <= cw,
        1 <= ch,
        x + cw <= w,
        y + ch <= h,
    ensures
        r@ == spec_cropped(data@, w as int, x as int, y as int, cw as int, ch as int),
        r@.len() == 4 * cw * ch,
{
    proof {
        lemma_cropped_len(data@, w as int, h as int, x as int, y as int, cw as int, ch as int);
    }
    let n = data.len();
    let mut out: Vec<u8> = Vec::new();
    let mut j: u32 = 0;
    while j < ch
        invariant
            data@.len() == 4 * w * h,
            n == data@.len(),
            1 <= cw,
            1 <= ch,
            x + cw <= w,
            y + ch <= h,
            0 <= j <= ch,
            out@ == spec_cropped(data@, w as int, x as int, y as int, cw as int, j as int),
        decreases ch - j,
    {
        proof {
            lemma_crop_row_len(data@, w as int, h as int, x as int, y as int, cw as int, j as int);
        }
        let row_base: usize = 4 * ((y as usize + j as usize) * (w as usize) + x as usize);
        let row_len: usize = 4 * (cw as usize);
        let mut t: usize = 0;
        while t < row_len
            invariant
                data@.len() == 4 * w * h,
                n == data@.len(),
                row_len == 4 * cw,
                row_base == 4 * ((y + j) * w + x),
                row_base + row_len <= n,
                0 <= t <= row_len,
                out@ == spec_cropped(data@, w as int, x as int, y as int, cw as int, j as int)
                    + data@.subrange(row_base as int, row_base + t),
            decreases row_len - t,
        {
            out.push(data[row_base + t]);
            proof {
                assert(data@.subrange(row_base as int, row_base + t + 1)
                    =~= data@.subrange(row_base as int, row_base + t)
                        + seq![data@[row_base + t]]);
                assert(out@ =~= spec_cropped(data@, w as int, x as int, y as int, cw as int, j as int)
                    + data@.subrange(row_base as int, row_base + t + 1));
            }
            t += 1;
        }
        proof {
            assert(out@ =~= spec_cropped(
                data@, w as int, x as int, y as int, cw as int, j as int + 1,
            ));
        }
        j += 1;
    }
    out
}

/// A full crop is the identity: the first `rows` rows of the crop at the
/// origin with the buffer's own width are the buffer's first bytes.
proof fn lemma_full_crop_prefix(data: Seq<u8>, w: int, h: int, rows: int)
    requires
        data.len() == 4 * w * h,
        0 <= w,
        0 <= rows <= h,
    ensures
        spec_cropped(data, w, 0, 0, w, rows) == data.subrange(0, 4 * w * rows),
    decreases rows,
{
    assert(0 <= 4 * w * rows <= 4 * w * h) by (nonlinear_arith)
        requires 0 <= w, 0 <= rows <= h;
    if rows > 0 {
        lemma_full_crop_prefix(data, w, h, rows - 1);
        assert(0 <= 4 * w * (rows - 1) && 4 * ((rows - 1) * w) == 4 * w * (rows - 1)
            && 4 * ((rows - 1) * w) + 4 * w == 4 * w * rows) by (nonlinear_arith)
            requires 0 <= w, 1 <= rows;
        assert(spec_cropped(data, w, 0, 0, w, rows) =~= data.subrange(0, 4 * w * rows));
    } else {
        assert(4 * w * 0 == 0) by (nonlinear_arith);
        assert(spec_cropped(data, w, 0, 0, w, rows) =~= data.subrange(0, 0));
    }
}

/// Cropping the entire buffer returns the buffer unchanged.
pub proof fn lemma_full_crop_identity(data: Seq<u8>, w: int, h: int)
    requires
        data.len() == 4 * w * h,
        0 <= w,
        0 <= h,
    ensures
        spec_cropped(data, w, 0, 0, w, h) == data,
{
    lemma_full_crop_prefix(data, w, h, h);
    assert(data.subrange(0, 4 * w * h) =~= data);
}

/// Background fill leaves a fully opaque pixel untouched.
pub proof fn lemma_background_preserves_opaque(data: Seq<u8>, r: u8, g: u8, b: u8, k: int)
    requires
        0 <= k,
        4 * k + 4 <= data.len(),
        data[4 * k + 3] == 255,
    ensures
        spec_bg_pixel(data, k, r, g, b) == data.subrange(4 * k, 4 * k + 4),
{
}

/// One row of the clockwise rotation: the pixels of destination row `y`,
/// destination columns `0 .. cols`, read from source column `y`, walking the
/// source rows bottom to top. Source dims are `w` by `h`.
pub open spec fn spec_rot_cw_row(data: Seq<u8>, w: int, h: int, y: int, cols: int) -> Seq<u8>
    decreases cols,
{
    if cols <= 0 {
        Seq::empty()
    } else {
        spec_rot_cw_row(data, w, h, y, cols - 1) + spec_pixel(data, w, y, h - cols)
    }
}

/// The first `rows` destination rows of the clockwise rotation, concatenated.
/// The destination is `h` wide and `w` tall.
pub open spec fn spec_rotated_cw(data: Seq<u8>, w: int, h: int, rows: int) -> Seq<u8>
    decreases rows,
{
    if rows <= 0 {
        Seq::empty()
    } else {
        spec_rotated_cw(data, w, h, rows - 1) + spec_rot_cw_row(data, w, h, rows - 1, h)
    }
}

/// One row of the counter-clockwise rotation: destination row `y` reads
/// source column `w - 1 - y`, walking the source rows top to bottom.
pub open spec fn spec_rot_ccw_row(data: Seq<u8>, w: int, h: int, y: int, cols: int) -> Seq<u8>
    decreases cols,
{
    if cols <= 0 {
        Seq::empty()
    } else {
        spec_rot_ccw_row(data, w, h, y, cols - 1) + spec_pixel(data, w, w - 1 - y, cols - 1)
    }
}

/// The first `rows` destination rows of the counter-clockwise rotation.
pub open spec fn spec_rotated_ccw(data: Seq<u8>, w: int, h: int, rows: int) -> Seq<u8>
    decreases rows,
{
    if rows <= 0 {
        Seq::empty()
    } else {
        spec_rotated_ccw(data, w, h, rows - 1) + spec_rot_ccw_row(data, w, h, rows - 1, h)
    }
}

/// A pixel that lies inside the buffer occupies four bytes.
proof fn lemma_pixel_len(data: Seq<u8>, w: int, h: int, x: int, y: int)
    requires
        data.len() == 4 * w * h,
        0 <= x < w,
        0 <= y < h,
    ensures
        spec_pixel(data, w, x, y).len() == 4,
        0 <= 4 * (y * w + x),
        4 * (y * w + x) + 4 <= data.len(),
{
    assert(0 <= 4 * (y * w + x) && 4 * (y * w + x) + 4 <= 4 * w * h) by (nonlinear_arith)
        requires 0 <= x < w, 0 <= y < h;
}

/// An in-bounds clockwise-rotated row holds `4 * cols` bytes.
proof fn lemma_rot_cw_row_len(data: Seq<u8>, w: int, h: int, y: int, cols: int)
    requires
        data.len() == 4 * w * h,
        0 <= y < w,
        0 <= cols <= h,
    ensures
        spec_rot_cw_row(data, w, h, y, cols).len() == 4 * cols,
    decreases cols,
{
    if cols > 0 {
        lemma_rot_cw_row_len(data, w, h, y, cols - 1);
        lemma_pixel_len(data, w, h, y, h - cols);
    }
}

/// The clockwise rotation of an in-bounds region holds `4 * h * rows` bytes.
proof fn lemma_rotated_cw_len(data: Seq<u8>, w: int, h: int, rows: int)
    requires
        data.len() == 4 * w * h,
        0 <= rows <= w,
        0 <= h,
    ensures
        spec_rotated_cw(data, w, h, rows).len() == 4 * h * rows,
    decreases rows,
{
    if rows > 0 {
        lemma_rotated_cw_len(data, w, h, rows - 1);
        lemma_rot_cw_row_len(data, w, h, rows - 1, h);
        assert(spec_rotated_cw(data, w, h, rows).len() == 4 * h * (rows - 1) + 4 * h);
        assert(4 * h * (rows - 1) + 4 * h == 4 * h * rows) by (nonlinear_arith);
    } else {
        assert(4 * h * 0 == 0) by (nonlinear_arith);
    }
}

/// An in-bounds counter-clockwise-rotated row holds `4 * cols` bytes.
proof fn lemma_rot_ccw_row_len(data: Seq<u8>, w: int, h: int, y: int, cols: int)
    requires
        data.len() == 4 * w * h,
        0 <= y < w,
        0 <= cols <= h,
    ensures
        spec_rot_ccw_row(data, w, h, y, cols).len() == 4 * cols,
    decreases cols,
{
    if cols > 0 {
        lemma_rot_ccw_row_len(data, w, h, y, cols - 1);
        lemma_pixel_len(data, w, h, w - 1 - y, cols - 1);
    }
}

/// The counter-clockwise rotation of an in-bounds region holds
/// `4 * h * rows` bytes.
proof fn lemma_rotated_ccw_len(data: Seq<u8>, w: int, h: int, rows: int)
    requires
        data.len() == 4 * w * h,
        0 <= rows <= w,
        0 <= h,
    ensures
        spec_rotated_ccw(data, w, h, rows).len() == 4 * h * rows,
    decreases rows,
{
    if rows > 0 {
        lemma_rotated_ccw_len(data, w, h, rows - 1);
        lemma_rot_ccw_row_len(data, w, h, rows - 1, h);
        assert(spec_rotated_ccw(data, w, h, rows).len() == 4 * h * (rows - 1) + 4 * h);
        assert(4 * h * (rows - 1) + 4 * h == 4 * h * rows) by (nonlinear_arith);
    } else {
        assert(4 * h * 0 == 0) by (nonlinear_arith);
    }
}

/// One channel blended onto the background: the source weighted by its
/// alpha, the background by the remainder, in 1/255 units, rounded down.
pub open spec fn spec_blend_channel(src: u8, bg: u8, a: u8) -> u8 {
    (((src as int) * (a as int) + (bg as int) * (255 - a as int)) / 255) as u8
}

/// Pixel `k` after background fill: untouched when fully opaque, otherwise
/// each colour channel blended with the background and the alpha forced to
/// full opacity.
pub open spec fn spec_bg_pixel(data: Seq<u8>, k: int, r: u8, g: u8, b: u8) -> Seq<u8> {
    let a = data[4 * k + 3];
    if a == 255 {
        data.subrange(4 * k, 4 * k + 4)
    } else {
        seq![
            spec_blend_channel(data[4 * k], r, a),
            spec_blend_channel(data[4 * k + 1], g, a),
            spec_blend_channel(data[4 * k + 2], b, a),
            255u8,
        ]
    }
}

/// The first `pixels` pixels after background fill, concatenated.
pub open spec fn spec_backgrounded(data: Seq<u8>, r: u8, g: u8, b: u8, pixels: int) -> Seq<u8>
    decreases pixels,
{
    if pixels <= 0 {
        Seq::empty()
    } else {
        spec_backgrounded(data, r, g, b, pixels - 1) + spec_bg_pixel(data, pixels - 1, r, g, b)
    }
}

/// After background fill every pixel's alpha byte is 255.
proof fn lemma_backgrounded_opaque(data: Seq<u8>, r: u8, g: u8, b: u8, pixels: int)
    requires
        0 <= pixels,
        4 * pixels <= data.len(),
    ensures
        spec_backgrounded(data, r, g, b, pixels).len() == 4 * pixels,
        forall|k: int| 0 <= k < pixels
            ==> #[trigger] spec_backgrounded(data, r, g, b, pixels)[4 * k + 3] == 255,
    decreases pixels,
{
    if pixels > 0 {
        lemma_backgrounded_opaque(data, r, g, b, pixels - 1);
        let prev = spec_backgrounded(data, r, g, b, pixels - 1);
        let px = spec_bg_pixel(data, pixels - 1, r, g, b);
        assert(px.len() == 4 && px[3] == 255);
        assert forall|k: int| 0 <= k < pixels
            implies #[trigger] spec_backgrounded(data, r, g, b, pixels)[4 * k + 3] == 255 by {
            if k < pixels - 1 {
                assert(spec_backgrounded(data, r, g, b, pixels)[4 * k + 3] == prev[4 * k + 3]);
            } else {
                assert(spec_backgrounded(data, r, g, b, pixels)[4 * k + 3] == px[3]);
            }
        }
    }
}

/// One channel of the background blend, in exact integer arithmetic.
fn blend_channel(src: u8, bg: u8, a: u8) -> (r: u8)
    ensures
        r == spec_blend_channel(src, bg, a),
{
    proof {
        assert((src as int) * (a as int) + (bg as int) * (255 - a as int) <= 255 * 255)
            by (nonlinear_arith)
            requires src <= 255, bg <= 255, a <= 255;
        assert((src as int) * (a as int) + (bg as int) * (255 - a as int) >= 0)
            by (nonlinear_arith)
            requires a <= 255;
    }
    (((src as u32) * (a as u32) + (bg as u32) * (255 - (a as u32))) / 255) as u8
}

/// Flattens every translucent pixel onto the opaque background colour
/// `(r, g, b)`; fully opaque pixels are untouched, and the result has no
/// translucent pixel at all.
pub fn apply_background(data: &Vec<u8>, w: u32, h: u32, r: u8, g: u8, b: u8) -> (out: Vec<u8>)
    requires
        data@.len() == 4 * w * h,
    ensures
        out@ == spec_backgrounded(data@, r, g, b, (w as int) * (h as int)),
        out@.len() == data@.len(),
        !spec_has_translucent(out@),
{
    let n = data.len();
    proof {
        assert(4 * ((w as int) * (h as int)) == 4 * w * h) by (nonlinear_arith);
    }
    let m: usize = n / 4;
    assert(m == (w as int) * (h as int));
    let mut out: Vec<u8> = Vec::new();
    let mut k: usize = 0;
    while k < m
        invariant
            data@.len() == 4 * w * h,
            n == data@.len(),
            4 * m == n,
            0 <= k <= m,
            out@ == spec_backgrounded(data@, r, g, b, k as int),
            out@.len() == 4 * k,
        decreases m - k,
    {
        let base: usize = 4 * k;
        let a = data[base + 3];
        if a == 255 {
            out.push(data[base]);
            out.push(data[base + 1]);
            out.push(data[base + 2]);
            out.push(data[base + 3]);
            proof {
                assert(out@ =~= spec_backgrounded(data@, r, g, b, k as int)
                    + spec_bg_pixel(data@, k as int, r, g, b));
            }
        } else {
            out.push(blend_channel(data[base], r, a));
            out.push(blend_channel(data[base + 1], g, a));
            out.push(blend_channel(data[base + 2], b, a));
            out.push(255);
            proof {
                assert(out@ =~= spec_backgrounded(data@, r, g, b, k as int)
                    + spec_bg_pixel(data@, k as int, r, g, b));
            }
        }
        proof {
            assert(out@ =~= spec_backgrounded(data@, r, g, b, k as int + 1));
        }
        k += 1;
    }
    proof {
        lemma_backgrounded_opaque(data@, r, g, b, m as int);
        assert forall|j: int| 0 <= j && 4 * j + 3 < out@.len()
            implies #[trigger] out@[4 * j + 3] == 255 by {
            assert(j < m);
        }
    }
    out
}

/// Copies the four bytes of source pixel `(sx, sy)` onto the end of `out`.
pub(crate) fn push_pixel(out: &mut Vec<u8>, data: &Vec<u8>, w: u32, h: u32, sx: u32, sy: u32)
    requires
        data@.len() == 4 * w * h,
        sx < w,
        sy < h,
    ensures
        final(out)@ == old(out)@ + spec_pixel(data@, w as int, sx as int, sy as int),
{
    proof {
        lemma_pixel_len(data@, w as int, h as int, sx as int, sy as int);
    }
    let n = data.len();
    let base: usize = 4 * ((sy as usize) * (w as usize) + (sx as usize));
    out.push(data[base]);
    out.push(data[base + 1]);
    out.push(data[base + 2]);
    out.push(data[base + 3]);
    proof {
        assert(out@ =~= old(out)@ + spec_pixel(data@, w as int, sx as int, sy as int));
    }
}

/// Rotates a `w` by `h` buffer 90 degrees clockwise; the result is `h` wide
/// and `w` tall.
pub fn rotate_cw(data: &Vec<u8>, w: u32, h: u32) -> (r: Vec<u8>)
    requires
        data@.len() == 4 * w * h,
    ensures
        r@ == spec_rotated_cw(data@, w as int, h as int, w as int),
        r@.len() == 4 * w * h,
{
    let mut out: Vec<u8> = Vec::new();
    let mut y: u32 = 0;
    while y < w
        invariant
            data@.len() == 4 * w * h,
            0 <= y <= w,
            out@ == spec_rotated_cw(data@, w as int, h as int, y as int),
        decreases w - y,
    {
        let mut c: u32 = 0;
        while c < h
            invariant
                data@.len() == 4 * w * h,
                y < w,
                0 <= c <= h,
                out@ == spec_rotated_cw(data@, w as int, h as int, y as int)
                    + spec_rot_cw_row(data@, w as int, h as int, y as int, c as int),
            decreases h - c,
        {
            push_pixel(&mut out, data, w, h, y, h - 1 - c);
            proof {
                assert(h - (c + 1) == h - 1 - c);
                assert(out@ =~= spec_rotated_cw(data@, w as int, h as int, y as int)
                    + spec_rot_cw_row(data@, w as int, h as int, y as int, c as int + 1));
            }
            c += 1;
        }
        proof {
            assert(out@ =~= spec_rotated_cw(data@, w as int, h as int, y as int + 1));
        }
        y += 1;
    }
    proof {
        lemma_rotated_cw_len(data@, w as int, h as int, w as int);
        assert(4 * (h as int) * (w as int) == 4 * (w as int) * (h as int)) by (nonlinear_arith);
    }
    out
}

/// Rotates a `w` by `h` buffer 90 degrees counter-clockwise; the result is
/// `h` wide and `w` tall.
pub fn rotate_ccw(data: &Vec<u8>, w: u32, h: u32) -> (r: Vec<u8>)
    requires
        data@.len() == 4 * w * h,
    ensures
        r@ == spec_rotated_ccw(data@, w as int, h as int, w as int),
        r@.len() == 4 * w * h,
{
    let mut out: Vec<u8> = Vec::new();
    let mut y: u32 = 0;
    while y < w
        invariant
            data@.len() == 4 * w * h,
            0 <= y <= w,
            out@ == spec_rotated_ccw(data@, w as int, h as int, y as int),
        decreases w - y,
    {
        let mut c: u32 = 0;
        while c < h
            invariant
                data@.len() == 4 * w * h,
                y < w,
                0 <= c <= h,
                out@ == spec_rotated_ccw(data@, w as int, h as int, y as int)
                    + spec_rot_ccw_row(data@, w as int, h as int, y as int, c as int),
            decreases h - c,
        {
            push_pixel(&mut out, data, w, h, w - 1 - y, c);
            proof {
                assert(out@ =~= spec_rotated_ccw(data@, w as int, h as int, y as int)
                    + spec_rot_ccw_row(data@, w as int, h as int, y as int, c as int + 1));
            }
            c += 1;
        }
        proof {
            assert(out@ =~= spec_rotated_ccw(data@, w as int, h as int, y as int + 1));
        }
        y += 1;
    }
    proof {
        lemma_rotated_ccw_len(data@, w as int, h as int, w as int);
        assert(4 * (h as int) * (w as int) == 4 * (w as int) * (h as int)) by (nonlinear_arith);
    }
    out
}

} // verus!
