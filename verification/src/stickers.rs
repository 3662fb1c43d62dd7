//! The sticker compositor: resized overlays placed on a base image with
//! inverse-rotation mapping, bilinear resampling and alpha-over blending.
//!
//! All pixel arithmetic is exact fixed-point integer arithmetic: angles are
//! whole degrees, trigonometric values are kept in 1/65536 units, and sample
//! positions in 1/2^32 units.

use vstd::prelude::*;
use vstd::string::StringExecFns;
use crate::types::ImageData;
use crate::types::StickerData;
use crate::error::AppError;
use crate::codec::b64_of;
use crate::codec::b64_decoded_of;
use crate::codec::decoded_of;
use crate::codec::encoding_of;
use crate::codec::resampled_of;
use crate::codec::base64_encode;
use crate::codec::base64_decode;
use crate::codec::decode_image;
use crate::codec::encode_image;
use crate::codec::resize_rgba;
use crate::pixels::spec_pixel;
use crate::pixels::spec_has_translucent;
use crate::pixels::has_translucent;
use crate::ops::MAX_ENCODE_BYTES;
use crate::ops::spec_decoded_data;
use crate::ops::decode_image_data;

verus! {

/// The sine of `d` degrees for `0 <= d <= 90`, in 1/65536 units, rounded to
/// nearest.
pub open spec fn spec_sin_quarter(d: int) -> int {
    if d == 0 {
        0
    } else
    if d == 1 {
        1144
    } else
    if d == 2 {
        2287
    } else
    if d == 3 {
        3430
    } else
    if d == 4 {
        4572
    } else
    if d == 5 {
        5712
    } else
    if d == 6 {
        6850
    } else
    if d == 7 {
        7987
    } else
    if d == 8 {
        9121
    } else
    if d == 9 {
        10252
    } else
    if d == 10 {
        11380
    } else
    if d == 11 {
        12505
    } else
    if d == 12 {
        13626
    } else
    if d == 13 {
        14742
    } else
    if d == 14 {
        15855
    } else
    if d == 15 {
        16962
    } else
    if d == 16 {
        18064
    } else
    if d == 17 {
        19161
    } else
    if d == 18 {
        20252
    } else
    if d == 19 {
        21336
    } else
    if d == 20 {
        22415
    } else
    if d == 21 {
        23486
    } else
    if d == 22 {
        24550
    } else
    if d == 23 {
        25607
    } else
    if d == 24 {
        26656
    } else
    if d == 25 {
        27697
    } else
    if d == 26 {
        28729
    } else
    if d == 27 {
        29753
    } else
    if d == 28 {
        30767
    } else
    if d == 29 {
        31772
    } else
    if d == 30 {
        32768
    } else
    if d == 31 {
        33754
    } else
    if d == 32 {
        34729
    } else
    if d == 33 {
        35693
    } else
    if d == 34 {
        36647
    } else
    if d == 35 {
        37590
    } else
    if d == 36 {
        38521
    } else
    if d == 37 {
        39441
    } else
    if d == 38 {
        40348
    } else
    if d == 39 {
        41243
    } else
    if d == 40 {
        42126
    } else
    if d == 41 {
        42995
    } else
    if d == 42 {
        43852
    } else
    if d == 43 {
        44695
    } else
    if d == 44 {
        45525
    } else
    if d == 45 {
        46341
    } else
    if d == 46 {
        47143
    } else
    if d == 47 {
        47930
    } else
    if d == 48 {
        48703
    } else
    if d == 49 {
        49461
    } else
    if d == 50 {
        50203
    } else
    if d == 51 {
        50931
    } else
    if d == 52 {
        51643
    } else
    if d == 53 {
        52339
    } else
    if d == 54 {
        53020
    } else
    if d == 55 {
        53684
    } else
    if d == 56 {
        54332
    } else
    if d == 57 {
        54963
    } else
    if d == 58 {
        55578
    } else
    if d == 59 {
        56175
    } else
    if d == 60 {
        56756
    } else
    if d == 61 {
        57319
    } else
    if d == 62 {
        57865
    } else
    if d == 63 {
        58393
    } else
    if d == 64 {
        58903
    } else
    if d == 65 {
        59396
    } else
    if d == 66 {
        59870
    } else
    if d == 67 {
        60326
    } else
    if d == 68 {
        60764
    } else
    if d == 69 {
        61183
    } else
    if d == 70 {
        61584
    } else
    if d == 71 {
        61966
    } else
    if d == 72 {
        62328
    } else
    if d == 73 {
        62672
    } else
    if d == 74 {
        62997
    } else
    if d == 75 {
        63303
    } else
    if d == 76 {
        63589
    } else
    if d == 77 {
        63856
    } else
    if d == 78 {
        64104
    } else
    if d == 79 {
        64332
    } else
    if d == 80 {
        64540
    } else
    if d == 81 {
        64729
    } else
    if d == 82 {
        64898
    } else
    if d == 83 {
        65048
    } else
    if d == 84 {
        65177
    } else
    if d == 85 {
        65287
    } else
    if d == 86 {
        65376
    } else
    if d == 87 {
        65446
    } else
    if d == 88 {
        65496
    } else
    if d == 89 {
        65526
    } else {
        65536
    }
}

/// The sine of `d` degrees for `0 <= d < 360`, in 1/65536 units, by the
/// quarter-wave symmetries.
pub open spec fn spec_sin_q16(d: int) -> int {
    if d <= 90 {
        spec_sin_quarter(d)
    } else if d <= 180 {
        spec_sin_quarter(180 - d)
    } else if d <= 270 {
        -spec_sin_quarter(d - 180)
    } else {
        -spec_sin_quarter(360 - d)
    }
}

/// The cosine of `d` degrees for `0 <= d < 360`, in 1/65536 units: the sine
/// shifted by a quarter turn.
pub open spec fn spec_cos_q16(d: int) -> int {
    spec_sin_q16(if d < 270 { d + 90 } else { d - 270 })
}

/// The quarter table stays within one unit.
pub proof fn lemma_sin_quarter_bounds(d: int)
    requires
        0 <= d <= 90,
    ensures
        0 <= spec_sin_quarter(d) <= 65536,
{
}

/// Sines and cosines stay within one unit.
pub proof fn lemma_trig_bounds(d: int)
    requires
        0 <= d < 360,
    ensures
        -65536 <= spec_sin_q16(d) <= 65536,
        -65536 <= spec_cos_q16(d) <= 65536,
{
    if d <= 90 {
        lemma_sin_quarter_bounds(d);
    } else if d <= 180 {
        lemma_sin_quarter_bounds(180 - d);
    } else if d <= 270 {
        lemma_sin_quarter_bounds(d - 180);
    } else {
        lemma_sin_quarter_bounds(360 - d);
    }
    let c = if d < 270 { d + 90 } else { d - 270 };
    if c <= 90 {
        lemma_sin_quarter_bounds(c);
    } else if c <= 180 {
        lemma_sin_quarter_bounds(180 - c);
    } else if c <= 270 {
        lemma_sin_quarter_bounds(c - 180);
    } else {
        lemma_sin_quarter_bounds(360 - c);
    }
}

/// Looks up the quarter-wave sine table.
fn sin_quarter(d: u32) -> (r: i32)
    requires
        d <= 90,
    ensures
        r == spec_sin_quarter(d as int),
{
    match d {
        0 => 0,
        1 => 1144,
        2 => 2287,
        3 => 3430,
        4 => 4572,
        5 => 5712,
        6 => 6850,
        7 => 7987,
        8 => 9121,
        9 => 10252,
        10 => 11380,
        11 => 12505,
        12 => 13626,
        13 => 14742,
        14 => 15855,
        15 => 16962,
        16 => 18064,
        17 => 19161,
        18 => 20252,
        19 => 21336,
        20 => 22415,
        21 => 23486,
        22 => 24550,
        23 => 25607,
        24 => 26656,
        25 => 27697,
        26 => 28729,
        27 => 29753,
        28 => 30767,
        29 => 31772,
        30 => 32768,
        31 => 33754,
        32 => 34729,
        33 => 35693,
        34 => 36647,
        35 => 37590,
        36 => 38521,
        37 => 39441,
        38 => 40348,
        39 => 41243,
        40 => 42126,
        41 => 42995,
        42 => 43852,
        43 => 44695,
        44 => 45525,
        45 => 46341,
        46 => 47143,
        47 => 47930,
        48 => 48703,
        49 => 49461,
        50 => 50203,
        51 => 50931,
        52 => 51643,
        53 => 52339,
        54 => 53020,
        55 => 53684,
        56 => 54332,
        57 => 54963,
        58 => 55578,
        59 => 56175,
        60 => 56756,
        61 => 57319,
        62 => 57865,
        63 => 58393,
        64 => 58903,
        65 => 59396,
        66 => 59870,
        67 => 60326,
        68 => 60764,
        69 => 61183,
        70 => 61584,
        71 => 61966,
        72 => 62328,
        73 => 62672,
        74 => 62997,
        75 => 63303,
        76 => 63589,
        77 => 63856,
        78 => 64104,
        79 => 64332,
        80 => 64540,
        81 => 64729,
        82 => 64898,
        83 => 65048,
        84 => 65177,
        85 => 65287,
        86 => 65376,
        87 => 65446,
        88 => 65496,
        89 => 65526,
        _ => 65536,
    }
}

/// The sine of `d` whole degrees in 1/65536 units.
fn sin_q16(d: u32) -> (r: i32)
    requires
        d < 360,
    ensures
        r == spec_sin_q16(d as int),
{
    if d <= 90 {
        sin_quarter(d)
    } else if d <= 180 {
        sin_quarter(180 - d)
    } else if d <= 270 {
        -sin_quarter(d - 180)
    } else {
        -sin_quarter(360 - d)
    }
}

/// The cosine of `d` whole degrees in 1/65536 units.
fn cos_q16(d: u32) -> (r: i32)
    requires
        d < 360,
    ensures
        r == spec_cos_q16(d as int),
{
    if d < 270 {
        sin_q16(d + 90)
    } else {
        sin_q16(d - 270)
    }
}

/// A rotation in whole degrees reduced to `0 .. 360`.
pub open spec fn spec_norm_deg(r: int) -> int {
    r % 360
}

/// Reduces a rotation in whole degrees to `0 .. 360`.
pub fn normalize_degrees(r: i64) -> (d: u32)
    ensures
        d == spec_norm_deg(r as int),
        d < 360,
{
    if r >= 0 {
        (r % 360) as u32
    } else {
        let m = ((-(r as i128)) % 360) as u32;
        if m == 0 {
            0
        } else {
            360 - m
        }
    }
}

/// One byte of a sticker pixel: channel `c` of pixel `(xx, yy)`.
pub open spec fn spec_byte_at(sdata: Seq<u8>, sw: int, xx: int, yy: int, c: int) -> int {
    sdata[4 * (yy * sw + xx) + c] as int
}

/// Reads channel `c` of pixel `(xx, yy)` of a `sw` by `sh` buffer.
fn pixel_byte(sdata: &Vec<u8>, sw: u32, sh: u32, xx: u32, yy: u32, c: u32) -> (r: u8)
    requires
        sdata@.len() == 4 * sw * sh,
        xx < sw,
        yy < sh,
        c < 4,
    ensures
        r as int == spec_byte_at(sdata@, sw as int, xx as int, yy as int, c as int),
        r <= 255,
{
    proof {
        assert(0 <= 4 * ((yy as int) * (sw as int) + (xx as int)) && 4 * ((yy as int) * (
        sw as int) + (xx as int)) + 4 <= 4 * (sw as int) * (sh as int)) by (nonlinear_arith)
            requires xx < sw, yy < sh, xx >= 0, yy >= 0, sw >= 0, sh >= 0;
    }
    let n = sdata.len();
    sdata[4 * ((yy as usize) * (sw as usize) + (xx as usize)) + (c as usize)]
}

/// Bilinear sample of channel `c` at the position `(posx, posy)`, given in
/// 1/2^32 pixel units: the four nearest pixels, clamped to the buffer's
/// edge, weighted by the position's fractional parts.
pub open spec fn spec_sample_q32(
    sdata: Seq<u8>,
    sw: int,
    sh: int,
    posx: int,
    posy: int,
    c: int,
) -> int {
    let x0 = posx / 0x1_0000_0000;
    let fx = posx % 0x1_0000_0000;
    let y0 = posy / 0x1_0000_0000;
    let fy = posy % 0x1_0000_0000;
    let x1 = if x0 + 1 <= sw - 1 { x0 + 1 } else { sw - 1 };
    let y1 = if y0 + 1 <= sh - 1 { y0 + 1 } else { sh - 1 };
    let p00 = spec_byte_at(sdata, sw, x0, y0, c);
    let p10 = spec_byte_at(sdata, sw, x1, y0, c);
    let p01 = spec_byte_at(sdata, sw, x0, y1, c);
    let p11 = spec_byte_at(sdata, sw, x1, y1, c);
    let top = p00 * (0x1_0000_0000 - fx) + p10 * fx;
    let bot = p01 * (0x1_0000_0000 - fx) + p11 * fx;
    (top * (0x1_0000_0000 - fy) + bot * fy) / 0x1_0000_0000_0000_0000
}

/// Computes the bilinear sample of channel `c` at `(ux, uy)`, in 1/2^32
/// pixel units.
fn sample_q32(sdata: &Vec<u8>, sw: u32, sh: u32, ux: u128, uy: u128, c: u32) -> (r: u8)
    requires
        sdata@.len() == 4 * sw * sh,
        sw >= 1,
        sh >= 1,
        ux < (sw as u128) * 0x1_0000_0000,
        uy < (sh as u128) * 0x1_0000_0000,
        c < 4,
    ensures
        r as int == spec_sample_q32(sdata@, sw as int, sh as int, ux as int, uy as int, c as int),
{
    let x0 = (ux / 0x1_0000_0000) as u32;
    let fx = ux % 0x1_0000_0000;
    let y0 = (uy / 0x1_0000_0000) as u32;
    let fy = uy % 0x1_0000_0000;
    proof {
        assert(ux as int / 0x1_0000_0000 < sw as int) by (nonlinear_arith)
            requires (ux as int) < (sw as int) * 0x1_0000_0000, ux as int >= 0, sw >= 1;
        assert(uy as int / 0x1_0000_0000 < sh as int) by (nonlinear_arith)
            requires (uy as int) < (sh as int) * 0x1_0000_0000, uy as int >= 0, sh >= 1;
    }
    let x1 = if x0 + 1 <= sw - 1 { x0 + 1 } else { sw - 1 };
    let y1 = if y0 + 1 <= sh - 1 { y0 + 1 } else { sh - 1 };
    let p00 = pixel_byte(sdata, sw, sh, x0, y0, c) as u128;
    let p10 = pixel_byte(sdata, sw, sh, x1, y0, c) as u128;
    let p01 = pixel_byte(sdata, sw, sh, x0, y1, c) as u128;
    let p11 = pixel_byte(sdata, sw, sh, x1, y1, c) as u128;
    proof {
        let big: int = 0x1_0000_0000;
        assert(p00 as int * (big - fx as int) + p10 as int * (fx as int) <= 255 * big
            && p00 as int * (big - fx as int) >= 0 && p10 as int * (fx as int) >= 0
            && p01 as int * (big - fx as int) + p11 as int * (fx as int) <= 255 * big
            && p01 as int * (big - fx as int) >= 0 && p11 as int * (fx as int) >= 0)
            by (nonlinear_arith)
            requires
                p00 <= 255, p10 <= 255, p01 <= 255, p11 <= 255,
                0 <= (fx as int) && (fx as int) < big,
                big == 0x1_0000_0000;
    }
    let top = p00 * (0x1_0000_0000 - fx) + p10 * fx;
    let bot = p01 * (0x1_0000_0000 - fx) + p11 * fx;
    proof {
        let big: int = 0x1_0000_0000;
        assert(top as int * (big - fy as int) + bot as int * (fy as int) <= 255 * big * big
            && top as int * (big - fy as int) >= 0 && bot as int * (fy as int) >= 0)
            by (nonlinear_arith)
            requires
                (top as int) <= 255 * big,
                (bot as int) <= 255 * big,
                (top as int) >= 0,
                (bot as int) >= 0,
                0 <= (fy as int) && (fy as int) < big,
                big == 0x1_0000_0000;
        assert(255 * big * big == 255 * 0x1_0000_0000_0000_0000) by (nonlinear_arith)
            requires big == 0x1_0000_0000;
    }
    let val = (top * (0x1_0000_0000 - fy) + bot * fy) / 0x1_0000_0000_0000_0000;
    val as u8
}

/// A channel alpha-over blended: the overlay weighted by its opacity, the
/// base by the remainder, in 1/255 units, rounded down.
pub open spec fn spec_blend_over(base: int, over: int, a: int) -> int {
    (base * (255 - a) + over * a) / 255
}

/// The combined alpha after an overlay: the base alpha scaled by the
/// overlay's transparency, plus the overlay's alpha.
pub open spec fn spec_combined_alpha(basea: int, a: int) -> int {
    basea * (255 - a) / 255 + a
}

/// Destination pixel `(bx, by)` after one overlay pass: the base pixel is
/// mapped through the inverse rotation into the overlay; if it lands inside
/// the overlay, the bilinear sample is alpha-over blended onto it, else it
/// is left unchanged.
pub open spec fn spec_overlay_pixel(
    bdata: Seq<u8>,
    bw: int,
    sdata: Seq<u8>,
    sw: int,
    sh: int,
    x: int,
    y: int,
    deg: int,
    bx: int,
    by: int,
) -> Seq<u8> {
    let base = spec_pixel(bdata, bw, bx, by);
    let cosv = spec_cos_q16(deg);
    let sinv = spec_sin_q16(deg);
    let dx = bx * 65536 - (x * 65536 + sw * 32768);
    let dy = by * 65536 - (y * 65536 + sh * 32768);
    let posx = dx * cosv + dy * sinv + sw * 32768 * 65536;
    let posy = -(dx * sinv) + dy * cosv + sh * 32768 * 65536;
    if 0 <= posx && posx < sw * 0x1_0000_0000 && 0 <= posy && posy < sh * 0x1_0000_0000 {
        let ia = spec_sample_q32(sdata, sw, sh, posx, posy, 3);
        seq![
            spec_blend_over(base[0] as int, spec_sample_q32(sdata, sw, sh, posx, posy, 0), ia) as u8,
            spec_blend_over(base[1] as int, spec_sample_q32(sdata, sw, sh, posx, posy, 1), ia) as u8,
            spec_blend_over(base[2] as int, spec_sample_q32(sdata, sw, sh, posx, posy, 2), ia) as u8,
            spec_combined_alpha(base[3] as int, ia) as u8,
        ]
    } else {
        base
    }
}

/// Blends one overlay pass's pixel onto the end of `out`.
fn overlay_pixel(
    out: &mut Vec<u8>,
    bdata: &Vec<u8>,
    bw: u32,
    bh: u32,
    sdata: &Vec<u8>,
    sw: u32,
    sh: u32,
    x: u32,
    y: u32,
    deg: u32,
    cosv: i32,
    sinv: i32,
    bx: u32,
    by: u32,
)
    requires
        bdata@.len() == 4 * bw * bh,
        sdata@.len() == 4 * sw * sh,
        sw >= 1,
        sh >= 1,
        bx < bw,
        by < bh,
        deg < 360,
        cosv == spec_cos_q16(deg as int),
        sinv == spec_sin_q16(deg as int),
    ensures
        final(out)@ == old(out)@ + spec_overlay_pixel(
            bdata@,
            bw as int,
            sdata@,
            sw as int,
            sh as int,
            x as int,
            y as int,
            deg as int,
            bx as int,
            by as int,
        ),
{
    proof {
        lemma_trig_bounds(deg as int);
        assert(0 <= 4 * ((by as int) * (bw as int) + (bx as int)) && 4 * ((by as int) * (
        bw as int) + (bx as int)) + 4 <= 4 * (bw as int) * (bh as int)) by (nonlinear_arith)
            requires bx < bw, by < bh, bx >= 0, by >= 0, bw >= 0, bh >= 0;
    }
    let n = bdata.len();
    let bbase: usize = 4 * ((by as usize) * (bw as usize) + (bx as usize));
    let b0 = bdata[bbase];
    let b1 = bdata[bbase + 1];
    let b2 = bdata[bbase + 2];
    let b3 = bdata[bbase + 3];
    let dx: i128 = (bx as i128) * 65536 - ((x as i128) * 65536 + (sw as i128) * 32768);
    let dy: i128 = (by as i128) * 65536 - ((y as i128) * 65536 + (sh as i128) * 32768);
    proof {
        let lim: int = 0x2_0000_0000_0000;
        assert((dx as int) * (cosv as int) <= lim * 65536 && (dx as int) * (cosv as int) >= -(
        lim * 65536) && (dx as int) * (sinv as int) <= lim * 65536 && (dx as int) * (sinv as int)
            >= -(lim * 65536) && (dy as int) * (cosv as int) <= lim * 65536 && (dy as int) * (
        cosv as int) >= -(lim * 65536) && (dy as int) * (sinv as int) <= lim * 65536 && (
        dy as int) * (sinv as int) >= -(lim * 65536)) by (nonlinear_arith)
            requires
                -lim <= (dx as int) && (dx as int) <= lim,
                -lim <= (dy as int) && (dy as int) <= lim,
                -65536 <= cosv <= 65536,
                -65536 <= sinv <= 65536,
                lim == 0x2_0000_0000_0000;
    }
    let posx: i128 = dx * (cosv as i128) + dy * (sinv as i128) + (sw as i128) * 32768 * 65536;
    let posy: i128 = -(dx * (sinv as i128)) + dy * (cosv as i128) + (sh as i128) * 32768
        * 65536;
    if 0 <= posx && posx < (sw as i128) * 0x1_0000_0000 && 0 <= posy && posy < (sh as i128)
        * 0x1_0000_0000 {
        let ux = posx as u128;
        let uy = posy as u128;
        let ia = sample_q32(sdata, sw, sh, ux, uy, 3);
        let s0 = sample_q32(sdata, sw, sh, ux, uy, 0);
        let s1 = sample_q32(sdata, sw, sh, ux, uy, 1);
        let s2 = sample_q32(sdata, sw, sh, ux, uy, 2);
        proof {
            assert((b0 as int) * (255 - ia as int) + (s0 as int) * (ia as int) <= 255 * 255
                && (b0 as int) * (255 - ia as int) + (s0 as int) * (ia as int) >= 0
                && (b1 as int) * (255 - ia as int) + (s1 as int) * (ia as int) <= 255 * 255
                && (b1 as int) * (255 - ia as int) + (s1 as int) * (ia as int) >= 0
                && (b2 as int) * (255 - ia as int) + (s2 as int) * (ia as int) <= 255 * 255
                && (b2 as int) * (255 - ia as int) + (s2 as int) * (ia as int) >= 0
                && (b3 as int) * (255 - ia as int) <= 255 * (255 - ia as int)
                && (b3 as int) * (255 - ia as int) >= 0) by (nonlinear_arith)
                requires
                    b0 <= 255, b1 <= 255, b2 <= 255, b3 <= 255,
                    s0 <= 255, s1 <= 255, s2 <= 255,
                    ia <= 255;
            vstd::arithmetic::div_mod::lemma_div_multiples_vanish(255 - ia as int, 255);
            vstd::arithmetic::div_mod::lemma_div_is_ordered(
                (b3 as int) * (255 - ia as int),
                255 * (255 - ia as int),
                255,
            );
        }
        let v0 = (((b0 as u32) * (255 - ia as u32) + (s0 as u32) * (ia as u32)) / 255) as u8;
        let v1 = (((b1 as u32) * (255 - ia as u32) + (s1 as u32) * (ia as u32)) / 255) as u8;
        let v2 = (((b2 as u32) * (255 - ia as u32) + (s2 as u32) * (ia as u32)) / 255) as u8;
        let va = (((b3 as u32) * (255 - ia as u32)) / 255 + (ia as u32)) as u8;
        out.push(v0);
        out.push(v1);
        out.push(v2);
        out.push(va);
        proof {
            assert(out@ =~= old(out)@ + spec_overlay_pixel(
                bdata@, bw as int, sdata@, sw as int, sh as int,
                x as int, y as int, deg as int, bx as int, by as int,
            ));
        }
    } else {
        out.push(b0);
        out.push(b1);
        out.push(b2);
        out.push(b3);
        proof {
            assert(out@ =~= old(out)@ + spec_overlay_pixel(
                bdata@, bw as int, sdata@, sw as int, sh as int,
                x as int, y as int, deg as int, bx as int, by as int,
            ));
        }
    }
}

/// The first `cols` pixels of destination row `by` after one overlay pass.
pub open spec fn spec_overlay_row(
    bdata: Seq<u8>,
    bw: int,
    sdata: Seq<u8>,
    sw: int,
    sh: int,
    x: int,
    y: int,
    deg: int,
    by: int,
    cols: int,
) -> Seq<u8>
    decreases cols,
{
    if cols <= 0 {
        Seq::empty()
    } else {
        spec_overlay_row(bdata, bw, sdata, sw, sh, x, y, deg, by, cols - 1)
            + spec_overlay_pixel(bdata, bw, sdata, sw, sh, x, y, deg, cols - 1, by)
    }
}

/// The first `rows` destination rows after one overlay pass, concatenated.
pub open spec fn spec_overlaid(
    bdata: Seq<u8>,
    bw: int,
    sdata: Seq<u8>,
    sw: int,
    sh: int,
    x: int,
    y: int,
    deg: int,
    rows: int,
) -> Seq<u8>
    decreases rows,
{
    if rows <= 0 {
        Seq::empty()
    } else {
        spec_overlaid(bdata, bw, sdata, sw, sh, x, y, deg, rows - 1)
            + spec_overlay_row(bdata, bw, sdata, sw, sh, x, y, deg, rows - 1, bw)
    }
}

/// An overlay pixel holds four bytes.
proof fn lemma_overlay_pixel_len(
    bdata: Seq<u8>,
    bw: int,
    bh: int,
    sdata: Seq<u8>,
    sw: int,
    sh: int,
    x: int,
    y: int,
    deg: int,
    bx: int,
    by: int,
)
    requires
        bdata.len() == 4 * bw * bh,
        0 <= bx < bw,
        0 <= by < bh,
    ensures
        spec_overlay_pixel(bdata, bw, sdata, sw, sh, x, y, deg, bx, by).len() == 4,
{
    assert(0 <= 4 * (by * bw + bx) && 4 * (by * bw + bx) + 4 <= 4 * bw * bh)
        by (nonlinear_arith)
        requires 0 <= bx < bw, 0 <= by < bh;
}

/// An in-bounds overlay row holds `4 * cols` bytes.
proof fn lemma_overlay_row_len(
    bdata: Seq<u8>,
    bw: int,
    bh: int,
    sdata: Seq<u8>,
    sw: int,
    sh: int,
    x: int,
    y: int,
    deg: int,
    by: int,
    cols: int,
)
    requires
        bdata.len() == 4 * bw * bh,
        0 <= by < bh,
        0 <= cols <= bw,
    ensures
        spec_overlay_row(bdata, bw, sdata, sw, sh, x, y, deg, by, cols).len() == 4 * cols,
    decreases cols,
{
    if cols > 0 {
        lemma_overlay_row_len(bdata, bw, bh, sdata, sw, sh, x, y, deg, by, cols - 1);
        lemma_overlay_pixel_len(bdata, bw, bh, sdata, sw, sh, x, y, deg, cols - 1, by);
    }
}

/// A full overlay pass holds `4 * bw * rows` bytes.
proof fn lemma_overlaid_len(
    bdata: Seq<u8>,
    bw: int,
    bh: int,
    sdata: Seq<u8>,
    sw: int,
    sh: int,
    x: int,
    y: int,
    deg: int,
    rows: int,
)
    requires
        bdata.len() == 4 * bw * bh,
        0 <= rows <= bh,
        0 <= bw,
    ensures
        spec_overlaid(bdata, bw, sdata, sw, sh, x, y, deg, rows).len() == 4 * bw * rows,
    decreases rows,
{
    if rows > 0 {
        lemma_overlaid_len(bdata, bw, bh, sdata, sw, sh, x, y, deg, rows - 1);
        lemma_overlay_row_len(bdata, bw, bh, sdata, sw, sh, x, y, deg, rows - 1, bw);
        assert(spec_overlaid(bdata, bw, sdata, sw, sh, x, y, deg, rows).len() == 4 * bw * (rows
            - 1) + 4 * bw);
        assert(4 * bw * (rows - 1) + 4 * bw == 4 * bw * rows) by (nonlinear_arith);
    } else {
        assert(4 * bw * 0 == 0) by (nonlinear_arith);
    }
}

/// Applies one overlay pass over the whole base buffer: every base pixel is
/// tested against the rotated overlay and blended where it is covered.
pub fn overlay_sticker(
    bdata: &Vec<u8>,
    bw: u32,
    bh: u32,
    sdata: &Vec<u8>,
    sw: u32,
    sh: u32,
    x: u32,
    y: u32,
    deg: u32,
) -> (r: Vec<u8>)
    requires
        bdata@.len() == 4 * bw * bh,
        sdata@.len() == 4 * sw * sh,
        sw >= 1,
        sh >= 1,
        deg < 360,
    ensures
        r@ == spec_overlaid(
            bdata@,
            bw as int,
            sdata@,
            sw as int,
            sh as int,
            x as int,
            y as int,
            deg as int,
            bh as int,
        ),
        r@.len() == 4 * bw * bh,
{
    let cosv = cos_q16(deg);
    let sinv = sin_q16(deg);
    let mut out: Vec<u8> = Vec::new();
    let mut by: u32 = 0;
    while by < bh
        invariant
            bdata@.len() == 4 * bw * bh,
            sdata@.len() == 4 * sw * sh,
            sw >= 1,
            sh >= 1,
            deg < 360,
            cosv == spec_cos_q16(deg as int),
            sinv == spec_sin_q16(deg as int),
            0 <= by <= bh,
            out@ == spec_overlaid(
                bdata@, bw as int, sdata@, sw as int, sh as int,
                x as int, y as int, deg as int, by as int,
            ),
        decreases bh - by,
    {
        let mut bx: u32 = 0;
        while bx < bw
            invariant
                bdata@.len() == 4 * bw * bh,
                sdata@.len() == 4 * sw * sh,
                sw >= 1,
                sh >= 1,
                deg < 360,
                cosv == spec_cos_q16(deg as int),
                sinv == spec_sin_q16(deg as int),
                by < bh,
                0 <= bx <= bw,
                out@ == spec_overlaid(
                    bdata@, bw as int, sdata@, sw as int, sh as int,
                    x as int, y as int, deg as int, by as int,
                ) + spec_overlay_row(
                    bdata@, bw as int, sdata@, sw as int, sh as int,
                    x as int, y as int, deg as int, by as int, bx as int,
                ),
            decreases bw - bx,
        {
            overlay_pixel(&mut out, bdata, bw, bh, sdata, sw, sh, x, y, deg, cosv, sinv, bx, by);
            proof {
                assert(out@ =~= spec_overlaid(
                    bdata@, bw as int, sdata@, sw as int, sh as int,
                    x as int, y as int, deg as int, by as int,
                ) + spec_overlay_row(
                    bdata@, bw as int, sdata@, sw as int, sh as int,
                    x as int, y as int, deg as int, by as int, bx as int + 1,
                ));
            }
            bx += 1;
        }
        proof {
            assert(out@ =~= spec_overlaid(
                bdata@, bw as int, sdata@, sw as int, sh as int,
                x as int, y as int, deg as int, by as int + 1,
            ));
        }
        by += 1;
    }
    proof {
        lemma_overlaid_len(
            bdata@, bw as int, bh as int, sdata@, sw as int, sh as int,
            x as int, y as int, deg as int, bh as int,
        );
    }
    out
}

/// With no rotation, a full-opacity overlay of the base's own size at the
/// origin maps each destination pixel to the same overlay pixel, exactly.
proof fn lemma_full_sticker_pixel(bdata: Seq<u8>, sdata: Seq<u8>, w: int, h: int, bx: int, by: int)
    requires
        bdata.len() == 4 * w * h,
        sdata.len() == 4 * w * h,
        w >= 1,
        h >= 1,
        0 <= bx < w,
        0 <= by < h,
        !spec_has_translucent(sdata),
    ensures
        spec_overlay_pixel(bdata, w, sdata, w, h, 0, 0, 0, bx, by) == spec_pixel(
            sdata,
            w,
            bx,
            by,
        ),
{
    let big: int = 0x1_0000_0000;
    let dx = bx * 65536 - (0 * 65536 + w * 32768);
    let dy = by * 65536 - (0 * 65536 + h * 32768);
    assert(spec_cos_q16(0) == 65536);
    assert(spec_sin_q16(0) == 0);
    let posx = dx * 65536 + dy * 0 + w * 32768 * 65536;
    let posy = -(dx * 0) + dy * 65536 + h * 32768 * 65536;
    assert(posx == bx * big && posy == by * big) by (nonlinear_arith)
        requires
            posx == (bx * 65536 - (0 * 65536 + w * 32768)) * 65536 + (by * 65536 - (0 * 65536 + h
                * 32768)) * 0 + w * 32768 * 65536,
            posy == -((bx * 65536 - (0 * 65536 + w * 32768)) * 0) + (by * 65536 - (0 * 65536 + h
                * 32768)) * 65536 + h * 32768 * 65536,
            big == 0x1_0000_0000;
    assert(0 <= posx && posx < w * big && 0 <= posy && posy < h * big) by (nonlinear_arith)
        requires posx == bx * big, posy == by * big, 0 <= bx < w, 0 <= by < h, big == 0x1_0000_0000;
    lemma_div_vanish_pair(bx, big);
    lemma_div_vanish_pair(by, big);
    assert(posx / big == bx && posx % big == 0);
    assert(posy / big == by && posy % big == 0);
    // every sample collapses to the pixel's own bytes
    assert forall|c: int| 0 <= c < 4 implies spec_sample_q32(sdata, w, h, posx, posy, c)
        == spec_byte_at(sdata, w, bx, by, c) by {
        let p00 = spec_byte_at(sdata, w, bx, by, c);
        let top = p00 * (big - 0) + spec_byte_at(
            sdata,
            w,
            if bx + 1 <= w - 1 { bx + 1 } else { w - 1 },
            by,
            c,
        ) * 0;
        assert(top == p00 * big);
        let num = top * (big - 0) + (spec_byte_at(
            sdata,
            w,
            bx,
            if by + 1 <= h - 1 { by + 1 } else { h - 1 },
            c,
        ) * (big - 0) + spec_byte_at(
            sdata,
            w,
            if bx + 1 <= w - 1 { bx + 1 } else { w - 1 },
            if by + 1 <= h - 1 { by + 1 } else { h - 1 },
            c,
        ) * 0) * 0;
        assert(num == p00 * big * big);
        assert(p00 * big * big == (big * big) * p00) by (nonlinear_arith)
            requires big == 0x1_0000_0000;
        vstd::arithmetic::div_mod::lemma_div_multiples_vanish(p00, big * big);
        assert(big * big == 0x1_0000_0000_0000_0000) by (nonlinear_arith)
            requires big == 0x1_0000_0000;
        assert(num / 0x1_0000_0000_0000_0000 == p00);
    }
    // the overlay pixel is fully opaque, so the blend hands the sample back
    let base = spec_pixel(bdata, w, bx, by);
    assert(0 <= 4 * (by * w + bx) && 4 * (by * w + bx) + 4 <= 4 * w * h) by (nonlinear_arith)
        requires 0 <= bx < w, 0 <= by < h;
    let ia = spec_sample_q32(sdata, w, h, posx, posy, 3);
    assert(sdata[4 * (by * w + bx) + 3] == 255);
    assert(ia == 255);
    assert forall|c: int| 0 <= c < 3 implies spec_blend_over(
        base[c] as int,
        spec_sample_q32(sdata, w, h, posx, posy, c),
        255,
    ) == spec_byte_at(sdata, w, bx, by, c) by {
        let s = spec_sample_q32(sdata, w, h, posx, posy, c);
        assert(spec_blend_over(base[c] as int, s, 255) == (s * 255) / 255);
        assert(s * 255 == 255 * s) by (nonlinear_arith);
        vstd::arithmetic::div_mod::lemma_div_multiples_vanish(s, 255);
    }
    assert(spec_combined_alpha(base[3] as int, 255) == 255);
    assert(spec_overlay_pixel(bdata, w, sdata, w, h, 0, 0, 0, bx, by) =~= spec_pixel(
        sdata, w, bx, by,
    ));
}

/// Multiplying by a positive unit and dividing again is the identity, and
/// the remainder is zero.
proof fn lemma_div_vanish_pair(a: int, d: int)
    requires
        0 < d,
    ensures
        (a * d) / d == a,
        (a * d) % d == 0,
{
    vstd::arithmetic::div_mod::lemma_div_multiples_vanish(a, d);
    assert(a * d == d * a) by (nonlinear_arith);
    vstd::arithmetic::div_mod::lemma_fundamental_div_mod(a * d, d);
}

/// One row of the full-size, unrotated, opaque overlay is the overlay's
/// own row.
proof fn lemma_full_sticker_row(bdata: Seq<u8>, sdata: Seq<u8>, w: int, h: int, by: int, cols: int)
    requires
        bdata.len() == 4 * w * h,
        sdata.len() == 4 * w * h,
        w >= 1,
        h >= 1,
        0 <= by < h,
        0 <= cols <= w,
        !spec_has_translucent(sdata),
    ensures
        spec_overlay_row(bdata, w, sdata, w, h, 0, 0, 0, by, cols) == sdata.subrange(
            4 * (by * w),
            4 * (by * w) + 4 * cols,
        ),
    decreases cols,
{
    assert(0 <= 4 * (by * w) && 4 * (by * w) + 4 * cols <= 4 * w * h) by (nonlinear_arith)
        requires 0 <= by < h, 0 <= cols <= w, w >= 1;
    if cols > 0 {
        lemma_full_sticker_row(bdata, sdata, w, h, by, cols - 1);
        lemma_full_sticker_pixel(bdata, sdata, w, h, cols - 1, by);
        assert(spec_overlay_row(bdata, w, sdata, w, h, 0, 0, 0, by, cols) =~= sdata.subrange(
            4 * (by * w),
            4 * (by * w) + 4 * cols,
        ));
    } else {
        assert(spec_overlay_row(bdata, w, sdata, w, h, 0, 0, 0, by, cols) =~= sdata.subrange(
            4 * (by * w),
            4 * (by * w),
        ));
    }
}

/// The first rows of the full-size, unrotated, opaque overlay are the
/// overlay's own first bytes.
proof fn lemma_full_sticker_prefix(bdata: Seq<u8>, sdata: Seq<u8>, w: int, h: int, rows: int)
    requires
        bdata.len() == 4 * w * h,
        sdata.len() == 4 * w * h,
        w >= 1,
        h >= 1,
        0 <= rows <= h,
        !spec_has_translucent(sdata),
    ensures
        spec_overlaid(bdata, w, sdata, w, h, 0, 0, 0, rows) == sdata.subrange(0, 4 * w * rows),
    decreases rows,
{
    assert(0 <= 4 * w * rows <= 4 * w * h) by (nonlinear_arith)
        requires w >= 1, 0 <= rows <= h;
    if rows > 0 {
        lemma_full_sticker_prefix(bdata, sdata, w, h, rows - 1);
        lemma_full_sticker_row(bdata, sdata, w, h, rows - 1, w);
        assert(0 <= 4 * w * (rows - 1) && 4 * ((rows - 1) * w) == 4 * w * (rows - 1)
            && 4 * ((rows - 1) * w) + 4 * w == 4 * w * rows) by (nonlinear_arith)
            requires w >= 1, 1 <= rows;
        assert(spec_overlaid(bdata, w, sdata, w, h, 0, 0, 0, rows) =~= sdata.subrange(
            0,
            4 * w * rows,
        ));
    } else {
        assert(4 * w * 0 == 0) by (nonlinear_arith);
        assert(spec_overlaid(bdata, w, sdata, w, h, 0, 0, 0, rows) =~= sdata.subrange(0, 0));
    }
}

/// Sticker compositing is deterministic replacement in the aligned case: a
/// single unrotated overlay of the base's own size, fully opaque, placed at
/// the origin, replaces the base buffer with the overlay's buffer exactly.
pub proof fn lemma_full_sticker_replaces(bdata: Seq<u8>, sdata: Seq<u8>, w: int, h: int)
    requires
        bdata.len() == 4 * w * h,
        sdata.len() == 4 * w * h,
        w >= 1,
        h >= 1,
        !spec_has_translucent(sdata),
    ensures
        spec_overlaid(bdata, w, sdata, w, h, 0, 0, 0, h) == sdata,
{
    lemma_full_sticker_prefix(bdata, sdata, w, h, h);
    assert(sdata.subrange(0, 4 * w * h) =~= sdata);
}

/// The RGBA buffer of one sticker, decoded and resized to its target size,
/// or `None` when the sticker is invalid or cannot be decoded.
pub open spec fn spec_sticker_layer(st: StickerData) -> Option<Seq<u8>> {
    if st.width == 0 || st.height == 0 {
        None
    } else {
        match b64_decoded_of(st.image_data@) {
            None => None,
            Some(bytes) => match decoded_of(bytes) {
                None => None,
                Some((dw, dh, ddata, dalpha)) => {
                    if dw > 0 && dh > 0 && 4 * (st.width as int) * (st.height as int)
                        <= usize::MAX {
                        Some(resampled_of(dw, dh, ddata, st.width, st.height))
                    } else {
                        None
                    }
                },
            },
        }
    }
}

/// The base buffer with the first `upto` stickers applied in order, later
/// stickers over earlier ones, or `None` when any of them is invalid.
pub open spec fn spec_composite(
    bdata: Seq<u8>,
    bw: int,
    bh: int,
    stickers: Seq<StickerData>,
) -> Option<Seq<u8>>
    decreases stickers.len(),
{
    if stickers.len() == 0 {
        Some(bdata)
    } else {
        match spec_composite(bdata, bw, bh, stickers.drop_last()) {
            None => None,
            Some(cur) => {
                let st = stickers.last();
                match spec_sticker_layer(st) {
                    None => None,
                    Some(layer) => Some(
                        spec_overlaid(
                            cur,
                            bw,
                            layer,
                            st.width as int,
                            st.height as int,
                            st.x as int,
                            st.y as int,
                            spec_norm_deg(st.rotation as int),
                            bh,
                        ),
                    ),
                }
            },
        }
    }
}

/// Everything that must hold for `apply_stickers` to succeed: a non-empty
/// sticker list, a decodable base of positive size, every sticker decodable
/// and of positive target size, an encodable format, and an encoder that
/// accepts the composite.
pub open spec fn spec_stickers_ok(image: ImageData, stickers: Seq<StickerData>) -> bool {
    &&& stickers.len() > 0
    &&& spec_decoded_data(image.data@) matches Some((dw, dh, ddata, dalpha))
    &&& dw > 0 && dh > 0
    &&& spec_composite(ddata, dw as int, dh as int, stickers) matches Some(composed)
    &&& image.format.spec_encodable()
    &&& encoding_of(image.format, dw, dh, composed) matches Some(enc)
    &&& enc.len() <= MAX_ENCODE_BYTES
}

/// Composites the stickers onto the base image, in input order, each one
/// decoded, resized to its target size, rotated about its centre by inverse
/// mapping with bilinear resampling, and alpha-over blended.
pub fn apply_stickers(image_data: &ImageData, stickers: &Vec<StickerData>) -> (r: Result<
    ImageData,
    AppError,
>)
    ensures
        ({
            let dec = spec_decoded_data(image_data.data@);
            match r {
                Ok(out) => {
                    &&& spec_stickers_ok(*image_data, stickers@)
                    &&& dec matches Some((dw, dh, ddata, dalpha))
                    &&& spec_composite(ddata, dw as int, dh as int, stickers@)
                        matches Some(composed)
                    &&& out.has_alpha == (dalpha && spec_has_translucent(composed))
                    &&& encoding_of(image_data.format, dw, dh, composed) matches Some(enc)
                    &&& out.data@ == b64_of(enc)
                    &&& out.width == image_data.width && out.height == image_data.height
                    &&& out.path@ == image_data.path@
                    &&& out.format == image_data.format
                },
                Err(e) => {
                    &&& !spec_stickers_ok(*image_data, stickers@)
                    &&& (stickers@.len() == 0 ==> e is InvalidParameters)
                    &&& (e is InvalidParameters ==> stickers@.len() == 0 || exists|i: int|
                        0 <= i < stickers@.len() && ((#[trigger] stickers@[i]).width == 0
                            || stickers@[i].height == 0))
                    &&& (e is UnsupportedFormat ==> !image_data.format.spec_encodable())
                },
            }
        }),
{
    if stickers.len() == 0 {
        return Err(AppError::InvalidParameters(String::from_str("No stickers provided")));
    }
    let dec = match decode_image_data(image_data) {
        Ok(d) => d,
        Err(e) => {
            return Err(e);
        },
    };
    if dec.width == 0 || dec.height == 0 {
        return Err(AppError::ImageError(String::from_str("decoded image is empty")));
    }
    let bw = dec.width;
    let bh = dec.height;
    let ghost ddata = dec.data@;
    let ghost dalpha = dec.channel_alpha;
    let mut cur = dec.data;
    let mut i: usize = 0;
    proof {
        assert(stickers@.take(0) =~= Seq::<StickerData>::empty());
    }
    while i < stickers.len()
        invariant
            stickers@.len() > 0,
            spec_decoded_data(image_data.data@) == Some((bw, bh, ddata, dalpha)),
            bw > 0,
            bh > 0,
            0 <= i <= stickers@.len(),
            spec_composite(ddata, bw as int, bh as int, stickers@.take(i as int)) == Some(
                cur@,
            ),
            cur@.len() == 4 * bw * bh,
        decreases stickers@.len() - i,
    {
        let st = &stickers[i];
        if st.width == 0 || st.height == 0 {
            proof {
                lemma_composite_prefix_none(
                    ddata, bw as int, bh as int, stickers@, i as int,
                );
            }
            let mut msg = String::from_str("Sticker ");
            msg.append(crate::strings::u64_to_string(i as u64).as_str());
            msg.append(" has invalid dimensions");
            return Err(AppError::InvalidParameters(msg));
        }
        let sticker_bytes = match base64_decode(st.image_data.as_str()) {
            Ok(bts) => bts,
            Err(e) => {
                proof {
                    lemma_composite_prefix_none(
                        ddata, bw as int, bh as int, stickers@, i as int,
                    );
                }
                return Err(e);
            },
        };
        let sdec = match decode_image(&sticker_bytes) {
            Ok(d) => d,
            Err(e) => {
                proof {
                    lemma_composite_prefix_none(
                        ddata, bw as int, bh as int, stickers@, i as int,
                    );
                }
                return Err(e);
            },
        };
        proof {
            assert(0 <= 4 * (st.width as int) * (st.height as int) < u128::MAX)
                by (nonlinear_arith)
                requires st.width <= u32::MAX, st.height <= u32::MAX;
        }
        if sdec.width == 0 || sdec.height == 0 || 4u128 * (st.width as u128) * (st.height
            as u128) > (usize::MAX as u128) {
            proof {
                lemma_composite_prefix_none(
                    ddata, bw as int, bh as int, stickers@, i as int,
                );
            }
            return Err(AppError::ImageError(String::from_str("sticker cannot be used")));
        }
        let layer = resize_rgba(sdec.width, sdec.height, sdec.data, st.width, st.height);
        let deg = normalize_degrees(st.rotation);
        let next = overlay_sticker(&cur, bw, bh, &layer, st.width, st.height, st.x, st.y, deg);
        proof {
            assert(stickers@.take(i as int + 1).drop_last() =~= stickers@.take(i as int));
            assert(stickers@.take(i as int + 1).last() == stickers@[i as int]);
        }
        cur = next;
        i += 1;
    }
    proof {
        assert(stickers@.take(stickers@.len() as int) =~= stickers@);
    }
    if let Err(e) = crate::error::validate_encodable(&image_data.format) {
        return Err(e);
    }
    let has_alpha = dec.channel_alpha && has_translucent(&cur);
    let encoded = match encode_image(image_data.format, bw, bh, cur) {
        Ok(b) => b,
        Err(e) => {
            return Err(e);
        },
    };
    if encoded.len() > MAX_ENCODE_BYTES {
        return Err(AppError::OperationFailed(String::from_str("encoded image is too large")));
    }
    let base64_data = base64_encode(&encoded);
    Ok(ImageData {
        path: image_data.path.clone(),
        width: image_data.width,
        height: image_data.height,
        format: image_data.format,
        data: base64_data,
        has_alpha,
    })
}

/// When the composite of a prefix is defined but the next sticker's layer
/// is not, the composite of the whole list is undefined.
proof fn lemma_composite_prefix_none(
    bdata: Seq<u8>,
    bw: int,
    bh: int,
    stickers: Seq<StickerData>,
    i: int,
)
    requires
        0 <= i < stickers.len(),
        spec_sticker_layer(stickers[i]) is None,
    ensures
        spec_composite(bdata, bw, bh, stickers) is None,
{
    lemma_composite_bad_sticker(bdata, bw, bh, stickers, i);
}

/// A sticker whose layer is undefined poisons every composite that includes
/// it.
proof fn lemma_composite_bad_sticker(
    bdata: Seq<u8>,
    bw: int,
    bh: int,
    stickers: Seq<StickerData>,
    i: int,
)
    requires
        0 <= i < stickers.len(),
        spec_sticker_layer(stickers[i]) is None,
    ensures
        spec_composite(bdata, bw, bh, stickers) is None,
    decreases stickers.len(),
{
    if stickers.len() > 0 {
        if i == stickers.len() - 1 {
            assert(stickers.last() == stickers[i]);
        } else {
            assert(stickers.drop_last()[i] == stickers[i]);
            lemma_composite_bad_sticker(bdata, bw, bh, stickers.drop_last(), i);
        }
    }
}

} // verus!
