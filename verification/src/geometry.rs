//! Dimension arithmetic: aspect-ratio-preserving fit and crop clamping.
//!
//! Both are stated and computed in exact integer arithmetic; the fit rounds
//! the scaled axis to the nearest whole pixel.

use vstd::prelude::*;
use vstd::arithmetic::div_mod::lemma_fundamental_div_mod;
use vstd::arithmetic::div_mod::lemma_mod_bound;
use vstd::arithmetic::div_mod::lemma_div_pos_is_pos;

verus! {

/// The dimensions that fit `(tw, th)` while keeping the `(ow, oh)` aspect
/// ratio: the limiting axis takes its target value, the other is scaled by
/// the original ratio and rounded to the nearest pixel, floored at 1.
///
/// A degenerate original axis (zero) pins the scaled axis to 1, mirroring a
/// ratio that is zero or unbounded.
pub open spec fn spec_aspect_fit(ow: int, oh: int, tw: int, th: int) -> (int, int) {
    if ow > 0 && oh > 0 {
        if ow * th > tw * oh {
            // width is the limiting axis
            let nh = (2 * tw * oh + ow) / (2 * ow);
            (tw, if nh >= 1 { nh } else { 1 })
        } else {
            // height is the limiting axis
            let nw = (2 * th * ow + oh) / (2 * oh);
            (if nw >= 1 { nw } else { 1 }, th)
        }
    } else if ow > 0 {
        (tw, 1)
    } else {
        (1, th)
    }
}

/// Rounded scaling stays within the target: when `a * c < b * d` with
/// positive `b`, the rounded quotient `(2 a c + b) / (2 b)` is at most `d`.
proof fn lemma_round_div_bound(a: int, c: int, b: int, d: int)
    requires
        b >= 1,
        a >= 0,
        c >= 0,
        d >= 1,
        a * c < b * d,
    ensures
        0 <= (2 * a * c + b) / (2 * b) <= d,
{
    let num = 2 * a * c + b;
    let den = 2 * b;
    lemma_fundamental_div_mod(num, den);
    lemma_mod_bound(num, den);
    assert(num >= 0) by (nonlinear_arith)
        requires num == 2 * a * c + b, a >= 0, c >= 0, b >= 1;
    lemma_div_pos_is_pos(num, den);
    assert(num <= den * d + den - 1) by (nonlinear_arith)
        requires a * c < b * d, b >= 1, num == 2 * a * c + b, den == 2 * b;
    assert(num / den <= d) by (nonlinear_arith)
        requires
            num == den * (num / den) + num % den,
            0 <= num % den < den,
            num <= den * d + den - 1,
            den >= 2,
            d >= 1;
}

/// Rounded scaling of the matching axis is exact: when `a * c == b * d`
/// with positive `b`, the rounded quotient `(2 a c + b) / (2 b)` is `d`.
proof fn lemma_round_div_exact(a: int, c: int, b: int, d: int)
    requires
        b >= 1,
        d >= 0,
        a * c == b * d,
    ensures
        (2 * a * c + b) / (2 * b) == d,
{
    let num = 2 * a * c + b;
    let den = 2 * b;
    lemma_fundamental_div_mod(num, den);
    lemma_mod_bound(num, den);
    assert(num == den * d + b) by (nonlinear_arith)
        requires a * c == b * d, num == 2 * a * c + b, den == 2 * b;
    assert(num / den == d) by (nonlinear_arith)
        requires
            num == den * d + b,
            num == den * (num / den) + num % den,
            0 <= num % den < den,
            0 < b,
            den == 2 * b;
}

/// Computes the aspect-preserving fit of `(original_width, original_height)`
/// into `(target_width, target_height)`.
///
/// When the original is wider than the target ratio, the width is limiting:
/// the result is `(target_width, round(target_width / ratio))`, floored at
/// 1. Otherwise the height is limiting and the width is scaled the same way.
pub fn calculate_aspect_ratio_dimensions(
    original_width: u32,
    original_height: u32,
    target_width: u32,
    target_height: u32,
) -> (r: (u32, u32))
    requires
        target_width >= 1,
        target_height >= 1,
    ensures
        (r.0 as int, r.1 as int) == spec_aspect_fit(
            original_width as int,
            original_height as int,
            target_width as int,
            target_height as int,
        ),
        1 <= r.0 <= target_width,
        1 <= r.1 <= target_height,
{
    let ow = original_width as u128;
    let oh = original_height as u128;
    let tw = target_width as u128;
    let th = target_height as u128;
    proof {
        let lim = 0xFFFF_FFFFu128 as int;
        assert(0 <= (ow as int) * (th as int) <= lim * lim
            && 0 <= (tw as int) * (oh as int) <= lim * lim
            && 0 <= 2 * (tw as int) * (oh as int) + (ow as int) <= 3 * lim * lim
            && 0 <= 2 * (th as int) * (ow as int) + (oh as int) <= 3 * lim * lim
            && 3 * lim * lim < u128::MAX) by (nonlinear_arith)
            requires
                0 <= ow as int <= lim,
                0 <= oh as int <= lim,
                0 <= tw as int <= lim,
                0 <= th as int <= lim,
                lim == 0xFFFF_FFFFu128 as int;
    }
    if original_width > 0 && original_height > 0 {
        if ow * th > tw * oh {
            proof {
                lemma_round_div_bound(
                    target_width as int,
                    original_height as int,
                    original_width as int,
                    target_height as int,
                );
            }
            let nh = (2 * tw * oh + ow) / (2 * ow);
            let nh32 = if nh >= 1 { nh as u32 } else { 1 };
            (target_width, nh32)
        } else {
            proof {
                if (ow as int) * (th as int) < (tw as int) * (oh as int) {
                    lemma_round_div_bound(
                        target_height as int,
                        original_width as int,
                        original_height as int,
                        target_width as int,
                    );
                } else {
                    lemma_round_div_exact(
                        target_height as int,
                        original_width as int,
                        original_height as int,
                        target_width as int,
                    );
                }
            }
            let nw = (2 * th * ow + oh) / (2 * oh);
            let nw32 = if nw >= 1 { nw as u32 } else { 1 };
            (nw32, target_height)
        }
    } else if original_width > 0 {
        (target_width, 1)
    } else {
        (1, target_height)
    }
}

/// The crop rectangle after clamping to a `w` by `h` image: the corner is
/// pulled inside the image, then the size is cut to what remains, floored at
/// one pixel each way.
pub open spec fn spec_clamped_rect(w: int, h: int, x: int, y: int, cw: int, ch: int) -> (
    int,
    int,
    int,
    int,
) {
    let cx = if x <= w - 1 { x } else if w >= 1 { w - 1 } else { 0 };
    let cy = if y <= h - 1 { y } else if h >= 1 { h - 1 } else { 0 };
    let mw = if cw <= w - cx { cw } else { w - cx };
    let mh = if ch <= h - cy { ch } else { h - cy };
    (cx, cy, if mw >= 1 { mw } else { 1 }, if mh >= 1 { mh } else { 1 })
}

/// The aspect fit preserves the ratio to within half a pixel: in the
/// width-limited case (and away from the floor at one pixel), the chosen
/// height times the original width differs from the target width times the
/// original height by at most half the original width, the error of
/// rounding to the nearest pixel.
pub proof fn lemma_aspect_fit_rounds(ow: int, oh: int, tw: int, th: int)
    requires
        ow >= 1,
        oh >= 1,
        tw >= 1,
        th >= 1,
        ow * th > tw * oh,
        (2 * tw * oh + ow) / (2 * ow) >= 1,
    ensures
        ({
            let nh = spec_aspect_fit(ow, oh, tw, th).1;
            -ow < 2 * (nh * ow - tw * oh) <= ow
        }),
{
    let num = 2 * tw * oh + ow;
    let den = 2 * ow;
    let nh = num / den;
    lemma_fundamental_div_mod(num, den);
    lemma_mod_bound(num, den);
    assert(-ow < 2 * (nh * ow - tw * oh) <= ow) by (nonlinear_arith)
        requires
            num == den * nh + num % den,
            0 <= num % den < den,
            num == 2 * tw * oh + ow,
            den == 2 * ow,
            ow >= 1;
}

/// Crop clamping never exceeds the source: for a non-empty image and a
/// non-empty requested size, the clamped rectangle lies inside the image
/// and is no larger than what was asked for.
pub proof fn lemma_crop_clamped(w: int, h: int, x: int, y: int, cw: int, ch: int)
    requires
        w >= 1,
        h >= 1,
        cw >= 1,
        ch >= 1,
        x >= 0,
        y >= 0,
    ensures
        ({
            let r = spec_clamped_rect(w, h, x, y, cw, ch);
            &&& 1 <= r.2 <= cw && r.2 <= w
            &&& 1 <= r.3 <= ch && r.3 <= h
            &&& 0 <= r.0 && r.0 + r.2 <= w
            &&& 0 <= r.1 && r.1 + r.3 <= h
        }),
{
}

/// Cropping the whole image is a no-op on the rectangle: the origin with
/// the image's own size clamps to itself.
pub proof fn lemma_full_crop_rect(w: int, h: int)
    requires
        w >= 1,
        h >= 1,
    ensures
        spec_clamped_rect(w, h, 0, 0, w, h) == (0int, 0int, w, h),
{
}

/// Clamps the crop rectangle `(x, y, cw, ch)` to a `w` by `h` image.
pub fn clamp_crop_rect(w: u32, h: u32, x: u32, y: u32, cw: u32, ch: u32) -> (r: (
    u32,
    u32,
    u32,
    u32,
))
    ensures
        (r.0 as int, r.1 as int, r.2 as int, r.3 as int) == spec_clamped_rect(
            w as int,
            h as int,
            x as int,
            y as int,
            cw as int,
            ch as int,
        ),
        r.2 >= 1,
        r.3 >= 1,
        w >= 1 ==> r.0 < w && r.0 + r.2 <= w,
        h >= 1 ==> r.1 < h && r.1 + r.3 <= h,
{
    let wm1 = if w >= 1 { w - 1 } else { 0 };
    let hm1 = if h >= 1 { h - 1 } else { 0 };
    let cx = if x <= wm1 { x } else { wm1 };
    let cy = if y <= hm1 { y } else { hm1 };
    let availw = w - cx;
    let availh = h - cy;
    let mw = if cw <= availw { cw } else { availw };
    let mh = if ch <= availh { ch } else { availh };
    let fw = if mw >= 1 { mw } else { 1 };
    let fh = if mh >= 1 { mh } else { 1 };
    (cx, cy, fw, fh)
}

} // verus!
