//! EXIF orientation normalisation.
//!
//! Codes follow the EXIF convention: 1 (or none) keeps the raster; 2 flips it
//! horizontally; 3 turns it by 180 degrees; 4 flips it vertically; 5 turns it
//! by 270 degrees clockwise and flips it horizontally; 6 turns it by 90
//! degrees; 7 turns it by 90 degrees and flips it horizontally; 8 turns it by
//! 270 degrees. Unknown codes keep the raster.
use vstd::prelude::*;
use crate::raster::Raster;
use vstd::arithmetic::div_mod::{lemma_div_pos_is_pos, lemma_fundamental_div_mod, lemma_mod_pos_bound};

verus! {

/// Whether `code` names a transform other than the identity.
pub open spec fn transforms(code: u32) -> bool {
    2 <= code <= 8
}

/// Codes whose transform exchanges width and height.
pub open spec fn swaps_axes(code: u32) -> bool {
    5 <= code <= 8
}

pub open spec fn oriented_width(code: u32, w: u32, h: u32) -> u32 {
    if swaps_axes(code) {
        h
    } else {
        w
    }
}

pub open spec fn oriented_height(code: u32, w: u32, h: u32) -> u32 {
    if swaps_axes(code) {
        w
    } else {
        h
    }
}

/// Column of the source pixel shown at column `x`, row `y` of the result.
pub open spec fn source_x(code: u32, x: int, y: int, w: int, h: int) -> int {
    if code == 2 || code == 3 {
        w - 1 - x
    } else if code == 5 || code == 8 {
        w - 1 - y
    } else if code == 6 || code == 7 {
        y
    } else {
        x
    }
}

/// Row of the source pixel shown at column `x`, row `y` of the result.
pub open spec fn source_y(code: u32, x: int, y: int, w: int, h: int) -> int {
    if code == 3 || code == 4 {
        h - 1 - y
    } else if code == 5 || code == 6 {
        h - 1 - x
    } else if code == 7 || code == 8 {
        x
    } else {
        y
    }
}

/// `out` shows `src` under the transform of `code`.
pub open spec fn is_oriented(out: Raster, src: Raster, code: u32) -> bool {
    &&& out.wf()
    &&& out.width == oriented_width(code, src.width, src.height)
    &&& out.height == oriented_height(code, src.width, src.height)
    &&& forall|x: int, y: int, k: int|
        0 <= x < out.width && 0 <= y < out.height && 0 <= k < 3 ==> #[trigger] out.px(x, y, k) == src.px(
            source_x(code, x, y, src.width as int, src.height as int),
            source_y(code, x, y, src.width as int, src.height as int),
            k,
        )
}

pub open spec fn code_of(orientation: Option<u32>) -> u32 {
    match orientation {
        Some(c) => c,
        None => 1,
    }
}

fn source_coords(code: u32, x: u32, y: u32, w: u32, h: u32) -> (r: (u32, u32))
    requires
        transforms(code),
        x < oriented_width(code, w, h),
        y < oriented_height(code, w, h),
    ensures
        r.0 == source_x(code, x as int, y as int, w as int, h as int),
        r.1 == source_y(code, x as int, y as int, w as int, h as int),
        r.0 < w,
        r.1 < h,
{
    if code == 2 {
        (w - 1 - x, y)
    } else if code == 3 {
        (w - 1 - x, h - 1 - y)
    } else if code == 4 {
        (x, h - 1 - y)
    } else if code == 5 {
        (w - 1 - y, h - 1 - x)
    } else if code == 6 {
        (y, h - 1 - x)
    } else if code == 7 {
        (y, x)
    } else {
        (w - 1 - y, x)
    }
}

proof fn lemma_pixel_in_bounds(x: int, y: int, w: int, h: int, k: int)
    requires
        0 <= x < w,
        0 <= y < h,
        0 <= k < 3,
    ensures
        0 <= (y * w + x) * 3 + k < w * h * 3,
{
    assert(0 <= y * w + x < w * h) by (nonlinear_arith)
        requires
            0 <= x < w,
            0 <= y < h,
    ;
}

/// Transform a raster according to its EXIF orientation code.
pub fn apply_orientation(img: Raster, orientation: Option<u32>) -> (r: Raster)
    requires
        img.wf(),
    ensures
        is_oriented(r, img, code_of(orientation)),
        !transforms(code_of(orientation)) ==> r.width == img.width && r.height == img.height
            && r.data@ == img.data@,
{
    let code = match orientation {
        Some(c) => c,
        None => 1,
    };
    if code < 2 || code > 8 {
        assert forall|x: int, y: int, k: int|
            0 <= x < img.width && 0 <= y < img.height && 0 <= k < 3 implies #[trigger] img.px(x, y, k)
            == img.px(
            source_x(code, x, y, img.width as int, img.height as int),
            source_y(code, x, y, img.width as int, img.height as int),
            k,
        ) by {}
        return img;
    }
    let w = img.width;
    let h = img.height;
    let (ow, oh) = if code >= 5 {
        (h, w)
    } else {
        (w, h)
    };
    let total_len = img.data.len();
    let mut data: Vec<u8> = Vec::new();
    let mut y: u32 = 0;
    while y < oh
        invariant
            img.wf(),
            transforms(code),
            w == img.width && h == img.height,
            total_len == img.data@.len(),
            ow == oriented_width(code, w, h),
            oh == oriented_height(code, w, h),
            y <= oh,
            data@.len() == y as int * ow as int * 3,
            forall|xx: int, yy: int, k: int|
                0 <= xx < ow && 0 <= yy < y && 0 <= k < 3 ==> #[trigger] data@[(yy * ow + xx) * 3 + k]
                    == img.px(source_x(code, xx, yy, w as int, h as int), source_y(code, xx, yy, w as int, h as int), k),
        decreases oh - y,
    {
        let mut x: u32 = 0;
        while x < ow
            invariant
                img.wf(),
                transforms(code),
                w == img.width && h == img.height,
                total_len == img.data@.len(),
                ow == oriented_width(code, w, h),
                oh == oriented_height(code, w, h),
                y < oh,
                x <= ow,
                data@.len() == (y as int * ow as int + x) * 3,
                forall|xx: int, yy: int, k: int|
                    0 <= xx < ow && 0 <= yy < y && 0 <= k < 3 ==> #[trigger] data@[(yy * ow + xx) * 3 + k]
                        == img.px(source_x(code, xx, yy, w as int, h as int), source_y(code, xx, yy, w as int, h as int), k),
                forall|xx: int, k: int|
                    0 <= xx < x && 0 <= k < 3 ==> #[trigger] data@[(y * ow + xx) * 3 + k]
                        == img.px(source_x(code, xx, y as int, w as int, h as int), source_y(code, xx, y as int, w as int, h as int), k),
            decreases ow - x,
        {
            let (sx, sy) = source_coords(code, x, y, w, h);
            proof {
                lemma_pixel_in_bounds(sx as int, sy as int, w as int, h as int, 2);
            }
            let at = ((sy as usize) * (w as usize) + (sx as usize)) * 3;
            let ghost before = data@;
            data.push(img.data[at]);
            data.push(img.data[at + 1]);
            data.push(img.data[at + 2]);
            proof {
                let base = (y as int * ow as int + x as int) * 3;
                assert(before.len() == base);
                assert forall|xx: int, yy: int, k: int|
                    0 <= xx < ow && 0 <= yy < y && 0 <= k < 3 implies #[trigger] data@[(yy * ow + xx) * 3 + k]
                        == img.px(source_x(code, xx, yy, w as int, h as int), source_y(code, xx, yy, w as int, h as int), k) by {
                    lemma_row_before(xx, yy, y as int, ow as int, k);
                    assert(data@[(yy * ow + xx) * 3 + k] == before[(yy * ow + xx) * 3 + k]);
                }
                assert forall|xx: int, k: int|
                    0 <= xx < x + 1 && 0 <= k < 3 implies #[trigger] data@[(y * ow + xx) * 3 + k]
                        == img.px(source_x(code, xx, y as int, w as int, h as int), source_y(code, xx, y as int, w as int, h as int), k) by {
                    if xx < x {
                        assert(data@[(y * ow + xx) * 3 + k] == before[(y * ow + xx) * 3 + k]);
                    } else {
                        assert((y * ow + xx) * 3 + k == base + k);
                    }
                }
            }
            x = x + 1;
        }
        proof {
            assert((y as int * ow as int + ow as int) * 3 == (y + 1) as int * ow as int * 3) by (nonlinear_arith);
        }
        y = y + 1;
    }
    proof {
        assert(oh as int * ow as int * 3 == ow as int * oh as int * 3) by (nonlinear_arith);
    }
    let r = Raster { width: ow, height: oh, data };
    assert forall|x: int, y: int, k: int|
        0 <= x < r.width && 0 <= y < r.height && 0 <= k < 3 implies #[trigger] r.px(x, y, k) == img.px(
        source_x(code, x, y, img.width as int, img.height as int),
        source_y(code, x, y, img.width as int, img.height as int),
        k,
    ) by {
        assert(r.px(x, y, k) == r.data@[(y * ow + x) * 3 + k]);
    }
    r
}

proof fn lemma_row_before(xx: int, yy: int, y: int, ow: int, k: int)
    requires
        0 <= xx < ow,
        0 <= yy < y,
        0 <= k < 3,
    ensures
        (yy * ow + xx) * 3 + k < y * ow * 3,
{
    assert(yy * ow + xx < y * ow) by (nonlinear_arith)
        requires
            0 <= xx < ow,
            0 <= yy < y,
    ;
}


/// Every index of an RGB buffer of width `w` names one channel of one pixel.
proof fn lemma_index_decomposes(j: int, w: int, h: int) -> (r: (int, int, int))
    requires
        0 <= j < w * h * 3,
        w >= 0,
        h >= 0,
    ensures
        0 <= r.0 < w,
        0 <= r.1 < h,
        0 <= r.2 < 3,
        j == (r.1 * w + r.0) * 3 + r.2,
{
    assert(w > 0 && h > 0) by (nonlinear_arith)
        requires
            0 <= j < w * h * 3,
            w >= 0,
            h >= 0,
    ;
    let p = j / 3;
    let k = j % 3;
    lemma_fundamental_div_mod(j, 3);
    lemma_mod_pos_bound(j, 3);
    lemma_div_pos_is_pos(j, 3);
    let x = p % w;
    let y = p / w;
    lemma_fundamental_div_mod(p, w);
    lemma_mod_pos_bound(p, w);
    lemma_div_pos_is_pos(p, w);
    assert(p < w * h) by (nonlinear_arith)
        requires
            j == 3 * p + k,
            0 <= k < 3,
            j < w * h * 3,
    ;
    assert(y < h) by (nonlinear_arith)
        requires
            p == w * y + x,
            0 <= x,
            p < w * h,
            w > 0,
    ;
    assert(j == (y * w + x) * 3 + k) by (nonlinear_arith)
        requires
            j == 3 * p + k,
            p == w * y + x,
    ;
    (x, y, k)
}

/// Turning a raster by 90 degrees (code 6) gives an `H x W` raster, and
/// turning that by 270 degrees (code 8) gives back the original raster.
pub proof fn lemma_orientation_six_then_eight_restores(a: Raster, b: Raster, c: Raster)
    requires
        a.wf(),
        is_oriented(b, a, 6),
        is_oriented(c, b, 8),
    ensures
        b.width == a.height && b.height == a.width,
        c.width == a.width && c.height == a.height,
        c.data@ == a.data@,
{
    assert forall|j: int| 0 <= j < a.data@.len() implies c.data@[j] == a.data@[j] by {
        let (x, y, k) = lemma_index_decomposes(j, a.width as int, a.height as int);
        assert(c.px(x, y, k) == b.px(b.width - 1 - y, x, k));
        assert(b.px(b.width - 1 - y, x, k) == a.px(x, y, k));
    }
    assert(c.data@ =~= a.data@);
}

} // verus!
