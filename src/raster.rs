//! Owned 8-bit RGB pixel buffers.
use vstd::prelude::*;

verus! {

/// Number of interleaved channels per pixel (red, green, blue).
pub const CHANNELS: usize = 3;

/// An owned, contiguous, row-major buffer of interleaved 8-bit RGB pixels.
#[derive(Clone, Debug)]
pub struct Raster {
    pub width: u32,
    pub height: u32,
    pub data: Vec<u8>,
}

impl Raster {
    /// The buffer holds exactly `width * height` pixels.
    pub open spec fn wf(&self) -> bool {
        self.data@.len() == self.width as int * self.height as int * 3
    }

    /// Value of channel `k` of the pixel at column `x`, row `y`.
    pub open spec fn px(&self, x: int, y: int, k: int) -> u8 {
        self.data@[(y * self.width + x) * 3 + k]
    }

    /// A raster of the given size over `data`, when `data` holds exactly
    /// `width * height` RGB pixels.
    pub fn new(width: u32, height: u32, data: Vec<u8>) -> (r: Option<Raster>)
        ensures
            match r {
                Some(img) => img.wf() && img.width == width && img.height == height && img.data@
                    == data@,
                None => data@.len() != width as int * height as int * 3,
            },
    {
        let len = data.len();
        let pixels = (width as u64).checked_mul(height as u64);
        match pixels {
            None => {
                assert(width as int * height as int * 3 > u64::MAX) by (nonlinear_arith)
                    requires
                        width as int * height as int > u64::MAX,
                ;
                None
            },
            Some(n) => {
                if n <= (usize::MAX / 3) as u64 && len == (n as usize) * 3 {
                    Some(Raster { width, height, data })
                } else {
                    None
                }
            },
        }
    }

    /// A raster from a decoder's interleaved RGB plane whose rows lie
    /// `stride` bytes apart; nothing when the plane is too short.
    pub fn from_strided_rows(plane: &[u8], stride: usize, width: u32, height: u32) -> (r: Option<Raster>)
        ensures
            r is Some <==> rows_fit(plane@.len() as int, stride as int, width as int, height as int, 3),
            r matches Some(img) ==> {
                &&& img.wf()
                &&& img.width == width
                &&& img.height == height
                &&& forall|x: int, y: int, k: int|
                    0 <= x < width && 0 <= y < height && 0 <= k < 3 ==> #[trigger] img.px(x, y, k) == plane@[y
                        * stride + x * 3 + k]
            },
    {
        match pack_strided_rows(plane, stride, width, height, 3) {
            None => None,
            Some(data) => {
                let r = Raster { width, height, data };
                assert forall|x: int, y: int, k: int|
                    0 <= x < width && 0 <= y < height && 0 <= k < 3 implies #[trigger] r.px(x, y, k) == plane@[y
                        * stride + x * 3 + k] by {
                    assert(r.px(x, y, k) == r.data@[(y * width + x) * 3 + k]);
                }
                Some(r)
            },
        }
    }
}

/// A plane of `height` rows, `stride` bytes apart, whose first
/// `width * bpp` bytes are the row's pixels, is long enough.
pub open spec fn rows_fit(len: int, stride: int, width: int, height: int, bpp: int) -> bool {
    width == 0 || height == 0 || (height - 1) * stride + width * bpp <= len
}

/// The pixels of a decoder's interleaved plane, `bpp` bytes each, with the
/// row padding removed: byte `k` of pixel `(x, y)` comes from
/// `plane[y * stride + x * bpp + k]`. Nothing when the plane is too short.
pub fn pack_strided_rows(plane: &[u8], stride: usize, width: u32, height: u32, bpp: usize) -> (r: Option<Vec<u8>>)
    requires
        1 <= bpp <= 4,
    ensures
        r is Some <==> rows_fit(plane@.len() as int, stride as int, width as int, height as int, bpp as int),
        r matches Some(data) ==> {
            &&& data@.len() == width as int * height as int * bpp
            &&& forall|x: int, y: int, k: int|
                0 <= x < width && 0 <= y < height && 0 <= k < bpp ==> #[trigger] data@[(y * width + x) * bpp + k]
                    == plane@[y * stride + x * bpp + k]
        },
{
    let len = plane.len();
    if width == 0 || height == 0 {
        proof {
            assert(width as int * height as int * bpp == 0) by (nonlinear_arith)
                requires
                    width == 0 || height == 0,
            ;
        }
        return Some(Vec::new());
    }
    let last_row = ((height - 1) as usize).checked_mul(stride);
    let row_bytes = (width as usize).checked_mul(bpp);
    let needed = match (last_row, row_bytes) {
        (Some(a), Some(b)) => a.checked_add(b),
        _ => None,
    };
    match needed {
        None => {
            proof {
                assert((height - 1) as int * stride as int + width as int * bpp > usize::MAX) by (nonlinear_arith)
                    requires
                        (height - 1) as int * stride as int > usize::MAX || width as int * bpp > usize::MAX
                            || (height - 1) as int * stride as int + width as int * bpp > usize::MAX,
                        stride >= 0,
                        width >= 0,
                        bpp >= 1,
                        height >= 1,
                ;
            }
            return None;
        },
        Some(n) => {
            if n > len {
                return None;
            }
        },
    }
    let mut data: Vec<u8> = Vec::new();
    let mut y: u32 = 0;
    assert(0int * width as int * bpp == 0) by (nonlinear_arith);
    while y < height
        invariant
            len == plane@.len(),
            1 <= bpp <= 4,
            width > 0,
            height > 0,
            rows_fit(len as int, stride as int, width as int, height as int, bpp as int),
            y <= height,
            data@.len() == y as int * width as int * bpp,
            forall|xx: int, yy: int, k: int|
                0 <= xx < width && 0 <= yy < y && 0 <= k < bpp ==> #[trigger] data@[(yy * width + xx) * bpp + k]
                    == plane@[yy * stride + xx * bpp + k],
        decreases height - y,
    {
        proof {
            assert(y as int * stride as int <= (height - 1) as int * stride as int) by (nonlinear_arith)
                requires
                    y < height,
                    stride >= 0,
            ;
        }
        let row_start = (y as usize) * stride;
        let mut x: u32 = 0;
        while x < width
            invariant
                len == plane@.len(),
                1 <= bpp <= 4,
                width > 0,
                height > 0,
                y < height,
                x <= width,
                row_start == y as int * stride as int,
                row_start + width as int * bpp <= len,
                data@.len() == (y as int * width as int + x) * bpp,
                forall|xx: int, yy: int, k: int|
                    0 <= xx < width && 0 <= yy < y && 0 <= k < bpp ==> #[trigger] data@[(yy * width + xx) * bpp
                        + k] == plane@[yy * stride + xx * bpp + k],
                forall|xx: int, k: int|
                    0 <= xx < x && 0 <= k < bpp ==> #[trigger] data@[(y * width + xx) * bpp + k] == plane@[y
                        * stride + xx * bpp + k],
            decreases width - x,
        {
            proof {
                assert((x as int) * (bpp as int) + bpp as int <= width as int * bpp as int) by (nonlinear_arith)
                    requires
                        x < width,
                        bpp >= 1,
                ;
            }
            let at = row_start + (x as usize) * bpp;
            let ghost before = data@;
            let ghost base = (y as int * width as int + x as int) * bpp;
            for k in 0..bpp
                invariant
                    len == plane@.len(),
                    1 <= bpp <= 4,
                    at == row_start + x as int * bpp,
                    at + bpp <= len,
                    data@.len() == base + k,
                    before.len() == base,
                    forall|m: int| 0 <= m < base ==> #[trigger] data@[m] == before[m],
                    forall|j: int| 0 <= j < k ==> #[trigger] data@[base + j] == plane@[at + j],
            {
                data.push(plane[at + k]);
            }
            proof {
                assert(base + bpp == (y as int * width as int + x + 1) * bpp) by (nonlinear_arith)
                    requires
                        base == (y as int * width as int + x as int) * bpp,
                ;
                assert forall|xx: int, yy: int, k: int|
                    0 <= xx < width && 0 <= yy < y && 0 <= k < bpp implies #[trigger] data@[(yy * width + xx) * bpp
                        + k] == plane@[yy * stride + xx * bpp + k] by {
                    assert((yy * width + xx) * bpp + k < y * width * bpp) by (nonlinear_arith)
                        requires
                            0 <= xx < width,
                            0 <= yy < y,
                            0 <= k < bpp,
                    ;
                    assert(y * width * bpp <= base) by (nonlinear_arith)
                        requires
                            base == (y * width + x) * bpp,
                            x >= 0,
                            bpp >= 1,
                    ;
                    assert(data@[(yy * width + xx) * bpp + k] == before[(yy * width + xx) * bpp + k]);
                }
                assert forall|xx: int, k: int|
                    0 <= xx < x + 1 && 0 <= k < bpp implies #[trigger] data@[(y * width + xx) * bpp + k]
                        == plane@[y * stride + xx * bpp + k] by {
                    if xx < x {
                        assert((y * width + xx) * bpp + k < base) by (nonlinear_arith)
                            requires
                                base == (y * width + x) * bpp,
                                xx < x,
                                0 <= k < bpp,
                        ;
                        assert(data@[(y * width + xx) * bpp + k] == before[(y * width + xx) * bpp + k]);
                    } else {
                        assert((y * width + xx) * bpp + k == base + k) by (nonlinear_arith)
                            requires
                                base == (y * width + x) * bpp,
                                xx == x,
                        ;
                        assert(y * stride + xx * bpp + k == at + k);
                        assert(data@[base + k] == plane@[at + k]);
                    }
                }
            }
            x = x + 1;
        }
        proof {
            assert((y as int * width as int + width as int) * bpp == (y + 1) as int * width as int * bpp)
                by (nonlinear_arith);
        }
        y = y + 1;
    }
    proof {
        assert(height as int * width as int * bpp == width as int * height as int * bpp) by (nonlinear_arith);
    }
    Some(data)
}

} // verus!
