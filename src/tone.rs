//! Histogram matching of a full RAW decode against its embedded preview.
//!
//! Cumulative distributions are kept exact: level `i` of a distribution is the
//! rational `cum[i] / den`, and every comparison between two distributions is
//! made by cross-multiplication in 128-bit integers.
use vstd::prelude::*;
use crate::raster::Raster;

verus! {

/// Number of intensity levels of an 8-bit channel.
pub const LEVELS: usize = 256;

/// Upper bound on the number of pixels sampled per raster.
pub const SAMPLE_TARGET: usize = 500000;

/// Shorter preview side from which the preview is trusted for calibration.
pub const MIN_PREVIEW_SIDE: u32 = 800;

// ---------------------------------------------------------------------------
// Histograms
// ---------------------------------------------------------------------------

/// Distance between two sampled pixels.
pub open spec fn sample_step(total: int) -> int {
    if total > SAMPLE_TARGET {
        total / (SAMPLE_TARGET as int)
    } else {
        1
    }
}

/// Number of sampled pixels among the first `n` whose channel `k` equals `v`.
pub open spec fn sample_count(data: Seq<u8>, n: int, step: int, k: int, v: int) -> int
    decreases n,
{
    if n <= 0 {
        0
    } else {
        sample_count(data, n - 1, step, k, v) + if (n - 1) % step == 0 && data[3 * (n - 1) + k] == v {
            1int
        } else {
            0int
        }
    }
}

/// Histogram of channel `k` over the sampled pixels of an RGB buffer.
pub open spec fn spec_histogram(data: Seq<u8>, k: int) -> Seq<int> {
    let total = (data.len() / 3) as int;
    Seq::new(LEVELS as nat, |v: int| sample_count(data, total, sample_step(total), k, v))
}

pub open spec fn ints(s: Seq<u64>) -> Seq<int> {
    s.map_values(|x: u64| x as int)
}

/// Per-channel histograms of a raster.
pub struct RgbHistograms {
    pub red: Vec<u64>,
    pub green: Vec<u64>,
    pub blue: Vec<u64>,
}

proof fn lemma_sample_count_bound(data: Seq<u8>, n: int, step: int, k: int, v: int)
    requires
        n >= 0,
    ensures
        0 <= sample_count(data, n, step, k, v) <= n,
    decreases n,
{
    if n > 0 {
        lemma_sample_count_bound(data, n - 1, step, k, v);
    }
}

/// Sum of the first `n` entries.
pub open spec fn prefix_sum(h: Seq<int>, n: int) -> int
    decreases n,
{
    if n <= 0 {
        0
    } else {
        prefix_sum(h, n - 1) + h[n - 1]
    }
}

proof fn lemma_prefix_sum_bump(old_h: Seq<int>, new_h: Seq<int>, value: int, n: int)
    requires
        0 <= n <= old_h.len(),
        new_h.len() == old_h.len(),
        forall|v: int| 0 <= v < old_h.len() ==> #[trigger] new_h[v] == old_h[v] + if v == value {
            1int
        } else {
            0int
        },
    ensures
        prefix_sum(new_h, n) == prefix_sum(old_h, n) + if 0 <= value < n {
            1int
        } else {
            0int
        },
    decreases n,
{
    if n > 0 {
        lemma_prefix_sum_bump(old_h, new_h, value, n - 1);
    }
}

proof fn lemma_prefix_sum_zero(h: Seq<int>, n: int)
    requires
        0 <= n <= h.len(),
        forall|v: int| 0 <= v < n ==> h[v] == 0,
    ensures
        prefix_sum(h, n) == 0,
    decreases n,
{
    if n > 0 {
        lemma_prefix_sum_zero(h, n - 1);
    }
}

/// Count one channel of one pixel into a histogram.
fn count_into(h: &mut Vec<u64>, value: u8, bound: usize)
    requires
        old(h).len() == LEVELS,
        forall|v: int| 0 <= v < LEVELS ==> old(h)@[v] < bound,
    ensures
        final(h).len() == LEVELS,
        forall|v: int|
            0 <= v < LEVELS ==> #[trigger] final(h)@[v] == old(h)@[v] + if v == value {
                1int
            } else {
                0int
            },
{
    let i = value as usize;
    let c = h[i];
    h.set(i, c + 1);
}

/// Per-channel histograms over at most about `SAMPLE_TARGET` pixels, taken at
/// a fixed stride of `total / SAMPLE_TARGET` pixels (at least 1).
pub fn compute_rgb_histograms_sampled(img: &Raster) -> (h: RgbHistograms)
    requires
        img.wf(),
    ensures
        h.red@.len() == LEVELS && h.green@.len() == LEVELS && h.blue@.len() == LEVELS,
        ints(h.red@) == spec_histogram(img.data@, 0),
        ints(h.green@) == spec_histogram(img.data@, 1),
        ints(h.blue@) == spec_histogram(img.data@, 2),
        prefix_sum(ints(h.red@), LEVELS as int) <= img.data@.len() / 3,
        prefix_sum(ints(h.green@), LEVELS as int) <= img.data@.len() / 3,
        prefix_sum(ints(h.blue@), LEVELS as int) <= img.data@.len() / 3,
{
    let len = img.data.len();
    let total = len / 3;
    let step = if total > SAMPLE_TARGET {
        total / SAMPLE_TARGET
    } else {
        1
    };
    let ghost data = img.data@;
    let mut red: Vec<u64> = Vec::new();
    let mut green: Vec<u64> = Vec::new();
    let mut blue: Vec<u64> = Vec::new();
    for v in 0..LEVELS
        invariant
            red.len() == v && green.len() == v && blue.len() == v,
            forall|j: int| 0 <= j < v ==> red@[j] == 0 && green@[j] == 0 && blue@[j] == 0,
    {
        red.push(0);
        green.push(0);
        blue.push(0);
    }
    proof {
        lemma_prefix_sum_zero(ints(red@), LEVELS as int);
        lemma_prefix_sum_zero(ints(green@), LEVELS as int);
        lemma_prefix_sum_zero(ints(blue@), LEVELS as int);
    }
    for i in 0..total
        invariant
            data == img.data@,
            len == data.len(),
            total == data.len() / 3,
            step == sample_step(total as int),
            step >= 1,
            red.len() == LEVELS && green.len() == LEVELS && blue.len() == LEVELS,
            prefix_sum(ints(red@), LEVELS as int) <= i,
            prefix_sum(ints(green@), LEVELS as int) <= i,
            prefix_sum(ints(blue@), LEVELS as int) <= i,
            forall|v: int|
                0 <= v < LEVELS ==> #[trigger] red@[v] == sample_count(data, i as int, step as int, 0, v),
            forall|v: int|
                0 <= v < LEVELS ==> #[trigger] green@[v] == sample_count(data, i as int, step as int, 1, v),
            forall|v: int|
                0 <= v < LEVELS ==> #[trigger] blue@[v] == sample_count(data, i as int, step as int, 2, v),
    {
        proof {
            assert forall|v: int| 0 <= v < LEVELS implies red@[v] <= i && green@[v] <= i && blue@[v]
                <= i by {
                lemma_sample_count_bound(data, i as int, step as int, 0, v);
                lemma_sample_count_bound(data, i as int, step as int, 1, v);
                lemma_sample_count_bound(data, i as int, step as int, 2, v);
            }
        }
        assert(3 * i + 3 <= data.len()) by (nonlinear_arith)
            requires
                i < total,
                total == data.len() / 3,
        ;
        if i % step == 0 {
            let base = 3 * i;
            let ghost (r0, g0, b0) = (red@, green@, blue@);
            count_into(&mut red, img.data[base], i + 1);
            count_into(&mut green, img.data[base + 1], i + 1);
            count_into(&mut blue, img.data[base + 2], i + 1);
            proof {
                lemma_prefix_sum_bump(ints(r0), ints(red@), data[3 * i as int] as int, LEVELS as int);
                lemma_prefix_sum_bump(ints(g0), ints(green@), data[3 * i + 1] as int, LEVELS as int);
                lemma_prefix_sum_bump(ints(b0), ints(blue@), data[3 * i + 2] as int, LEVELS as int);
            }
        }
        assert forall|v: int| 0 <= v < LEVELS implies #[trigger] red@[v] == sample_count(
            data,
            i + 1,
            step as int,
            0,
            v,
        ) by {}
        assert forall|v: int| 0 <= v < LEVELS implies #[trigger] green@[v] == sample_count(
            data,
            i + 1,
            step as int,
            1,
            v,
        ) by {}
        assert forall|v: int| 0 <= v < LEVELS implies #[trigger] blue@[v] == sample_count(
            data,
            i + 1,
            step as int,
            2,
            v,
        ) by {}
    }
    assert(ints(red@) =~= spec_histogram(data, 0));
    assert(ints(green@) =~= spec_histogram(data, 1));
    assert(ints(blue@) =~= spec_histogram(data, 2));
    RgbHistograms { red, green, blue }
}


// ---------------------------------------------------------------------------
// Cumulative distributions
// ---------------------------------------------------------------------------

/// Running sums of a histogram: level `i` counts the samples at or below `i`.
pub open spec fn spec_cum(h: Seq<int>) -> Seq<int> {
    Seq::new(LEVELS as nat, |i: int| prefix_sum(h, i + 1))
}

/// Common denominator of a distribution: the number of samples, or 1 when
/// there are none (every level is then 0).
pub open spec fn spec_den(h: Seq<int>) -> int {
    if prefix_sum(h, LEVELS as int) == 0 {
        1
    } else {
        prefix_sum(h, LEVELS as int)
    }
}

/// A normalised cumulative distribution: level `i` has the value `cum[i] / den`.
pub struct Cdf {
    pub cum: Vec<u64>,
    pub den: u64,
}

impl Cdf {
    pub open spec fn wf(&self) -> bool {
        &&& self.cum@.len() == LEVELS
        &&& self.den >= 1
        &&& forall|i: int, j: int| 0 <= i <= j < LEVELS ==> self.cum@[i] <= self.cum@[j]
        &&& forall|i: int| 0 <= i < LEVELS ==> self.cum@[i] <= self.den
    }

    pub open spec fn levels(&self) -> Seq<int> {
        ints(self.cum@)
    }
}

proof fn lemma_prefix_monotone(h: Seq<int>, a: int, b: int)
    requires
        0 <= a <= b <= h.len(),
        forall|v: int| 0 <= v < h.len() ==> h[v] >= 0,
    ensures
        prefix_sum(h, a) <= prefix_sum(h, b),
    decreases b - a,
{
    if a < b {
        lemma_prefix_monotone(h, a, b - 1);
    }
}

/// Cumulative distribution of a histogram, normalised by its number of samples.
pub fn histogram_to_cdf(histogram: &Vec<u64>) -> (c: Cdf)
    requires
        histogram@.len() == LEVELS,
        prefix_sum(ints(histogram@), LEVELS as int) <= u64::MAX,
    ensures
        c.wf(),
        c.levels() == spec_cum(ints(histogram@)),
        c.den == spec_den(ints(histogram@)),
{
    let ghost h = ints(histogram@);
    assert forall|v: int| 0 <= v < h.len() implies h[v] >= 0 by {}
    let mut cum: Vec<u64> = Vec::new();
    let mut running: u64 = 0;
    for i in 0..LEVELS
        invariant
            histogram@.len() == LEVELS,
            h == ints(histogram@),
            forall|v: int| 0 <= v < h.len() ==> h[v] >= 0,
            prefix_sum(h, LEVELS as int) <= u64::MAX,
            running == prefix_sum(h, i as int),
            cum@.len() == i,
            forall|j: int| 0 <= j < i ==> cum@[j] == prefix_sum(h, j + 1),
    {
        proof {
            lemma_prefix_monotone(h, i + 1, LEVELS as int);
        }
        running = running + histogram[i];
        cum.push(running);
    }
    let den = if running == 0 {
        1
    } else {
        running
    };
    proof {
        assert forall|i: int, j: int| 0 <= i <= j < LEVELS implies cum@[i] <= cum@[j] by {
            lemma_prefix_monotone(h, i + 1, j + 1);
        }
        assert forall|i: int| 0 <= i < LEVELS implies cum@[i] <= den by {
            lemma_prefix_monotone(h, i + 1, LEVELS as int);
        }
        assert(ints(cum@) =~= spec_cum(h));
    }
    Cdf { cum, den }
}

// ---------------------------------------------------------------------------
// Tone curves
// ---------------------------------------------------------------------------

/// Level `j` of the target lies strictly below level `i` of the source.
pub open spec fn below(t: Seq<int>, td: int, s: Seq<int>, sd: int, j: int, i: int) -> bool {
    t[j] * sd < s[i] * td
}

/// First target level from `j` on that is not below source level `i`; the top
/// level when there is none.
pub open spec fn lower_bound_from(t: Seq<int>, td: int, s: Seq<int>, sd: int, i: int, j: int) -> int
    decreases LEVELS - 1 - j,
{
    if j >= LEVELS - 1 {
        LEVELS - 1
    } else if !below(t, td, s, sd, j, i) {
        j
    } else {
        lower_bound_from(t, td, s, sd, i, j + 1)
    }
}

/// Distance between source level `i` and target level `j`, scaled by the
/// product of the two denominators.
pub open spec fn gap(t: Seq<int>, td: int, s: Seq<int>, sd: int, j: int, i: int) -> int {
    let d = s[i] * td - t[j] * sd;
    if d >= 0 {
        d
    } else {
        -d
    }
}

/// The target level whose cumulative value is closest to that of source level
/// `i`: the lower bound, or the level just under it when that one is strictly
/// closer.
pub open spec fn curve_level(s: Seq<int>, sd: int, t: Seq<int>, td: int, i: int) -> int {
    let l = lower_bound_from(t, td, s, sd, i, 0);
    if l > 0 && gap(t, td, s, sd, l - 1, i) < gap(t, td, s, sd, l, i) {
        l - 1
    } else {
        l
    }
}

pub open spec fn spec_tone_curve(s: Seq<int>, sd: int, t: Seq<int>, td: int) -> Seq<int> {
    Seq::new(LEVELS as nat, |i: int| curve_level(s, sd, t, td, i))
}

proof fn lemma_lower_bound(t: Seq<int>, td: int, s: Seq<int>, sd: int, i: int, l: int, j: int)
    requires
        0 <= j <= l <= LEVELS - 1,
        forall|m: int| j <= m < l ==> #[trigger] below(t, td, s, sd, m, i),
        l == LEVELS - 1 || !below(t, td, s, sd, l, i),
    ensures
        lower_bound_from(t, td, s, sd, i, j) == l,
    decreases l - j,
{
    if j < l {
        lemma_lower_bound(t, td, s, sd, i, l, j + 1);
    }
}

fn mul_wide(a: u64, b: u64) -> (r: u128)
    ensures
        r == a as int * b as int,
{
    assert(a as int * b as int <= u64::MAX as int * u64::MAX as int) by (nonlinear_arith)
        requires
            a <= u64::MAX,
            b <= u64::MAX,
    ;
    (a as u128) * (b as u128)
}

fn abs_diff(x: u128, y: u128) -> (r: u128)
    ensures
        r == if x >= y {
            x - y
        } else {
            y - x
        },
{
    if x >= y {
        x - y
    } else {
        y - x
    }
}

/// Curve entry for source level `i`, by binary search over the monotonic target.
fn level_for(src: &Cdf, tgt: &Cdf, i: usize) -> (r: u8)
    requires
        src.wf(),
        tgt.wf(),
        i < LEVELS,
    ensures
        r == curve_level(src.levels(), src.den as int, tgt.levels(), tgt.den as int, i as int),
{
    let ghost (s, sd, t, td) = (src.levels(), src.den as int, tgt.levels(), tgt.den as int);
    let sv = mul_wide(src.cum[i], tgt.den);
    let mut low: usize = 0;
    let mut high: usize = LEVELS - 1;
    while low < high
        invariant
            src.wf(),
            tgt.wf(),
            s == src.levels() && sd == src.den && t == tgt.levels() && td == tgt.den,
            i < LEVELS,
            sv == s[i as int] * td,
            low <= high <= LEVELS - 1,
            forall|m: int| 0 <= m < low ==> #[trigger] below(t, td, s, sd, m, i as int),
            high == LEVELS - 1 || !below(t, td, s, sd, high as int, i as int),
        decreases high - low,
    {
        let mid = (low + high) / 2;
        if mul_wide(tgt.cum[mid], src.den) < sv {
            proof {
                assert forall|m: int| 0 <= m <= mid implies #[trigger] below(t, td, s, sd, m, i as int) by {
                    vstd::arithmetic::mul::lemma_mul_inequality(t[m], t[mid as int], sd);
                }
            }
            low = mid + 1;
        } else {
            high = mid;
        }
    }
    proof {
        lemma_lower_bound(t, td, s, sd, i as int, low as int, 0);
    }
    if low > 0 {
        let below_gap = abs_diff(sv, mul_wide(tgt.cum[low - 1], src.den));
        let at_gap = abs_diff(sv, mul_wide(tgt.cum[low], src.den));
        if below_gap < at_gap {
            return (low - 1) as u8;
        }
    }
    low as u8
}

/// A 256-entry lookup table mapping each source level to the target level
/// whose cumulative value is closest.
pub fn build_tone_curve(source_cdf: &Cdf, target_cdf: &Cdf) -> (curve: Vec<u8>)
    requires
        source_cdf.wf(),
        target_cdf.wf(),
    ensures
        curve@.len() == LEVELS,
        forall|i: int|
            0 <= i < LEVELS ==> #[trigger] curve@[i] == curve_level(
                source_cdf.levels(),
                source_cdf.den as int,
                target_cdf.levels(),
                target_cdf.den as int,
                i,
            ),
{
    let mut curve: Vec<u8> = Vec::new();
    for i in 0..LEVELS
        invariant
            source_cdf.wf(),
            target_cdf.wf(),
            curve@.len() == i,
            forall|j: int|
                0 <= j < i ==> #[trigger] curve@[j] == curve_level(
                    source_cdf.levels(),
                    source_cdf.den as int,
                    target_cdf.levels(),
                    target_cdf.den as int,
                    j,
                ),
    {
        curve.push(level_for(source_cdf, target_cdf, i));
    }
    curve
}


/// Tone curve of channel `k` that maps the distribution of `source` onto
/// that of `target` (both interleaved RGB buffers).
pub open spec fn spec_channel_curve(source: Seq<u8>, target: Seq<u8>, k: int) -> Seq<int> {
    let hs = spec_histogram(source, k);
    let ht = spec_histogram(target, k);
    spec_tone_curve(spec_cum(hs), spec_den(hs), spec_cum(ht), spec_den(ht))
}

proof fn lemma_histogram_nonnegative(data: Seq<u8>, k: int)
    ensures
        forall|v: int| 0 <= v < LEVELS ==> #[trigger] spec_histogram(data, k)[v] >= 0,
{
    assert forall|v: int| 0 <= v < LEVELS implies #[trigger] spec_histogram(data, k)[v] >= 0 by {
        let total = (data.len() / 3) as int;
        lemma_sample_count_bound(data, total, sample_step(total), k, v);
    }
}

/// Matching a distribution against itself keeps every level that holds at
/// least one sample (and level 0): the curve maps such a level `i` to `i`.
pub proof fn lemma_self_match_keeps_level(h: Seq<int>, i: int)
    requires
        h.len() == LEVELS,
        forall|v: int| 0 <= v < LEVELS ==> h[v] >= 0,
        0 <= i < LEVELS,
        i == 0 || h[i] > 0,
    ensures
        spec_tone_curve(spec_cum(h), spec_den(h), spec_cum(h), spec_den(h))[i] == i,
{
    let c = spec_cum(h);
    let d = spec_den(h);
    assert(d >= 1) by {
        lemma_prefix_monotone(h, 0, LEVELS as int);
    }
    assert forall|m: int| 0 <= m < i implies #[trigger] below(c, d, c, d, m, i) by {
        lemma_prefix_monotone(h, m + 1, i);
        vstd::arithmetic::mul::lemma_mul_strict_inequality(c[m], c[i], d);
    }
    lemma_lower_bound(c, d, c, d, i, i, 0);
}

/// Histogram matching of two identical rasters: in every channel, the tone
/// curve is the identity on level 0 and on every level that the sampled
/// pixels use. When every level from 1 to 255 is used, the curve is the
/// identity (`curve[i] == i` for all `i`).
pub proof fn lemma_identical_rasters_identity_curve(data: Seq<u8>, k: int)
    requires
        0 <= k < 3,
    ensures
        forall|i: int|
            0 <= i < LEVELS && (i == 0 || spec_histogram(data, k)[i] > 0) ==> #[trigger] spec_channel_curve(
                data,
                data,
                k,
            )[i] == i,
        (forall|i: int| 1 <= i < LEVELS ==> #[trigger] spec_histogram(data, k)[i] > 0) ==> spec_channel_curve(
            data,
            data,
            k,
        ) == Seq::new(LEVELS as nat, |i: int| i),
{
    let h = spec_histogram(data, k);
    lemma_histogram_nonnegative(data, k);
    assert forall|i: int|
        0 <= i < LEVELS && (i == 0 || spec_histogram(data, k)[i] > 0) implies #[trigger] spec_channel_curve(
        data,
        data,
        k,
    )[i] == i by {
        lemma_self_match_keeps_level(h, i);
    }
    if forall|i: int| 1 <= i < LEVELS ==> #[trigger] spec_histogram(data, k)[i] > 0 {
        assert forall|i: int| 0 <= i < LEVELS implies spec_channel_curve(data, data, k)[i] == i by {
            lemma_self_match_keeps_level(h, i);
        }
        assert(spec_channel_curve(data, data, k) =~= Seq::new(LEVELS as nat, |i: int| i));
    }
}

// ---------------------------------------------------------------------------
// Correction
// ---------------------------------------------------------------------------

pub open spec fn bytes(s: Seq<u8>) -> Seq<int> {
    s.map_values(|x: u8| x as int)
}

/// Every channel value of an interleaved RGB buffer sent through its
/// channel's lookup table.
pub open spec fn remap(data: Seq<u8>, red: Seq<int>, green: Seq<int>, blue: Seq<int>) -> Seq<int> {
    Seq::new(
        data.len(),
        |j: int|
            {
                let v = data[j] as int;
                if j % 3 == 0 {
                    red[v]
                } else if j % 3 == 1 {
                    green[v]
                } else {
                    blue[v]
                }
            },
    )
}

/// One lookup table per channel.
pub struct ToneCurves {
    pub red: Vec<u8>,
    pub green: Vec<u8>,
    pub blue: Vec<u8>,
}

impl ToneCurves {
    pub open spec fn wf(&self) -> bool {
        self.red@.len() == LEVELS && self.green@.len() == LEVELS && self.blue@.len() == LEVELS
    }
}

/// Remap every pixel through the per-channel curves, in place.
pub fn apply_rgb_curves_inplace(img: &mut Raster, curves: &ToneCurves)
    requires
        curves.wf(),
    ensures
        final(img).width == old(img).width,
        final(img).height == old(img).height,
        bytes(final(img).data@) == remap(
            old(img).data@,
            bytes(curves.red@),
            bytes(curves.green@),
            bytes(curves.blue@),
        ),
{
    let ghost before = img.data@;
    let len = img.data.len();
    for j in 0..len
        invariant
            curves.wf(),
            len == before.len(),
            img.data@.len() == len,
            img.width == old(img).width,
            img.height == old(img).height,
            before == old(img).data@,
            forall|m: int|
                0 <= m < j ==> #[trigger] img.data@[m] as int == remap(
                    before,
                    bytes(curves.red@),
                    bytes(curves.green@),
                    bytes(curves.blue@),
                )[m],
            forall|m: int| j <= m < len ==> #[trigger] img.data@[m] == before[m],
    {
        let v = img.data[j] as usize;
        let k = j % 3;
        let mapped = if k == 0 {
            curves.red[v]
        } else if k == 1 {
            curves.green[v]
        } else {
            curves.blue[v]
        };
        img.data.set(j, mapped);
    }
    assert(bytes(img.data@) =~= remap(before, bytes(curves.red@), bytes(curves.green@), bytes(curves.blue@)));
}

fn channel_curve(source: &Vec<u64>, target: &Vec<u64>, limit: usize) -> (curve: Vec<u8>)
    requires
        source@.len() == LEVELS,
        target@.len() == LEVELS,
        prefix_sum(ints(source@), LEVELS as int) <= limit,
        prefix_sum(ints(target@), LEVELS as int) <= limit,
    ensures
        curve@.len() == LEVELS,
        bytes(curve@) == spec_tone_curve(
            spec_cum(ints(source@)),
            spec_den(ints(source@)),
            spec_cum(ints(target@)),
            spec_den(ints(target@)),
        ),
{
    let s = histogram_to_cdf(source);
    let t = histogram_to_cdf(target);
    let curve = build_tone_curve(&s, &t);
    assert(bytes(curve@) =~= spec_tone_curve(
        spec_cum(ints(source@)),
        spec_den(ints(source@)),
        spec_cum(ints(target@)),
        spec_den(ints(target@)),
    ));
    curve
}

/// Reconcile a full decode with its embedded preview: when the preview's
/// shorter side is at least `MIN_PREVIEW_SIDE`, build one tone curve per
/// channel from the two rasters' sampled distributions and apply them to
/// `full` in place. Returns whether matching was applied; otherwise `full`
/// is left as it was.
pub fn match_histograms(full: &mut Raster, preview: &Raster) -> (matched: bool)
    requires
        old(full).wf(),
        preview.wf(),
    ensures
        matched == (preview.width >= MIN_PREVIEW_SIDE && preview.height >= MIN_PREVIEW_SIDE),
        final(full).width == old(full).width,
        final(full).height == old(full).height,
        final(full).wf(),
        matched ==> bytes(final(full).data@) == remap(
            old(full).data@,
            spec_channel_curve(old(full).data@, preview.data@, 0),
            spec_channel_curve(old(full).data@, preview.data@, 1),
            spec_channel_curve(old(full).data@, preview.data@, 2),
        ),
        !matched ==> final(full).data@ == old(full).data@,
{
    let shorter = if preview.width < preview.height {
        preview.width
    } else {
        preview.height
    };
    if shorter < MIN_PREVIEW_SIDE {
        return false;
    }
    let full_len = full.data.len();
    let preview_len = preview.data.len();
    let limit = if full_len > preview_len {
        full_len
    } else {
        preview_len
    };
    let source = compute_rgb_histograms_sampled(full);
    let target = compute_rgb_histograms_sampled(preview);
    let curves = ToneCurves {
        red: channel_curve(&source.red, &target.red, limit),
        green: channel_curve(&source.green, &target.green, limit),
        blue: channel_curve(&source.blue, &target.blue, limit),
    };
    let ghost before = full.data@;
    apply_rgb_curves_inplace(full, &curves);
    proof {
        assert(bytes(full.data@).len() == before.len());
    }
    true
}

} // verus!
