use image_processing::raster::Raster;
use image_processing::tone::{
    apply_rgb_curves_inplace, build_tone_curve, compute_rgb_histograms_sampled, histogram_to_cdf,
    match_histograms, ToneCurves,
};

fn raster(width: u32, height: u32, data: Vec<u8>) -> Raster {
    Raster::new(width, height, data).expect("buffer matches size")
}

fn uniform(width: u32, height: u32, rgb: [u8; 3]) -> Raster {
    let n = (width * height) as usize;
    let mut data = Vec::with_capacity(n * 3);
    for _ in 0..n {
        data.extend_from_slice(&rgb);
    }
    raster(width, height, data)
}

fn hist(entries: &[(usize, u64)]) -> Vec<u64> {
    let mut h = vec![0u64; 256];
    for &(level, count) in entries {
        h[level] = count;
    }
    h
}

#[test]
fn histograms_count_each_channel() {
    let img = raster(2, 2, vec![0, 1, 2, 0, 1, 3, 255, 1, 2, 0, 0, 0]);
    let h = compute_rgb_histograms_sampled(&img);
    assert_eq!(h.red, hist(&[(0, 3), (255, 1)]));
    assert_eq!(h.green, hist(&[(0, 1), (1, 3)]));
    assert_eq!(h.blue, hist(&[(0, 1), (2, 2), (3, 1)]));
}

#[test]
fn histograms_sample_large_rasters_at_a_fixed_stride() {
    let img = uniform(1000, 1000, [7, 8, 9]);
    let h = compute_rgb_histograms_sampled(&img);
    assert_eq!(h.red[7], 500_000);
    assert_eq!(h.green.iter().sum::<u64>(), 500_000);
    let img = uniform(1001, 1000, [7, 8, 9]);
    assert_eq!(compute_rgb_histograms_sampled(&img).blue[9], 500_500);
    let img = uniform(1000, 500, [1, 1, 1]);
    assert_eq!(compute_rgb_histograms_sampled(&img).red[1], 500_000);
}

#[test]
fn cdf_is_running_sum_over_sample_count() {
    let c = histogram_to_cdf(&hist(&[(0, 3), (255, 1)]));
    assert_eq!(c.den, 4);
    assert_eq!(c.cum[0], 3);
    assert_eq!(c.cum[128], 3);
    assert_eq!(c.cum[255], 4);
    let empty = histogram_to_cdf(&vec![0u64; 256]);
    assert_eq!(empty.den, 1);
    assert!(empty.cum.iter().all(|&v| v == 0));
}

#[test]
fn tone_curve_of_identical_rasters_is_identity() {
    let mut data = Vec::new();
    for v in 0..=255u8 {
        data.extend_from_slice(&[v, 255 - v, v]);
    }
    let img = raster(16, 16, data);
    let h = compute_rgb_histograms_sampled(&img);
    for channel in [&h.red, &h.green, &h.blue] {
        let c = histogram_to_cdf(channel);
        let curve = build_tone_curve(&c, &c);
        let identity: Vec<u8> = (0..=255u8).collect();
        assert_eq!(curve, identity);
    }
}

#[test]
fn tone_curve_of_identical_rasters_keeps_used_levels_only() {
    let c = histogram_to_cdf(&hist(&[(10, 5), (20, 5)]));
    let curve = build_tone_curve(&c, &c);
    assert_eq!(curve[0], 0);
    assert_eq!(curve[10], 10);
    assert_eq!(curve[20], 20);
    assert_eq!(curve[15], 10);
    assert_eq!(curve[255], 20);
}

#[test]
fn tone_curve_moves_a_distribution_onto_the_target() {
    let source = histogram_to_cdf(&hist(&[(10, 50)]));
    let target = histogram_to_cdf(&hist(&[(200, 7)]));
    let curve = build_tone_curve(&source, &target);
    assert_eq!(curve[0], 0);
    assert_eq!(curve[9], 0);
    assert_eq!(curve[10], 200);
    assert_eq!(curve[255], 200);
}

#[test]
fn tone_curve_ties_favour_the_higher_level() {
    let source = histogram_to_cdf(&hist(&[(0, 1), (1, 1)]));
    let target = histogram_to_cdf(&hist(&[(0, 1), (1, 2), (2, 1)]));
    let curve = build_tone_curve(&source, &target);
    assert_eq!(curve[0], 1);
    assert_eq!(curve[1], 2);
    assert_eq!(curve[100], 2);
}

#[test]
fn tone_curve_prefers_the_strictly_closer_lower_level() {
    let source = histogram_to_cdf(&hist(&[(0, 1), (1, 1)]));
    let target = histogram_to_cdf(&hist(&[(0, 2), (1, 1), (2, 7)]));
    let curve = build_tone_curve(&source, &target);
    assert_eq!(curve[0], 1);
    assert_eq!(curve[1], 2);
}

#[test]
fn curves_apply_per_channel_in_place() {
    let mut img = raster(2, 1, vec![0, 1, 2, 3, 4, 5]);
    let curves = ToneCurves {
        red: (0..=255u8).map(|v| v.wrapping_add(10)).collect(),
        green: (0..=255u8).map(|v| 255 - v).collect(),
        blue: vec![42; 256],
    };
    apply_rgb_curves_inplace(&mut img, &curves);
    assert_eq!(img.data, vec![10, 254, 42, 13, 251, 42]);
    assert_eq!((img.width, img.height), (2, 1));
}

#[test]
fn histogram_matching_needs_a_large_enough_preview() {
    let original = uniform(40, 30, [10, 20, 30]);

    let mut full = original.clone();
    let big_preview = uniform(800, 1200, [200, 100, 50]);
    assert!(match_histograms(&mut full, &big_preview));
    assert_eq!(&full.data[0..3], &[200, 100, 50]);
    assert_eq!((full.width, full.height), (40, 30));

    let mut full = original.clone();
    let small_preview = uniform(400, 600, [200, 100, 50]);
    assert!(!match_histograms(&mut full, &small_preview));
    assert_eq!(full.data, original.data);

    let mut full = original.clone();
    let thin_preview = uniform(2000, 799, [200, 100, 50]);
    assert!(!match_histograms(&mut full, &thin_preview));
    assert_eq!(full.data, original.data);
}
