use image_processing::orientation::apply_orientation;
use image_processing::raster::Raster;

/// A 3 x 2 raster whose pixel (x, y) is [10 * y + x, 0, 0].
fn sample() -> Raster {
    let mut data = Vec::new();
    for y in 0..2u8 {
        for x in 0..3u8 {
            data.extend_from_slice(&[10 * y + x, 100 + x, 200 + y]);
        }
    }
    Raster::new(3, 2, data).unwrap()
}

fn reds(r: &Raster) -> Vec<u8> {
    r.data.chunks(3).map(|p| p[0]).collect()
}

#[test]
fn orientation_one_and_absent_keep_the_raster() {
    let img = sample();
    let same = apply_orientation(img.clone(), Some(1));
    assert_eq!((same.width, same.height), (3, 2));
    assert_eq!(same.data, img.data);
    let same = apply_orientation(img.clone(), None);
    assert_eq!(same.data, img.data);
    let unknown = apply_orientation(img.clone(), Some(9));
    assert_eq!(unknown.data, img.data);
    let zero = apply_orientation(img.clone(), Some(0));
    assert_eq!(zero.data, img.data);
}

#[test]
fn orientation_codes_move_pixels() {
    // Source rows: [0 1 2] / [10 11 12].
    let cases: [(u32, (u32, u32), Vec<u8>); 7] = [
        (2, (3, 2), vec![2, 1, 0, 12, 11, 10]),
        (3, (3, 2), vec![12, 11, 10, 2, 1, 0]),
        (4, (3, 2), vec![10, 11, 12, 0, 1, 2]),
        (5, (2, 3), vec![12, 2, 11, 1, 10, 0]),
        (6, (2, 3), vec![10, 0, 11, 1, 12, 2]),
        (7, (2, 3), vec![0, 10, 1, 11, 2, 12]),
        (8, (2, 3), vec![2, 12, 1, 11, 0, 10]),
    ];
    for (code, dims, expected) in cases {
        let out = apply_orientation(sample(), Some(code));
        assert_eq!((out.width, out.height), dims, "code {}", code);
        assert_eq!(reds(&out), expected, "code {}", code);
    }
}

#[test]
fn orientation_keeps_whole_pixels_together() {
    let out = apply_orientation(sample(), Some(6));
    // Top-left of a 90 degree turn is the bottom-left source pixel (0, 1).
    assert_eq!(&out.data[0..3], &[10, 100, 201]);
}

#[test]
fn orientation_six_then_eight_restores_the_raster() {
    let img = sample();
    let turned = apply_orientation(img.clone(), Some(6));
    assert_eq!((turned.width, turned.height), (2, 3));
    let back = apply_orientation(turned, Some(8));
    assert_eq!((back.width, back.height), (3, 2));
    assert_eq!(back.data, img.data);
}
