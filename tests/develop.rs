use image_processing::batch::BatchScheduler;
use image_processing::develop::{
    encode_jpeg_rgb, extract_raw_preview, process_raw_half_size, process_raw_neutral_only,
    process_raw_with_histogram_matching,
};
use image_processing::format::{is_hidden_name, is_jpeg_data};
use image_processing::pipeline::{extract_preview_with_jpeg, EmbeddedPreview, RawPixels};
use image_processing::raster::{pack_strided_rows, Raster};
use image_processing::record::ItemError;

fn jpeg_bytes(width: u32, height: u32, rgb: [u8; 3]) -> Vec<u8> {
    let img = image::RgbImage::from_pixel(width, height, image::Rgb(rgb));
    let mut out = std::io::Cursor::new(Vec::new());
    image::DynamicImage::ImageRgb8(img).write_to(&mut out, image::ImageFormat::Jpeg).unwrap();
    out.into_inner()
}

fn pixels(width: u32, height: u32, rgb: [u8; 3]) -> RawPixels {
    let mut data = Vec::new();
    for _ in 0..(width * height) {
        data.extend_from_slice(&rgb);
    }
    RawPixels { width, height, data }
}

fn decode(bytes: &[u8]) -> image::RgbImage {
    image::load_from_memory(bytes).unwrap().into_rgb8()
}

#[test]
fn jpeg_encoding_produces_a_decodable_stream() {
    let img = Raster::new(8, 4, vec![128; 8 * 4 * 3]).unwrap();
    let bytes = encode_jpeg_rgb(&img, 90).unwrap();
    assert!(is_jpeg_data(&bytes));
    assert_ne!(bytes, img.data);
    assert_eq!(decode(&bytes).dimensions(), (8, 4));
}

#[test]
fn jpeg_encoding_of_an_oversized_raster_fails() {
    let img = Raster::new(70000, 1, vec![0; 70000 * 3]).unwrap();
    match encode_jpeg_rgb(&img, 90) {
        Err(e) => assert!(e.message().starts_with("Failed to encode JPEG: ")),
        Ok(_) => panic!("JPEG cannot hold a 70000 pixel wide image"),
    }
}

#[test]
fn neutral_and_half_size_developments() {
    let d = process_raw_neutral_only(pixels(16, 8, [10, 200, 30])).ok().unwrap();
    assert_eq!((d.width, d.height), (16, 8));
    assert!(!d.histogram_matched && d.preview_jpeg.is_none());
    assert_eq!(decode(&d.jpeg_data).dimensions(), (16, 8));
    let h = process_raw_half_size(pixels(6, 4, [1, 2, 3])).ok().unwrap();
    assert_eq!((h.width, h.height), (6, 4));
    assert!(is_jpeg_data(&h.jpeg_data));
    match process_raw_neutral_only(RawPixels { width: 2, height: 2, data: vec![0; 5] }) {
        Err(ItemError::BufferMismatch) => {}
        _ => panic!("expected a buffer mismatch"),
    }
}

#[test]
fn development_with_a_large_preview_is_matched() {
    let preview = jpeg_bytes(1200, 800, [200, 100, 50]);
    let previews = vec![EmbeddedPreview { is_jpeg: true, width: 1200, height: 800, data: preview.clone() }];
    let d = process_raw_with_histogram_matching(pixels(32, 32, [10, 20, 30]), previews).ok().unwrap();
    assert!(d.histogram_matched);
    assert_eq!(d.preview_jpeg, Some(preview));
    let px = decode(&d.jpeg_data).get_pixel(16, 16).0;
    assert!((px[0] as i32 - 200).abs() <= 8 && (px[1] as i32 - 100).abs() <= 8, "{:?}", px);

    let small = vec![EmbeddedPreview { is_jpeg: true, width: 400, height: 300, data: jpeg_bytes(400, 300, [0, 0, 0]) }];
    let d = process_raw_with_histogram_matching(pixels(32, 32, [10, 20, 30]), small).ok().unwrap();
    assert!(!d.histogram_matched);
    assert!(d.preview_jpeg.is_some());
}

#[test]
fn preview_extraction_decodes_the_largest_jpeg() {
    let big = jpeg_bytes(30, 20, [9, 9, 9]);
    let list = vec![
        EmbeddedPreview { is_jpeg: true, width: 10, height: 10, data: jpeg_bytes(10, 10, [1, 1, 1]) },
        EmbeddedPreview { is_jpeg: true, width: 30, height: 20, data: big.clone() },
        EmbeddedPreview { is_jpeg: false, width: 99, height: 99, data: vec![0; 10] },
    ];
    let (img, bytes) = extract_preview_with_jpeg(list).unwrap();
    assert_eq!((img.width, img.height), (30, 20));
    assert_eq!(img.data.len(), 30 * 20 * 3);
    assert_eq!(bytes, big);

    let broken = vec![EmbeddedPreview { is_jpeg: true, width: 10, height: 10, data: vec![0xFF, 0xD8, 0] }];
    assert!(extract_preview_with_jpeg(broken).is_none());
    assert!(extract_preview_with_jpeg(vec![]).is_none());
}

#[test]
fn raw_preview_bytes_are_returned_as_stored() {
    let list = vec![
        EmbeddedPreview { is_jpeg: true, width: 2, height: 2, data: vec![1] },
        EmbeddedPreview { is_jpeg: true, width: 3, height: 2, data: vec![2] },
        EmbeddedPreview { is_jpeg: true, width: 2, height: 3, data: vec![3] },
    ];
    assert_eq!(extract_raw_preview(list), Some(vec![3]));
    assert_eq!(extract_raw_preview(vec![EmbeddedPreview { is_jpeg: false, width: 5, height: 5, data: vec![4] }]), None);
}

#[test]
fn strided_rows_are_packed() {
    // Two rows of two RGB pixels, each row padded to 8 bytes.
    let plane = [1, 2, 3, 4, 5, 6, 0, 0, 7, 8, 9, 10, 11, 12, 0, 0];
    let r = Raster::from_strided_rows(&plane, 8, 2, 2).unwrap();
    assert_eq!(r.data, vec![1, 2, 3, 4, 5, 6, 7, 8, 9, 10, 11, 12]);
    assert!(Raster::from_strided_rows(&plane[..13], 8, 2, 2).is_none());
    assert!(Raster::from_strided_rows(&plane[..14], 8, 2, 2).is_some());
    assert_eq!(Raster::from_strided_rows(&[], 8, 0, 5).unwrap().data.len(), 0);
    assert!(Raster::from_strided_rows(&plane, usize::MAX, 1, 3).is_none());
}

#[test]
fn strided_rgba_rows_are_packed() {
    // One row of two RGBA pixels in a 12-byte row, then a second row.
    let plane = [1, 2, 3, 4, 5, 6, 7, 8, 0, 0, 0, 0, 9, 10, 11, 12, 13, 14, 15, 16];
    let data = pack_strided_rows(&plane, 12, 2, 2, 4).unwrap();
    assert_eq!(data, (1..=16).collect::<Vec<u8>>());
    assert!(pack_strided_rows(&plane[..19], 12, 2, 2, 4).is_none());
}

#[test]
fn development_fails_only_on_unencodable_sizes() {
    match process_raw_neutral_only(pixels(70000, 1, [0, 0, 0])) {
        Err(e) => assert!(e.message().starts_with("Failed to encode JPEG: ")),
        Ok(_) => panic!("JPEG cannot hold a 70000 pixel wide image"),
    }
    let empty = RawPixels { width: 0, height: 0, data: vec![] };
    assert!(process_raw_half_size(empty).is_err());
}

#[test]
fn hidden_names_and_jpeg_markers() {
    assert!(is_hidden_name(".git"));
    assert!(!is_hidden_name("photos"));
    assert!(!is_hidden_name(""));
    assert!(is_jpeg_data(&[0xFF, 0xD8, 0xFF]));
    assert!(!is_jpeg_data(&[0xFF, 0xD8]));
    assert!(!is_jpeg_data(&[0x89, 0x50, 0x4E, 0x47]));
}

#[test]
fn machine_sized_scheduler_is_bounded() {
    let s = BatchScheduler::for_this_machine(vec!["a.jpg".to_string()]);
    assert!(s.limit >= 1 && s.limit <= 4);
    assert_eq!(s.running, 0);
}
