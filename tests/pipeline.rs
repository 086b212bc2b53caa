use image_processing::artifacts::{EmbeddingInput, EMBEDDING_DIM};
use image_processing::batch::{max_concurrent, pool_size_for, BatchScheduler};
use image_processing::pipeline::{
    select_largest_jpeg, Action, DecodedImage, EmbeddedPreview, PhotoItem, RawPixels, Stage,
};
use image_processing::raster::Raster;
use image_processing::record::{ExifData, FileFacts, ItemError, PhotoProcessingResult};

fn facts() -> FileFacts {
    FileFacts { size: 1234, created_at: 1_700_000_000_000, modified_at: 1_700_000_000_500 }
}

fn uniform(width: u32, height: u32, rgb: [u8; 3]) -> Raster {
    let mut data = Vec::new();
    for _ in 0..(width * height) {
        data.extend_from_slice(&rgb);
    }
    Raster::new(width, height, data).unwrap()
}

fn exif_with_orientation(code: u32) -> ExifData {
    ExifData {
        camera_make: Some("Canon".to_string()),
        camera_model: None,
        lens_make: None,
        lens_model: None,
        focal_length: Some(35),
        iso: Some(100),
        aperture: None,
        shutter_speed: None,
        exposure_bias: None,
        date_taken: None,
        gps_latitude_bits: None,
        gps_longitude_bits: None,
        gps_altitude_bits: None,
        orientation: Some(code),
    }
}

fn jpeg_bytes(width: u32, height: u32, rgb: [u8; 3]) -> Vec<u8> {
    let img = image::RgbImage::from_pixel(width, height, image::Rgb(rgb));
    let mut out = std::io::Cursor::new(Vec::new());
    image::DynamicImage::ImageRgb8(img).write_to(&mut out, image::ImageFormat::Jpeg).unwrap();
    out.into_inner()
}

fn finished(action: Action) -> PhotoProcessingResult {
    match action {
        Action::Finish(r) => r,
        _ => panic!("expected a finished item"),
    }
}

/// Drive a standard item through to its record, decoding to `raster`.
fn run_standard(path: &str, rel: &str, raster: Raster, embedding: Option<Vec<u32>>) -> PhotoProcessingResult {
    let (item, action) = PhotoItem::start(path.to_string(), rel.to_string(), "/thumbs".to_string());
    assert!(matches!(action, Action::ReadFileFacts));
    let (item, action) = item.on_file_facts(Ok(facts()));
    assert!(matches!(action, Action::ReadCaptureMetadata));
    let (item, action) = item.on_capture_metadata(Some(exif_with_orientation(6)));
    assert!(matches!(action, Action::DecodeImage { high_efficiency: false }));
    let (item, action) = item.on_decoded(Ok(DecodedImage { raster, mime_type: Some("image/jpeg".to_string()) }));
    match action {
        Action::ProduceArtifacts { thumbnails, embedding_input } => {
            assert_eq!(thumbnails.len(), 4);
            assert_eq!(thumbnails[0].path, "/thumbs/tiny/2024/a.webp");
            assert!(matches!(embedding_input, EmbeddingInput::Pixels(_)));
        }
        _ => panic!("expected artifact generation"),
    }
    assert_eq!(item.stage, Stage::ArtifactGeneration);
    let (item, action) = item.on_embedding(embedding);
    assert_eq!(item.stage, Stage::Done);
    finished(action)
}

#[test]
fn standard_item_succeeds_with_oriented_dimensions() {
    let rec = run_standard("/p/2024/a.jpg", "2024/a.jpg", uniform(30, 20, [1, 2, 3]), None);
    assert!(rec.success);
    assert_eq!(rec.error, None);
    assert_eq!((rec.width, rec.height), (Some(20), Some(30)));
    assert_eq!(rec.path, "2024/a.jpg");
    assert_eq!(rec.name, "a.jpg");
    assert_eq!(rec.size, 1234);
    assert_eq!(rec.created_at, 1_700_000_000_000);
    assert_eq!(rec.mime_type.as_deref(), Some("image/jpeg"));
    assert!(rec.phash.as_ref().map_or(false, |h| !h.is_empty()));
    assert!(!rec.is_raw);
    assert_eq!(rec.raw_status, None);
    assert_eq!(rec.exif.as_ref().and_then(|e| e.orientation), Some(6));
}

#[test]
fn embedding_of_the_fixed_dimension_is_kept_and_others_dropped() {
    let good = vec![0x3f80_0000u32; EMBEDDING_DIM];
    let rec = run_standard("/p/2024/a.jpg", "2024/a.jpg", uniform(4, 4, [9, 9, 9]), Some(good.clone()));
    assert_eq!(rec.clip_embedding, Some(good));
    let rec = run_standard("/p/2024/a.jpg", "2024/a.jpg", uniform(4, 4, [9, 9, 9]), Some(vec![0; 511]));
    assert!(rec.success);
    assert_eq!(rec.clip_embedding, None);
}

#[test]
fn unsupported_item_fails_after_reading_its_facts() {
    let (item, action) = PhotoItem::start("/p/notes.txt".to_string(), "notes.txt".to_string(), "/t".to_string());
    assert!(matches!(action, Action::ReadFileFacts));
    let (item, action) = item.on_file_facts(Ok(facts()));
    assert_eq!(item.stage, Stage::Failed);
    let rec = finished(action);
    assert!(!rec.success);
    assert_eq!(rec.error.as_deref(), Some("Unsupported file type"));
    assert_eq!((rec.width, rec.height), (None, None));
    assert_eq!(rec.name, "notes.txt");
    assert_eq!(rec.size, 1234);
    assert_eq!(rec.created_at, 1_700_000_000_000);
    assert_eq!(rec.modified_at, 1_700_000_000_500);
    assert_eq!(rec.raw_status, None);
}

#[test]
fn unsupported_item_without_facts_reports_zero_size() {
    let (item, _) = PhotoItem::start("/p/notes.txt".to_string(), "notes.txt".to_string(), "/t".to_string());
    let (_, action) = item.on_file_facts(Err("No such file".to_string()));
    let rec = finished(action);
    assert_eq!(rec.error.as_deref(), Some("Unsupported file type"));
    assert_eq!((rec.size, rec.created_at, rec.modified_at), (0, 0, 0));
}

#[test]
fn metadata_failure_of_a_raw_file() {
    let (item, _) = PhotoItem::start("/p/IMG_1.CR2".to_string(), "IMG_1.CR2".to_string(), "/t".to_string());
    let (item, action) = item.on_file_facts(Err("No such file".to_string()));
    assert_eq!(item.stage, Stage::Failed);
    let rec = finished(action);
    assert!(!rec.success && rec.is_raw);
    assert_eq!(rec.error.as_deref(), Some("Failed to read file metadata: No such file"));
    assert_eq!(rec.raw_error, rec.error);
    assert_eq!(rec.raw_status.as_deref(), Some("failed"));
    assert_eq!(rec.raw_format.as_deref(), Some("CR2"));
    assert_eq!(rec.mime_type.as_deref(), Some("image/x-cr2"));
    assert_eq!((rec.width, rec.height), (None, None));
}

#[test]
fn decode_failure_keeps_capture_metadata() {
    let (item, _) = PhotoItem::start("/p/b.png".to_string(), "b.png".to_string(), "/t".to_string());
    let (item, _) = item.on_file_facts(Ok(facts()));
    let (item, _) = item.on_capture_metadata(Some(exif_with_orientation(1)));
    let (_, action) = item.on_decoded(Err("bad header".to_string()));
    let rec = finished(action);
    assert!(!rec.success);
    assert_eq!(rec.error.as_deref(), Some("Failed to decode image: bad header"));
    assert_eq!(rec.size, 1234);
    assert!(rec.exif.is_some());
    assert_eq!(rec.raw_status, None);
}

#[test]
fn high_efficiency_item_is_tagged_heic() {
    let (item, _) = PhotoItem::start("/p/c.HEIC".to_string(), "c.HEIC".to_string(), "/t".to_string());
    let (item, _) = item.on_file_facts(Ok(facts()));
    let (item, action) = item.on_capture_metadata(None);
    assert!(matches!(action, Action::DecodeImage { high_efficiency: true }));
    let (item, _) = item.on_decoded(Ok(DecodedImage { raster: uniform(5, 3, [0, 0, 0]), mime_type: None }));
    let rec = finished(item.on_embedding(None).1);
    assert_eq!(rec.mime_type.as_deref(), Some("image/heic"));
    assert_eq!((rec.width, rec.height), (Some(5), Some(3)));
}

fn run_raw(preview: Option<(u32, u32)>) -> (PhotoItem, Action) {
    let (item, _) = PhotoItem::start("/p/DSC_1.nef".to_string(), "DSC_1.nef".to_string(), "/t".to_string());
    let (item, _) = item.on_file_facts(Ok(facts()));
    let (item, action) = item.on_capture_metadata(None);
    assert!(matches!(action, Action::ScanPreviews));
    let previews = match preview {
        Some((w, h)) => vec![
            EmbeddedPreview { is_jpeg: true, width: 160, height: 120, data: jpeg_bytes(160, 120, [0, 0, 0]) },
            EmbeddedPreview { is_jpeg: true, width: w, height: h, data: jpeg_bytes(w, h, [200, 120, 60]) },
            EmbeddedPreview { is_jpeg: false, width: 9000, height: 9000, data: vec![1, 2, 3] },
        ],
        None => vec![],
    };
    let (item, action) = item.on_previews(Ok(previews));
    assert!(matches!(action, Action::DecodeRaw));
    let full = uniform(64, 48, [20, 40, 80]);
    item.on_raw_pixels(Ok(RawPixels { width: 64, height: 48, data: full.data }))
}

#[test]
fn raw_item_with_large_preview_is_histogram_matched() {
    let (item, action) = run_raw(Some((1200, 800)));
    assert!(item.histogram_matched);
    let done_flag = item.histogram_matched;
    match action {
        Action::ProduceArtifacts { embedding_input, .. } => {
            assert!(matches!(embedding_input, EmbeddingInput::Encoded(ref b) if b.len() > 2 && b[0] == 0xFF && b[1] == 0xD8));
        }
        _ => panic!("expected artifact generation"),
    }
    let (done, action) = item.on_embedding(None);
    assert!(done.histogram_matched && done_flag);
    let rec = finished(action);
    assert!(rec.success && rec.is_raw);
    assert_eq!(rec.raw_status.as_deref(), Some("converted"));
    assert_eq!(rec.raw_error, None);
    assert_eq!(rec.raw_format.as_deref(), Some("NEF"));
    assert_eq!(rec.mime_type.as_deref(), Some("image/x-nef"));
    assert_eq!((rec.width, rec.height), (Some(64), Some(48)));
}

#[test]
fn raw_item_with_small_preview_is_not_matched() {
    let (item, _) = run_raw(Some((600, 400)));
    assert!(!item.histogram_matched);
}

#[test]
fn raw_item_without_preview_embeds_the_raster() {
    let (item, action) = run_raw(None);
    assert!(!item.histogram_matched);
    match action {
        Action::ProduceArtifacts { embedding_input, .. } => {
            assert!(matches!(embedding_input, EmbeddingInput::Pixels(ref r) if r.width == 64));
        }
        _ => panic!("expected artifact generation"),
    }
}

#[test]
fn raw_buffer_of_wrong_size_fails() {
    let (item, _) = PhotoItem::start("/p/x.dng".to_string(), "x.dng".to_string(), "/t".to_string());
    let (item, _) = item.on_file_facts(Ok(facts()));
    let (item, _) = item.on_capture_metadata(None);
    let (item, _) = item.on_previews(Ok(vec![]));
    let (_, action) = item.on_raw_pixels(Ok(RawPixels { width: 4, height: 4, data: vec![0; 47] }));
    let rec = finished(action);
    assert_eq!(rec.error.as_deref(), Some("Failed to create image buffer"));
    assert_eq!(rec.raw_status.as_deref(), Some("failed"));
}

#[test]
fn raw_stage_errors_are_reported_by_kind() {
    let (item, _) = PhotoItem::start("/p/x.arw".to_string(), "x.arw".to_string(), "/t".to_string());
    let (item, _) = item.on_file_facts(Ok(facts()));
    let (item, _) = item.on_capture_metadata(None);
    let (_, action) = item.on_previews(Err(ItemError::ContainerOpenFailed("corrupt".to_string())));
    assert_eq!(finished(action).error.as_deref(), Some("Failed to open RAW: corrupt"));

    let (item, _) = PhotoItem::start("/p/x.arw".to_string(), "x.arw".to_string(), "/t".to_string());
    let (item, _) = item.on_file_facts(Ok(facts()));
    let (item, _) = item.on_capture_metadata(None);
    let (item, _) = item.on_previews(Ok(vec![]));
    let (_, action) = item.on_raw_pixels(Err(ItemError::UnpackFailed("io".to_string())));
    let rec = finished(action);
    assert_eq!(rec.error.as_deref(), Some("Failed to unpack RAW: io"));
    assert_eq!(rec.raw_error.as_deref(), Some("Failed to unpack RAW: io"));
}

#[test]
fn every_error_kind_has_its_text() {
    let cases = [
        (ItemError::MetadataUnreadable("e".to_string()), "Failed to read file metadata: e"),
        (ItemError::DecodeFailed("e".to_string()), "Failed to decode image: e"),
        (ItemError::FileUnreadable("e".to_string()), "Failed to read file: e"),
        (ItemError::ContainerOpenFailed("e".to_string()), "Failed to open RAW: e"),
        (ItemError::FileUnreadableForProcessing("e".to_string()), "Failed to read file for processing: e"),
        (ItemError::ContainerReopenFailed("e".to_string()), "Failed to open RAW for processing: e"),
        (ItemError::UnpackFailed("e".to_string()), "Failed to unpack RAW: e"),
        (ItemError::DemosaicFailed("e".to_string()), "Failed to process RAW: e"),
        (ItemError::BufferMismatch, "Failed to create image buffer"),
        (ItemError::UnsupportedFileType, "Unsupported file type"),
    ];
    for (e, text) in cases {
        assert_eq!(e.message(), text);
    }
}

#[test]
fn largest_jpeg_preview_is_selected_last_among_equals() {
    let p = |is_jpeg: bool, w: u32, h: u32| EmbeddedPreview { is_jpeg, width: w, height: h, data: vec![] };
    assert_eq!(select_largest_jpeg(&vec![]), None);
    assert_eq!(select_largest_jpeg(&vec![p(false, 10, 10)]), None);
    assert_eq!(select_largest_jpeg(&vec![p(true, 10, 10), p(true, 20, 5), p(false, 99, 99), p(true, 5, 5)]), Some(1));
    assert_eq!(select_largest_jpeg(&vec![p(true, 70000, 70000), p(true, 1, 1)]), Some(0));
}

#[test]
fn batch_scenario_with_an_unsupported_middle_item() {
    let paths = ["/p/a.jpg", "/p/b.xyz", "/p/c.png"];
    let rels: Vec<String> = ["a.jpg", "b.xyz", "c.png"].iter().map(|s| s.to_string()).collect();
    let mut sched = BatchScheduler::new(rels.clone(), 2);
    let mut out_of_order = Vec::new();
    while let Some(i) = sched.try_dispatch() {
        out_of_order.push(i);
    }
    assert_eq!(out_of_order, vec![0, 1]);
    // Finish item 1 first, then 0, then dispatch and finish 2.
    for i in [1usize, 0] {
        let rec = run_item(paths[i], &rels[i]);
        assert!(sched.complete(i, rec));
    }
    assert_eq!(sched.try_dispatch(), Some(2));
    assert!(!sched.is_finished());
    assert!(sched.complete(2, run_item(paths[2], &rels[2])));
    assert!(sched.is_finished());
    let out = sched.into_results();
    assert_eq!(out.len(), 3);
    assert!(!out[1].success);
    assert_eq!(out[1].error.as_deref(), Some("Unsupported file type"));
    assert_eq!(out[1].size, 1234);
    assert!(out[0].width.is_some() && out[0].height.is_some());
    assert!(out[2].width.is_some() && out[2].height.is_some());
    for (i, rec) in out.iter().enumerate() {
        assert_eq!(rec.path, rels[i]);
    }
}

fn run_item(path: &str, rel: &str) -> PhotoProcessingResult {
    let (item, _) = PhotoItem::start(path.to_string(), rel.to_string(), "/t".to_string());
    let (item, action) = item.on_file_facts(Ok(facts()));
    if let Action::Finish(r) = action {
        return r;
    }
    let (item, _) = item.on_capture_metadata(None);
    let (item, _) = item.on_decoded(Ok(DecodedImage { raster: uniform(8, 6, [5, 5, 5]), mime_type: None }));
    finished(item.on_embedding(None).1)
}

#[test]
fn scheduler_never_has_more_than_its_limit_out() {
    let rels: Vec<String> = (0..10).map(|i| format!("{}.jpg", i)).collect();
    let mut sched = BatchScheduler::new(rels.clone(), 16);
    assert_eq!(sched.limit, 4);
    let mut out = Vec::new();
    while let Some(i) = sched.try_dispatch() {
        out.push(i);
    }
    assert_eq!(out, vec![0, 1, 2, 3]);
    assert_eq!(sched.running, 4);
    assert!(sched.complete(2, run_item("/p/2.jpg", "2.jpg")));
    assert_eq!(sched.try_dispatch(), Some(4));
    assert_eq!(sched.try_dispatch(), None);
    assert!(sched.running <= sched.limit);
}

#[test]
fn scheduler_refuses_foreign_or_repeated_records() {
    let rels: Vec<String> = vec!["a.jpg".to_string(), "b.jpg".to_string()];
    let mut sched = BatchScheduler::new(rels, 1);
    assert_eq!(sched.try_dispatch(), Some(0));
    assert!(!sched.complete(1, run_item("/p/b.jpg", "b.jpg")));
    assert!(!sched.complete(0, run_item("/p/b.jpg", "b.jpg")));
    assert!(sched.is_outstanding(0));
    assert!(sched.complete(0, run_item("/p/a.jpg", "a.jpg")));
    assert!(!sched.complete(0, run_item("/p/a.jpg", "a.jpg")));
    assert!(!sched.is_outstanding(0));
}

#[test]
fn pool_size_is_min_of_hardware_and_four() {
    assert_eq!(pool_size_for(0), 1);
    assert_eq!(pool_size_for(1), 1);
    assert_eq!(pool_size_for(3), 3);
    assert_eq!(pool_size_for(4), 4);
    assert_eq!(pool_size_for(64), 4);
    let n = max_concurrent();
    assert!((1..=4).contains(&n));
}
