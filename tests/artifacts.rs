use image_processing::artifacts::{
    generate_all_thumbnails_internal, generate_phash_from_image, generate_thumbnail_from_image,
    thumbnail_path, thumbnail_target, ThumbnailConfig, ThumbnailSizes,
};
use image_processing::raster::Raster;

fn gradient(width: u32, height: u32) -> Raster {
    let mut data = Vec::new();
    for y in 0..height {
        for x in 0..width {
            data.extend_from_slice(&[(x % 256) as u8, (y % 256) as u8, ((x + y) % 256) as u8]);
        }
    }
    Raster::new(width, height, data).unwrap()
}

#[test]
fn thumbnail_sizes_default() {
    let s = ThumbnailSizes::default();
    assert_eq!(s.tiny, ThumbnailConfig { max_dimension: 150, quality: 80 });
    assert_eq!(s.small, ThumbnailConfig { max_dimension: 400, quality: 85 });
    assert_eq!(s.medium, ThumbnailConfig { max_dimension: 800, quality: 85 });
    assert_eq!(s.large, ThumbnailConfig { max_dimension: 1600, quality: 90 });
}

#[test]
fn thumbnail_bounds_keep_aspect_ratio() {
    assert_eq!(thumbnail_target(3000, 2000, 150), (150, 100));
    assert_eq!(thumbnail_target(2000, 3000, 400), (266, 400));
    assert_eq!(thumbnail_target(1000, 1000, 800), (800, 800));
    assert_eq!(thumbnail_target(100, 50, 1600), (1600, 800));
    assert_eq!(thumbnail_target(0, 0, 150), (0, 150));
}

#[test]
fn thumbnails_shrink_large_rasters_and_never_enlarge() {
    let img = gradient(300, 200);
    let tiny = generate_thumbnail_from_image(&img, &ThumbnailConfig { max_dimension: 150, quality: 80 });
    assert_eq!((tiny.width, tiny.height), (150, 100));
    assert_eq!(tiny.data.len(), 150 * 100 * 3);
    assert_ne!(tiny.data, img.data);
    let large = generate_thumbnail_from_image(&img, &ThumbnailConfig { max_dimension: 1600, quality: 90 });
    assert_eq!((large.width, large.height), (300, 200));
    assert_eq!(large.data, img.data);
}

#[test]
fn thumbnail_paths_mirror_the_relative_path() {
    assert_eq!(thumbnail_path("/t", "tiny", "2024/vacation/IMG_1234.jpg"), "/t/tiny/2024/vacation/IMG_1234.webp");
    assert_eq!(thumbnail_path("/t", "large", "noext"), "/t/large/noext.webp");
    assert_eq!(thumbnail_path("/t", "small", "a.b/c.tar.gz"), "/t/small/a.b/c.tar.webp");
    assert_eq!(thumbnail_path("/t", "medium", "dir/.hidden"), "/t/medium/dir/.hidden.webp");
}

#[test]
fn all_thumbnails_in_size_order() {
    let img = gradient(1000, 500);
    let jobs = generate_all_thumbnails_internal(&img, "x/y.png", "/root");
    let paths: Vec<&str> = jobs.iter().map(|j| j.path.as_str()).collect();
    assert_eq!(paths, vec!["/root/tiny/x/y.webp", "/root/small/x/y.webp", "/root/medium/x/y.webp", "/root/large/x/y.webp"]);
    let dims: Vec<(u32, u32)> = jobs.iter().map(|j| (j.image.width, j.image.height)).collect();
    assert_eq!(dims, vec![(150, 75), (400, 200), (800, 400), (1000, 500)]);
}

#[test]
fn perceptual_hash_is_deterministic_and_sensitive() {
    let a = gradient(64, 48);
    let h1 = generate_phash_from_image(&a).unwrap();
    let h2 = generate_phash_from_image(&a.clone()).unwrap();
    assert_eq!(h1, h2);
    assert!(!h1.is_empty());
    let mut flipped = a.clone();
    flipped.data.reverse();
    assert_ne!(generate_phash_from_image(&flipped).unwrap(), h1);
    let empty = Raster::new(0, 5, vec![]).unwrap();
    assert_eq!(generate_phash_from_image(&empty), None);
}

#[test]
fn raster_requires_a_matching_buffer() {
    assert!(Raster::new(2, 2, vec![0; 12]).is_some());
    assert!(Raster::new(2, 2, vec![0; 11]).is_none());
    assert!(Raster::new(u32::MAX, u32::MAX, vec![]).is_none());
}
