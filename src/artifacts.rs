//! Derived artifacts of one oriented raster: perceptual fingerprint, resized
//! previews and where they are stored, and the input for the embedding
//! provider.
use vstd::prelude::*;
use crate::format::{chars_of, extension_of, lemma_extension_fits, path_extension, string_of};
use crate::raster::Raster;

verus! {

/// Number of components of a semantic embedding vector.
pub const EMBEDDING_DIM: usize = 512;

// ---------------------------------------------------------------------------
// Outside computations
// ---------------------------------------------------------------------------

/// What `image::load_from_memory` followed by `into_rgb8` makes of encoded
/// bytes: width, height and interleaved RGB pixels, or nothing when the bytes
/// do not decode.
pub uninterp spec fn decoded_rgb(bytes: Seq<u8>) -> Option<(u32, u32, Seq<u8>)>;

/// What `DynamicImage::resize` with the Lanczos3 filter makes of an RGB raster
/// given the bounds `max_width` x `max_height`.
pub uninterp spec fn resized_rgb(
    width: u32,
    height: u32,
    pixels: Seq<u8>,
    max_width: u32,
    max_height: u32,
) -> (u32, u32, Seq<u8>);

/// The base64 text of the double-gradient perceptual hash (8 x 8) of an RGB raster.
pub uninterp spec fn perceptual_hash_of(width: u32, height: u32, pixels: Seq<u8>) -> Seq<char>;

/// Relies on `image::load_from_memory` (format guessed from the bytes) and
/// `DynamicImage::into_rgb8`; an `ImageBuffer` holds exactly
/// `width * height` pixels.
#[verifier::external_body]
pub(crate) fn decode_rgb(bytes: &[u8]) -> (r: Option<Raster>)
    ensures
        match r {
            Some(img) => img.wf() && decoded_rgb(bytes@) == Some((img.width, img.height, img.data@)),
            None => decoded_rgb(bytes@) is None,
        },
{
    match image::load_from_memory(bytes) {
        Ok(img) => {
            let rgb = img.into_rgb8();
            Some(Raster { width: rgb.width(), height: rgb.height(), data: rgb.into_raw() })
        },
        Err(_) => None,
    }
}

/// Relies on `DynamicImage::resize` with `FilterType::Lanczos3`: the largest
/// size within the bounds that keeps the aspect ratio, each side at least 1
/// (`resize_dimensions` rounds `side * min(ratio)` and takes at least 1, so a
/// zero bound gives 1); the result of an RGB image is an RGB image.
#[verifier::external_body]
fn resize_lanczos(img: &Raster, max_width: u32, max_height: u32) -> (r: Raster)
    requires
        img.wf(),
        img.width > 0,
        img.height > 0,
    ensures
        r.wf(),
        (r.width, r.height, r.data@) == resized_rgb(img.width, img.height, img.data@, max_width, max_height),
        1 <= r.width <= if max_width >= 1 {
            max_width
        } else {
            1
        },
        1 <= r.height <= if max_height >= 1 {
            max_height
        } else {
            1
        },
{
    let rgb = image::RgbImage::from_raw(img.width, img.height, img.data.clone()).unwrap();
    let out = image::DynamicImage::ImageRgb8(rgb)
        .resize(max_width, max_height, image::imageops::FilterType::Lanczos3)
        .into_rgb8();
    Raster { width: out.width(), height: out.height(), data: out.into_raw() }
}

/// Relies on `image_hasher::Hasher::hash_image` (double-gradient algorithm,
/// 8 x 8 hash) and `ImageHash::to_base64`.
#[verifier::external_body]
fn hash_pixels(img: &Raster) -> (r: String)
    requires
        img.wf(),
        img.width > 0,
        img.height > 0,
    ensures
        r@ == perceptual_hash_of(img.width, img.height, img.data@),
{
    let rgb = image::RgbImage::from_raw(img.width, img.height, img.data.clone()).unwrap();
    let hasher = image_hasher::HasherConfig::new()
        .hash_alg(image_hasher::HashAlg::DoubleGradient)
        .hash_size(8, 8)
        .to_hasher();
    hasher.hash_image(&image::DynamicImage::ImageRgb8(rgb)).to_base64()
}

// ---------------------------------------------------------------------------
// Perceptual hash
// ---------------------------------------------------------------------------

pub open spec fn spec_phash(img: Raster) -> Option<Seq<char>> {
    if img.width > 0 && img.height > 0 {
        Some(perceptual_hash_of(img.width, img.height, img.data@))
    } else {
        None
    }
}

/// Perceptual fingerprint of a raster; an empty raster has none.
pub fn generate_phash_from_image(img: &Raster) -> (r: Option<String>)
    requires
        img.wf(),
    ensures
        match r {
            Some(s) => spec_phash(*img) == Some(s@),
            None => spec_phash(*img) is None,
        },
{
    if img.width > 0 && img.height > 0 {
        Some(hash_pixels(img))
    } else {
        None
    }
}

// ---------------------------------------------------------------------------
// Thumbnails
// ---------------------------------------------------------------------------

/// Size bound and encoder quality of one thumbnail.
#[derive(Clone, Copy, Debug, PartialEq, Eq, Structural)]
pub struct ThumbnailConfig {
    pub max_dimension: u32,
    pub quality: u8,
}

/// The four named thumbnail sizes.
#[derive(Clone, Copy, Debug, PartialEq, Eq, Structural)]
pub struct ThumbnailSizes {
    pub tiny: ThumbnailConfig,
    pub small: ThumbnailConfig,
    pub medium: ThumbnailConfig,
    pub large: ThumbnailConfig,
}

impl Default for ThumbnailSizes {
    fn default() -> (r: Self)
        ensures
            r.tiny == (ThumbnailConfig { max_dimension: 150, quality: 80 }),
            r.small == (ThumbnailConfig { max_dimension: 400, quality: 85 }),
            r.medium == (ThumbnailConfig { max_dimension: 800, quality: 85 }),
            r.large == (ThumbnailConfig { max_dimension: 1600, quality: 90 }),
    {
        ThumbnailSizes {
            tiny: ThumbnailConfig { max_dimension: 150, quality: 80 },
            small: ThumbnailConfig { max_dimension: 400, quality: 85 },
            medium: ThumbnailConfig { max_dimension: 800, quality: 85 },
            large: ThumbnailConfig { max_dimension: 1600, quality: 90 },
        }
    }
}

/// Bounds that keep the aspect ratio with the longer side at `max`.
pub open spec fn spec_target_dims(w: u32, h: u32, max: u32) -> (u32, u32) {
    if w > h {
        (max, (max as int * h as int / w as int) as u32)
    } else if h == 0 {
        (0, max)
    } else {
        ((max as int * w as int / h as int) as u32, max)
    }
}

pub fn thumbnail_target(w: u32, h: u32, max: u32) -> (r: (u32, u32))
    ensures
        r == spec_target_dims(w, h, max),
        r.0 <= max && r.1 <= max,
{
    if w > h {
        assert(max as int * h as int <= u64::MAX) by (nonlinear_arith)
            requires
                max <= u32::MAX,
                h <= u32::MAX,
        ;
        let scaled = (max as u64) * (h as u64) / (w as u64);
        proof {
            assert(max as int * h as int / w as int <= max) by (nonlinear_arith)
                requires
                    h < w,
            ;
        }
        (max, scaled as u32)
    } else if h == 0 {
        (0, max)
    } else {
        assert(max as int * w as int <= u64::MAX) by (nonlinear_arith)
            requires
                max <= u32::MAX,
                w <= u32::MAX,
        ;
        let scaled = (max as u64) * (w as u64) / (h as u64);
        proof {
            assert(max as int * w as int / h as int <= max) by (nonlinear_arith)
                requires
                    w <= h,
                    h > 0,
            ;
        }
        (scaled as u32, max)
    }
}

/// Whether a raster exceeds the bounds of `max` and so must be scaled down.
pub open spec fn needs_resize(img: Raster, max: u32) -> bool {
    let (nw, nh) = spec_target_dims(img.width, img.height, max);
    img.width > 0 && img.height > 0 && (img.width > nw || img.height > nh)
}

/// The thumbnail of `img` for `max`: scaled down when it exceeds the bounds,
/// never scaled up.
pub open spec fn spec_thumbnail(img: Raster, max: u32) -> (u32, u32, Seq<u8>) {
    let (nw, nh) = spec_target_dims(img.width, img.height, max);
    if needs_resize(img, max) {
        resized_rgb(img.width, img.height, img.data@, nw, nh)
    } else {
        (img.width, img.height, img.data@)
    }
}

fn copy_raster(img: &Raster) -> (r: Raster)
    ensures
        r.width == img.width && r.height == img.height && r.data@ == img.data@,
{
    let mut data: Vec<u8> = Vec::new();
    for i in 0..img.data.len()
        invariant
            data@ == img.data@.subrange(0, i as int),
    {
        data.push(img.data[i]);
    }
    assert(img.data@.subrange(0, img.data@.len() as int) =~= img.data@);
    Raster { width: img.width, height: img.height, data }
}

/// One thumbnail of a raster for the given size configuration.
pub fn generate_thumbnail_from_image(img: &Raster, config: &ThumbnailConfig) -> (r: Raster)
    requires
        img.wf(),
    ensures
        r.wf(),
        (r.width, r.height, r.data@) == spec_thumbnail(*img, config.max_dimension),
        img.width > 0 && img.height > 0 && config.max_dimension >= 1 ==> r.width <= config.max_dimension
            && r.height <= config.max_dimension,
        !needs_resize(*img, config.max_dimension) ==> r.width == img.width && r.height == img.height,
{
    let (nw, nh) = thumbnail_target(img.width, img.height, config.max_dimension);
    if img.width > 0 && img.height > 0 && (img.width > nw || img.height > nh) {
        resize_lanczos(img, nw, nh)
    } else {
        copy_raster(img)
    }
}

/// A path without the extension of its last component (`a/b.jpg` gives `a/b`).
pub open spec fn without_extension(p: Seq<char>) -> Seq<char> {
    match path_extension(p) {
        Some(e) => p.subrange(0, p.len() - e.len() - 1),
        None => p,
    }
}

/// Where a thumbnail is stored: `{root}/{size}/{relative path without extension}.webp`.
pub open spec fn spec_thumbnail_path(root: Seq<char>, size_name: Seq<char>, relative: Seq<char>) -> Seq<char> {
    root + "/"@ + size_name + "/"@ + without_extension(relative) + ".webp"@
}

fn without_extension_of(relative: &str) -> (r: String)
    ensures
        r@ == without_extension(relative@),
{
    let p = chars_of(relative);
    proof {
        lemma_extension_fits(relative@);
    }
    match extension_of(relative) {
        None => string_of(p.as_slice()),
        Some(e) => {
            let keep = p.len() - e.len() - 1;
            let mut out: Vec<char> = Vec::new();
            for i in 0..keep
                invariant
                    keep <= p@.len(),
                    out@ == p@.subrange(0, i as int),
            {
                out.push(p[i]);
            }
            string_of(out.as_slice())
        },
    }
}

pub fn thumbnail_path(root: &str, size_name: &str, relative_path: &str) -> (r: String)
    ensures
        r@ == spec_thumbnail_path(root@, size_name@, relative_path@),
{
    let r = String::from_str(root).concat("/").concat(size_name).concat("/");
    let stem = without_extension_of(relative_path);
    r.concat(stem.as_str()).concat(".webp")
}

/// A thumbnail to be written: its path and its pixels.
pub struct ThumbnailJob {
    pub path: String,
    pub image: Raster,
}

pub open spec fn size_names() -> Seq<Seq<char>> {
    seq!["tiny"@, "small"@, "medium"@, "large"@]
}

pub open spec fn size_bounds() -> Seq<u32> {
    seq![150u32, 400u32, 800u32, 1600u32]
}

/// The four thumbnails of a raster, `tiny`, `small`, `medium`, `large` in
/// that order, each placed under its size's directory so that the relative
/// directory structure of the input is mirrored.
pub fn generate_all_thumbnails_internal(img: &Raster, relative_path: &str, thumbnails_base_dir: &str) -> (r: Vec<ThumbnailJob>)
    requires
        img.wf(),
    ensures
        r@.len() == 4,
        forall|i: int|
            0 <= i < 4 ==> {
                &&& (#[trigger] r@[i]).path@ == spec_thumbnail_path(
                    thumbnails_base_dir@,
                    size_names()[i],
                    relative_path@,
                )
                &&& r@[i].image.wf()
                &&& (r@[i].image.width, r@[i].image.height, r@[i].image.data@) == spec_thumbnail(
                    *img,
                    size_bounds()[i],
                )
            },
{
    let sizes = ThumbnailSizes::default();
    let names = vec!["tiny", "small", "medium", "large"];
    let configs = vec![sizes.tiny, sizes.small, sizes.medium, sizes.large];
    let mut jobs: Vec<ThumbnailJob> = Vec::new();
    for i in 0..4
        invariant
            names@.len() == 4,
            configs@.len() == 4,
            forall|j: int| 0 <= j < 4 ==> #[trigger] names@[j]@ == size_names()[j],
            forall|j: int| 0 <= j < 4 ==> #[trigger] configs@[j].max_dimension == size_bounds()[j],
            img.wf(),
            jobs@.len() == i,
            forall|j: int|
                0 <= j < i ==> {
                    &&& (#[trigger] jobs@[j]).path@ == spec_thumbnail_path(
                        thumbnails_base_dir@,
                        size_names()[j],
                        relative_path@,
                    )
                    &&& jobs@[j].image.wf()
                    &&& (jobs@[j].image.width, jobs@[j].image.height, jobs@[j].image.data@)
                        == spec_thumbnail(*img, size_bounds()[j])
                },
    {
        let path = thumbnail_path(thumbnails_base_dir, names[i], relative_path);
        let image = generate_thumbnail_from_image(img, &configs[i]);
        jobs.push(ThumbnailJob { path, image });
    }
    jobs
}

/// What the embedding provider is given: the encoded preview when there is
/// one, otherwise the raster itself.
pub enum EmbeddingInput {
    Encoded(Vec<u8>),
    Pixels(Raster),
}

} // verus!
