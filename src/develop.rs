//! Developing a RAW file into an encoded JPEG, with or without tone matching
//! against its embedded preview.
use vstd::prelude::*;
use crate::pipeline::{extract_preview_with_jpeg, largest_jpeg_index, usable_preview, EmbeddedPreview, RawPixels};
use crate::raster::Raster;
use crate::record::ItemError;
use crate::tone::{bytes, match_histograms, remap, spec_channel_curve, MIN_PREVIEW_SIDE};

verus! {

/// JPEG quality of a full-size development.
pub const FULL_QUALITY: u8 = 90;

/// JPEG quality of a half-size development.
pub const HALF_SIZE_QUALITY: u8 = 85;

/// What `JpegEncoder::encode` writes for an RGB raster at a given quality,
/// or nothing when the encoder reports an error.
pub uninterp spec fn jpeg_encoded(width: u32, height: u32, pixels: Seq<u8>, quality: u8) -> Option<Seq<u8>>;

/// Sizes a JPEG stream can hold: both sides from 1 to 65535.
pub open spec fn jpeg_size_ok(width: u32, height: u32) -> bool {
    1 <= width <= 65535 && 1 <= height <= 65535
}

/// Relies on `image::codecs::jpeg::JpegEncoder::new_with_quality` and
/// `encode` with `ExtendedColorType::Rgb8`, which asserts that the buffer
/// holds `width * height` RGB pixels, otherwise depends on its arguments
/// alone, and fails only on a side outside 1 to 65535 (writing into a `Vec`
/// does not fail).
#[verifier::external_body]
fn encode_jpeg(img: &Raster, quality: u8) -> (r: Result<Vec<u8>, String>)
    requires
        img.wf(),
    ensures
        match r {
            Ok(b) => jpeg_encoded(img.width, img.height, img.data@, quality) == Some(b@),
            Err(_) => jpeg_encoded(img.width, img.height, img.data@, quality) is None,
        },
        r is Ok <==> jpeg_size_ok(img.width, img.height),
{
    let mut buffer: Vec<u8> = Vec::new();
    let mut encoder = image::codecs::jpeg::JpegEncoder::new_with_quality(&mut buffer, quality);
    match encoder.encode(&img.data, img.width, img.height, image::ExtendedColorType::Rgb8) {
        Ok(()) => Ok(buffer),
        Err(e) => Err(e.to_string()),
    }
}

/// Encode a raster as JPEG at the given quality.
pub fn encode_jpeg_rgb(img: &Raster, quality: u8) -> (r: Result<Vec<u8>, ItemError>)
    requires
        img.wf(),
    ensures
        r is Ok <==> jpeg_size_ok(img.width, img.height),
        r matches Ok(b) ==> jpeg_encoded(img.width, img.height, img.data@, quality) == Some(b@),
        r matches Err(e) ==> jpeg_encoded(img.width, img.height, img.data@, quality) is None
            && e is EncodeFailed,
{
    match encode_jpeg(img, quality) {
        Ok(b) => Ok(b),
        Err(e) => Err(ItemError::EncodeFailed(e)),
    }
}

/// A developed RAW file.
pub struct RawProcessingResult {
    pub width: u32,
    pub height: u32,
    /// The developed raster, JPEG-encoded.
    pub jpeg_data: Vec<u8>,
    /// The embedded preview that served for tone matching, as stored.
    pub preview_jpeg: Option<Vec<u8>>,
    pub histogram_matched: bool,
    /// Wall-clock time of the whole development, filled in by the caller
    /// that measured it.
    pub processing_time_ms: u32,
}

/// The demosaiced buffer holds exactly `width * height` RGB pixels.
pub open spec fn pixels_fit(px: RawPixels) -> bool {
    px.data@.len() == px.width as int * px.height as int * 3
}

/// A development can succeed: the buffer fits and JPEG can hold its size.
pub open spec fn developable(px: RawPixels) -> bool {
    pixels_fit(px) && jpeg_size_ok(px.width, px.height)
}

pub open spec fn bytes_opt(o: Option<Vec<u8>>) -> Option<Seq<u8>> {
    match o {
        Some(b) => Some(b@),
        None => None,
    }
}

/// `d.jpeg_data` encodes `original`, tone-matched to `preview_pixels` when
/// `d.histogram_matched`.
pub open spec fn encodes_development(
    d: RawProcessingResult,
    original: Seq<u8>,
    preview_pixels: Option<Seq<u8>>,
    quality: u8,
) -> bool {
    if d.histogram_matched {
        match preview_pixels {
            Some(pd) => exists|x: Seq<u8>|
                #[trigger] bytes(x) == remap(
                    original,
                    spec_channel_curve(original, pd, 0),
                    spec_channel_curve(original, pd, 1),
                    spec_channel_curve(original, pd, 2),
                ) && jpeg_encoded(d.width, d.height, x, quality) == Some(d.jpeg_data@),
            None => false,
        }
    } else {
        jpeg_encoded(d.width, d.height, original, quality) == Some(d.jpeg_data@)
    }
}

pub open spec fn preview_data(preview: Option<(Raster, Vec<u8>)>) -> Option<Seq<u8>> {
    match preview {
        Some((p, _)) => Some(p.data@),
        None => None,
    }
}

pub open spec fn preview_bytes(preview: Option<(Raster, Vec<u8>)>) -> Option<Seq<u8>> {
    match preview {
        Some((_, b)) => Some(b@),
        None => None,
    }
}

/// Whether a preview is large enough to serve for tone matching.
pub open spec fn preview_large_enough(preview: Option<(Raster, Vec<u8>)>) -> bool {
    match preview {
        Some((p, _)) => p.width >= MIN_PREVIEW_SIDE && p.height >= MIN_PREVIEW_SIDE,
        None => false,
    }
}

/// Develop demosaiced RAW pixels: tone-match them to `preview` when it is
/// given and its shorter side reaches `MIN_PREVIEW_SIDE`, then encode them
/// at `quality`. Fails only on a buffer that does not fit its size, or on a
/// size JPEG cannot hold.
pub fn develop_raw(pixels: RawPixels, preview: Option<(Raster, Vec<u8>)>, quality: u8) -> (r: Result<
    RawProcessingResult,
    ItemError,
>)
    requires
        preview matches Some((p, _)) ==> p.wf(),
    ensures
        r is Ok <==> developable(pixels),
        !pixels_fit(pixels) ==> r matches Err(ItemError::BufferMismatch),
        pixels_fit(pixels) && !jpeg_size_ok(pixels.width, pixels.height) ==> r matches Err(
            ItemError::EncodeFailed(_),
        ),
        r matches Ok(d) ==> {
            &&& d.width == pixels.width
            &&& d.height == pixels.height
            &&& d.processing_time_ms == 0
            &&& d.histogram_matched == preview_large_enough(preview)
            &&& bytes_opt(d.preview_jpeg) == preview_bytes(preview)
            &&& encodes_development(d, pixels.data@, preview_data(preview), quality)
        },
{
    let full = Raster::new(pixels.width, pixels.height, pixels.data);
    let mut full = match full {
        Some(f) => f,
        None => {
            return Err(ItemError::BufferMismatch);
        },
    };
    let ghost original = full.data@;
    let (histogram_matched, preview_jpeg) = match preview {
        Some((p, bytes)) => (match_histograms(&mut full, &p), Some(bytes)),
        None => (false, None),
    };
    let jpeg_data = encode_jpeg_rgb(&full, quality)?;
    let d = RawProcessingResult {
        width: full.width,
        height: full.height,
        jpeg_data,
        preview_jpeg,
        histogram_matched,
        processing_time_ms: 0,
    };
    proof {
        if histogram_matched {
            let pd = preview_data(preview)->0;
            assert(bytes(full.data@) == remap(
                original,
                spec_channel_curve(original, pd, 0),
                spec_channel_curve(original, pd, 1),
                spec_channel_curve(original, pd, 2),
            ));
        }
    }
    Ok(d)
}

/// Whether the largest JPEG preview decodes to a raster whose sides both
/// reach `MIN_PREVIEW_SIDE`.
pub open spec fn preview_matchable(previews: Seq<EmbeddedPreview>) -> bool {
    match usable_preview(previews) {
        Some((w, h, _)) => w >= MIN_PREVIEW_SIDE && h >= MIN_PREVIEW_SIDE,
        None => false,
    }
}

pub open spec fn usable_pixels(previews: Seq<EmbeddedPreview>) -> Option<Seq<u8>> {
    match usable_preview(previews) {
        Some((_, _, pd)) => Some(pd),
        None => None,
    }
}

/// Develop a RAW file with tone matching against its largest embedded JPEG
/// preview, at full quality. Matching runs exactly when that preview decodes
/// and both its sides reach `MIN_PREVIEW_SIDE`; the preview's stored bytes
/// are kept whenever it decodes.
pub fn process_raw_with_histogram_matching(pixels: RawPixels, previews: Vec<EmbeddedPreview>) -> (r: Result<
    RawProcessingResult,
    ItemError,
>)
    ensures
        r is Ok <==> developable(pixels),
        !pixels_fit(pixels) ==> r matches Err(ItemError::BufferMismatch),
        r matches Ok(d) ==> {
            &&& d.width == pixels.width
            &&& d.height == pixels.height
            &&& d.histogram_matched == preview_matchable(previews@)
            &&& bytes_opt(d.preview_jpeg) == (if usable_preview(previews@) is Some {
                Some(previews@[largest_jpeg_index(previews@)].data@)
            } else {
                None
            })
            &&& encodes_development(d, pixels.data@, usable_pixels(previews@), FULL_QUALITY)
        },
{
    let ghost list = previews@;
    let preview = extract_preview_with_jpeg(previews);
    proof {
        if preview is Some {
            assert(usable_pixels(list) == preview_data(preview));
        } else {
            assert(usable_pixels(list) is None);
        }
    }
    develop_raw(pixels, preview, FULL_QUALITY)
}

/// Develop a RAW file without tone matching, at full quality.
pub fn process_raw_neutral_only(pixels: RawPixels) -> (r: Result<RawProcessingResult, ItemError>)
    ensures
        r is Ok <==> developable(pixels),
        !pixels_fit(pixels) ==> r matches Err(ItemError::BufferMismatch),
        r matches Ok(d) ==> d.width == pixels.width && d.height == pixels.height && !d.histogram_matched
            && d.preview_jpeg is None && jpeg_encoded(pixels.width, pixels.height, pixels.data@, FULL_QUALITY)
            == Some(d.jpeg_data@),
{
    develop_raw(pixels, None, FULL_QUALITY)
}

/// Develop a half-size RAW decode without tone matching, at reduced quality.
pub fn process_raw_half_size(pixels: RawPixels) -> (r: Result<RawProcessingResult, ItemError>)
    ensures
        r is Ok <==> developable(pixels),
        !pixels_fit(pixels) ==> r matches Err(ItemError::BufferMismatch),
        r matches Ok(d) ==> d.width == pixels.width && d.height == pixels.height && !d.histogram_matched
            && d.preview_jpeg is None && jpeg_encoded(pixels.width, pixels.height, pixels.data@, HALF_SIZE_QUALITY)
            == Some(d.jpeg_data@),
{
    develop_raw(pixels, None, HALF_SIZE_QUALITY)
}

/// The encoded bytes of the largest embedded JPEG preview, as stored.
pub fn extract_raw_preview(previews: Vec<EmbeddedPreview>) -> (r: Option<Vec<u8>>)
    ensures
        r is None <==> forall|j: int| 0 <= j < previews@.len() ==> !(#[trigger] previews@[j]).is_jpeg,
        r matches Some(b) ==> exists|i: int|
            #[trigger] crate::pipeline::is_largest_jpeg(previews@, i) && b@ == previews@[i].data@,
{
    let ghost all = previews@;
    match crate::pipeline::select_largest_jpeg(&previews) {
        None => None,
        Some(i) => {
            let mut list = previews;
            let chosen = list.remove(i);
            assert(chosen == all[i as int]);
            assert(crate::pipeline::is_largest_jpeg(all, i as int));
            Some(chosen.data)
        },
    }
}

} // verus!
