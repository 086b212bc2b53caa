//! Per-item records, the error taxonomy, and how failures read.
use vstd::prelude::*;
use crate::artifacts::EMBEDDING_DIM;

verus! {

/// Capture metadata read from a file. Floating-point values are held as the
/// bit patterns of their `f64` values.
#[derive(Clone, Debug)]
pub struct ExifData {
    pub camera_make: Option<String>,
    pub camera_model: Option<String>,
    pub lens_make: Option<String>,
    pub lens_model: Option<String>,
    /// Focal length in millimetres.
    pub focal_length: Option<u32>,
    pub iso: Option<u32>,
    /// For example `f/2.8`.
    pub aperture: Option<String>,
    /// For example `1/250`.
    pub shutter_speed: Option<String>,
    /// For example `+0.3 EV`.
    pub exposure_bias: Option<String>,
    pub date_taken: Option<String>,
    pub gps_latitude_bits: Option<u64>,
    pub gps_longitude_bits: Option<u64>,
    pub gps_altitude_bits: Option<u64>,
    /// EXIF orientation code, 1 to 8.
    pub orientation: Option<u32>,
}

/// What the file system reports about a file.
#[derive(Clone, Debug)]
pub struct FileFacts {
    pub size: i64,
    /// Milliseconds since the Unix epoch, 0 when unknown.
    pub created_at: u64,
    /// Milliseconds since the Unix epoch, 0 when unknown.
    pub modified_at: u64,
}

/// Why an item failed. The text carried by a variant is the underlying
/// cause as reported by the collaborator that failed.
#[derive(Clone, Debug)]
pub enum ItemError {
    MetadataUnreadable(String),
    DecodeFailed(String),
    FileUnreadable(String),
    ContainerOpenFailed(String),
    FileUnreadableForProcessing(String),
    ContainerReopenFailed(String),
    UnpackFailed(String),
    DemosaicFailed(String),
    BufferMismatch,
    EncodeFailed(String),
    UnsupportedFileType,
}

pub open spec fn spec_message(e: ItemError) -> Seq<char> {
    match e {
        ItemError::MetadataUnreadable(c) => "Failed to read file metadata: "@ + c@,
        ItemError::DecodeFailed(c) => "Failed to decode image: "@ + c@,
        ItemError::FileUnreadable(c) => "Failed to read file: "@ + c@,
        ItemError::ContainerOpenFailed(c) => "Failed to open RAW: "@ + c@,
        ItemError::FileUnreadableForProcessing(c) => "Failed to read file for processing: "@ + c@,
        ItemError::ContainerReopenFailed(c) => "Failed to open RAW for processing: "@ + c@,
        ItemError::UnpackFailed(c) => "Failed to unpack RAW: "@ + c@,
        ItemError::DemosaicFailed(c) => "Failed to process RAW: "@ + c@,
        ItemError::BufferMismatch => "Failed to create image buffer"@,
        ItemError::EncodeFailed(c) => "Failed to encode JPEG: "@ + c@,
        ItemError::UnsupportedFileType => "Unsupported file type"@,
    }
}

impl ItemError {
    /// The error text recorded for an item.
    pub fn message(&self) -> (r: String)
        ensures
            r@ == spec_message(*self),
    {
        match self {
            ItemError::MetadataUnreadable(c) => String::from_str("Failed to read file metadata: ").concat(c.as_str()),
            ItemError::DecodeFailed(c) => String::from_str("Failed to decode image: ").concat(c.as_str()),
            ItemError::FileUnreadable(c) => String::from_str("Failed to read file: ").concat(c.as_str()),
            ItemError::ContainerOpenFailed(c) => String::from_str("Failed to open RAW: ").concat(c.as_str()),
            ItemError::FileUnreadableForProcessing(c) => String::from_str(
                "Failed to read file for processing: ",
            ).concat(c.as_str()),
            ItemError::ContainerReopenFailed(c) => String::from_str("Failed to open RAW for processing: ").concat(
                c.as_str(),
            ),
            ItemError::UnpackFailed(c) => String::from_str("Failed to unpack RAW: ").concat(c.as_str()),
            ItemError::DemosaicFailed(c) => String::from_str("Failed to process RAW: ").concat(c.as_str()),
            ItemError::BufferMismatch => String::from_str("Failed to create image buffer"),
            ItemError::EncodeFailed(c) => String::from_str("Failed to encode JPEG: ").concat(c.as_str()),
            ItemError::UnsupportedFileType => String::from_str("Unsupported file type"),
        }
    }
}

/// The outcome of one input file.
#[derive(Clone, Debug)]
pub struct PhotoProcessingResult {
    /// Relative path of the photo.
    pub path: String,
    /// File name.
    pub name: String,
    /// File size in bytes.
    pub size: i64,
    /// Milliseconds since the Unix epoch.
    pub created_at: u64,
    /// Milliseconds since the Unix epoch.
    pub modified_at: u64,
    pub width: Option<u32>,
    pub height: Option<u32>,
    pub mime_type: Option<String>,
    pub phash: Option<String>,
    /// Semantic embedding, as the bit patterns of its `f32` components.
    pub clip_embedding: Option<Vec<u32>>,
    pub exif: Option<ExifData>,
    pub is_raw: bool,
    /// RAW format name (`CR2`, `NEF`, ...).
    pub raw_format: Option<String>,
    /// `converted` or `failed`, for RAW files only.
    pub raw_status: Option<String>,
    pub raw_error: Option<String>,
    pub success: bool,
    pub error: Option<String>,
}

/// The characters of an optional text.
pub open spec fn text(o: Option<String>) -> Option<Seq<char>> {
    match o {
        Some(s) => Some(s@),
        None => None,
    }
}

/// The invariants every record keeps.
pub open spec fn record_consistent(r: PhotoProcessingResult) -> bool {
    &&& (r.width is Some) == r.success
    &&& (r.height is Some) == r.success
    &&& (r.error is None) == r.success
    &&& (r.raw_status is Some) == r.is_raw
    &&& (r.raw_status matches Some(s) ==> (s@ == "converted"@ && r.success) || (s@ == "failed"@
        && !r.success))
    &&& (r.clip_embedding matches Some(v) ==> v@.len() == EMBEDDING_DIM)
}

/// A record whose width and height are absent exactly when it failed.
pub proof fn lemma_failure_iff_no_dimensions(r: PhotoProcessingResult)
    requires
        record_consistent(r),
    ensures
        !r.success <==> (r.width is None && r.height is None),
{
}

/// A record carries a RAW status exactly when it is a RAW record, and the
/// status is `converted` or `failed`.
pub proof fn lemma_raw_status_values(r: PhotoProcessingResult)
    requires
        record_consistent(r),
    ensures
        (r.raw_status is Some) <==> r.is_raw,
        r.raw_status matches Some(s) ==> (s@ == "converted"@ || s@ == "failed"@),
{
}

/// An embedding, when a record has one, has the fixed dimension.
pub proof fn lemma_embedding_dimension(r: PhotoProcessingResult)
    requires
        record_consistent(r),
    ensures
        r.clip_embedding matches Some(v) ==> v@.len() == EMBEDDING_DIM,
{
}

} // verus!
