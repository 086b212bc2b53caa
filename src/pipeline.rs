//! The per-item processing state machine.
//!
//! An item moves from its start through reading file facts, reading capture
//! metadata, decoding (standard, high-efficiency, or RAW with tone matching),
//! orientation and artifact generation to `Done`; any failure leads straight
//! to `Failed`, keeping what was read before it. Each transition takes the
//! outcome of the previous outside step and names the next one.
use vstd::prelude::*;
use crate::artifacts::{
    decode_rgb, decoded_rgb, generate_all_thumbnails_internal, generate_phash_from_image, size_bounds,
    size_names, spec_phash, spec_thumbnail, spec_thumbnail_path, EmbeddingInput, ThumbnailJob, EMBEDDING_DIM,
};
use crate::format::{
    chars_of, detect_file_type, file_name, raw_format_of, raw_mime_type, spec_file_type, spec_raw_format,
    spec_raw_mime_type, string_of, FileType,
};
use crate::orientation::{apply_orientation, code_of, is_oriented};
use crate::raster::Raster;
use crate::record::{
    record_consistent, spec_message, text, ExifData, FileFacts, ItemError, PhotoProcessingResult,
};
use crate::tone::{bytes, match_histograms, remap, spec_channel_curve};

verus! {

/// Where an item stands.
#[derive(Clone, Copy, Debug, PartialEq, Eq, Structural)]
pub enum Stage {
    MetadataRead,
    FormatDispatch,
    StandardDecode,
    HighEfficiencyDecode,
    RawPreview,
    RawDecode,
    ArtifactGeneration,
    Done,
    Failed,
}

/// An embedded preview found inside a RAW container.
pub struct EmbeddedPreview {
    pub is_jpeg: bool,
    pub width: u32,
    pub height: u32,
    pub data: Vec<u8>,
}

/// A decoded standard or high-efficiency image.
pub struct DecodedImage {
    pub raster: Raster,
    pub mime_type: Option<String>,
}

/// The next outside step for an item.
pub enum Action {
    /// Read the file's size and timestamps.
    ReadFileFacts,
    /// Read the capture metadata.
    ReadCaptureMetadata,
    /// Decode the file with the pixel codec.
    DecodeImage { high_efficiency: bool },
    /// Read the RAW file and list its embedded previews.
    ScanPreviews,
    /// Read the RAW file again, unpack and demosaic it.
    DecodeRaw,
    /// Write the thumbnails (best effort) and request the embedding.
    ProduceArtifacts { thumbnails: Vec<ThumbnailJob>, embedding_input: EmbeddingInput },
    /// The item is finished.
    Finish(PhotoProcessingResult),
}

/// Pixels produced by unpacking and demosaicing a RAW file.
pub struct RawPixels {
    pub width: u32,
    pub height: u32,
    pub data: Vec<u8>,
}

pub open spec fn area(p: EmbeddedPreview) -> int {
    p.width as int * p.height as int
}

/// Index of the largest JPEG preview by pixel area; among equally large ones
/// the last.
pub fn select_largest_jpeg(previews: &Vec<EmbeddedPreview>) -> (r: Option<usize>)
    ensures
        r is None ==> forall|j: int| 0 <= j < previews@.len() ==> !(#[trigger] previews@[j]).is_jpeg,
        r matches Some(i) ==> {
            &&& i < previews@.len()
            &&& previews@[i as int].is_jpeg
            &&& forall|j: int|
                0 <= j < previews@.len() && (#[trigger] previews@[j]).is_jpeg ==> area(previews@[j]) <= area(
                    previews@[i as int],
                )
            &&& forall|j: int|
                i < j < previews@.len() && (#[trigger] previews@[j]).is_jpeg ==> area(previews@[j]) < area(
                    previews@[i as int],
                )
        },
{
    let mut best: Option<usize> = None;
    let mut best_area: u64 = 0;
    for j in 0..previews.len()
        invariant
            best is None ==> forall|m: int| 0 <= m < j ==> !(#[trigger] previews@[m]).is_jpeg,
            best matches Some(i) ==> {
                &&& i < j
                &&& previews@[i as int].is_jpeg
                &&& best_area == area(previews@[i as int])
                &&& forall|m: int|
                    0 <= m < j && (#[trigger] previews@[m]).is_jpeg ==> area(previews@[m]) <= best_area
                &&& forall|m: int|
                    i < m < j && (#[trigger] previews@[m]).is_jpeg ==> area(previews@[m]) < best_area
            },
    {
        let p = &previews[j];
        if p.is_jpeg {
            assert(p.width as int * p.height as int <= u64::MAX) by (nonlinear_arith)
                requires
                    p.width <= u32::MAX,
                    p.height <= u32::MAX,
            ;
            let a = (p.width as u64) * (p.height as u64);
            if best.is_none() || a >= best_area {
                best = Some(j);
                best_area = a;
            }
        }
    }
    best
}

/// Preview `i` is a JPEG of the largest area, and the last such one.
pub open spec fn is_largest_jpeg(list: Seq<EmbeddedPreview>, i: int) -> bool {
    &&& 0 <= i < list.len()
    &&& list[i].is_jpeg
    &&& forall|j: int| 0 <= j < list.len() && (#[trigger] list[j]).is_jpeg ==> area(list[j]) <= area(list[i])
    &&& forall|j: int| i < j < list.len() && (#[trigger] list[j]).is_jpeg ==> area(list[j]) < area(list[i])
}

/// At most one preview is the largest JPEG.
pub proof fn lemma_largest_jpeg_unique(list: Seq<EmbeddedPreview>, i: int, k: int)
    requires
        is_largest_jpeg(list, i),
        is_largest_jpeg(list, k),
    ensures
        i == k,
{
    if i < k {
        assert(area(list[k]) < area(list[i]));
        assert(area(list[i]) <= area(list[k]));
    } else if k < i {
        assert(area(list[i]) < area(list[k]));
        assert(area(list[k]) <= area(list[i]));
    }
}

/// Index of the largest JPEG preview, when there is one.
pub open spec fn largest_jpeg_index(list: Seq<EmbeddedPreview>) -> int {
    choose|i: int| is_largest_jpeg(list, i)
}

/// The largest JPEG preview decoded, when there is one and it decodes.
pub open spec fn usable_preview(list: Seq<EmbeddedPreview>) -> Option<(u32, u32, Seq<u8>)> {
    if exists|i: int| is_largest_jpeg(list, i) {
        decoded_rgb(list[largest_jpeg_index(list)].data@)
    } else {
        None
    }
}

/// The largest embedded JPEG preview, decoded for tone matching, with its
/// encoded bytes kept for the embedding provider; nothing when there is no
/// JPEG preview or it does not decode.
pub fn extract_preview_with_jpeg(previews: Vec<EmbeddedPreview>) -> (r: Option<(Raster, Vec<u8>)>)
    ensures
        r matches Some((img, bytes)) ==> img.wf() && exists|i: int|
            #[trigger] is_largest_jpeg(previews@, i) && bytes@ == previews@[i].data@ && decoded_rgb(bytes@)
                == Some((img.width, img.height, img.data@)),
        r is None <==> !exists|i: int| #[trigger] is_largest_jpeg(previews@, i) && decoded_rgb(previews@[i].data@) is Some,
        r matches Some((img, bytes)) ==> usable_preview(previews@) == Some((img.width, img.height, img.data@))
            && bytes@ == previews@[largest_jpeg_index(previews@)].data@,
        r is None ==> usable_preview(previews@) is None,
{
    let ghost all = previews@;
    match select_largest_jpeg(&previews) {
        None => {
            assert(!exists|i: int| is_largest_jpeg(all, i));
            None
        },
        Some(i) => {
            let mut list = previews;
            let chosen = list.remove(i);
            assert(chosen == all[i as int]);
            assert(is_largest_jpeg(all, i as int));
            proof {
                lemma_largest_jpeg_unique(all, i as int, largest_jpeg_index(all));
            }
            match decode_rgb(chosen.data.as_slice()) {
                Some(p) => Some((p, chosen.data)),
                None => {
                    assert forall|k: int| #[trigger] is_largest_jpeg(all, k) implies decoded_rgb(all[k].data@) is None by {
                        if k < i {
                            assert(area(all[i as int]) < area(all[k]));
                        } else if k > i {
                            assert(area(all[k]) < area(all[i as int]));
                        }
                    }
                    None
                },
            }
        },
    }
}

/// An embedding is kept only when it has the fixed dimension.
pub open spec fn accepted_embedding(e: Option<Vec<u32>>) -> Option<Vec<u32>> {
    match e {
        Some(v) => if v@.len() == EMBEDDING_DIM {
            Some(v)
        } else {
            None
        },
        None => None,
    }
}

fn accept_embedding(e: Option<Vec<u32>>) -> (r: Option<Vec<u32>>)
    ensures
        r == accepted_embedding(e),
{
    match e {
        Some(v) => if v.len() == EMBEDDING_DIM {
            Some(v)
        } else {
            None
        },
        None => None,
    }
}

/// One item in progress.
pub struct PhotoItem {
    pub stage: Stage,
    pub file_path: String,
    pub relative_path: String,
    pub thumbnails_dir: String,
    pub file_type: FileType,
    pub facts: Option<FileFacts>,
    pub exif: Option<ExifData>,
    pub preview: Option<Raster>,
    pub preview_bytes: Option<Vec<u8>>,
    pub width: u32,
    pub height: u32,
    pub mime_type: Option<String>,
    pub phash: Option<String>,
    pub histogram_matched: bool,
}

pub open spec fn orientation_of(exif: Option<ExifData>) -> Option<u32> {
    match exif {
        Some(e) => e.orientation,
        None => None,
    }
}

/// The record of an action, when it finishes the item.
pub open spec fn finished(a: Action) -> Option<PhotoProcessingResult> {
    match a {
        Action::Finish(r) => Some(r),
        _ => None,
    }
}

/// What an action hands to the embedding provider, if anything.
pub open spec fn embedding_of(a: Action) -> Option<EmbeddingInput> {
    match a {
        Action::ProduceArtifacts { embedding_input, .. } => Some(embedding_input),
        _ => None,
    }
}

/// `a` hands out the four thumbnails of `o`, placed for `relative` under `root`.
pub open spec fn hands_out_thumbnails_of(a: Action, o: Raster, root: Seq<char>, relative: Seq<char>) -> bool {
    match a {
        Action::ProduceArtifacts { thumbnails, .. } => {
            &&& thumbnails@.len() == 4
            &&& forall|i: int|
                0 <= i < 4 ==> {
                    &&& (#[trigger] thumbnails@[i]).path@ == spec_thumbnail_path(root, size_names()[i], relative)
                    &&& (thumbnails@[i].image.width, thumbnails@[i].image.height, thumbnails@[i].image.data@)
                        == spec_thumbnail(o, size_bounds()[i])
                }
        },
        _ => false,
    }
}

/// What an item in artifact generation derives from its oriented raster `o`.
pub open spec fn derives_from(item: PhotoItem, a: Action, o: Raster) -> bool {
    &&& item.width == o.width
    &&& item.height == o.height
    &&& text(item.phash) == spec_phash(o)
    &&& hands_out_thumbnails_of(a, o, item.thumbnails_dir@, item.relative_path@)
}

/// When preview bytes were kept, they are what the embedding provider gets.
pub open spec fn embeds_preview(a: Action, preview_bytes: Option<Vec<u8>>) -> bool {
    match preview_bytes {
        Some(b) => embedding_of(a) == Some(EmbeddingInput::Encoded(b)),
        None => true,
    }
}

/// `full` is the demosaiced buffer `original`, tone-matched to the preview
/// when `matched`.
pub open spec fn tone_stage(full: Raster, original: Seq<u8>, preview: Option<Raster>, matched: bool) -> bool {
    if matched {
        match preview {
            Some(p) => bytes(full.data@) == remap(
                original,
                spec_channel_curve(original, p.data@, 0),
                spec_channel_curve(original, p.data@, 1),
                spec_channel_curve(original, p.data@, 2),
            ),
            None => false,
        }
    } else {
        full.data@ == original
    }
}

/// A record reports the file's size and timestamps, or zeros when they
/// could not be read.
pub open spec fn carries_facts(r: PhotoProcessingResult, facts: Option<FileFacts>) -> bool {
    match facts {
        Some(f) => r.size == f.size && r.created_at == f.created_at && r.modified_at == f.modified_at,
        None => r.size == 0 && r.created_at == 0 && r.modified_at == 0,
    }
}

/// The file facts an outcome carries.
pub open spec fn facts_of(outcome: Result<FileFacts, String>) -> Option<FileFacts> {
    match outcome {
        Ok(f) => Some(f),
        Err(_) => None,
    }
}

/// What holds of every record an item finishes with.
pub open spec fn record_of_item(r: PhotoProcessingResult, item: PhotoItem) -> bool {
    &&& record_consistent(r)
    &&& r.path@ == item.relative_path@
    &&& r.name@ == file_name(item.file_path@)
    &&& r.is_raw == (item.file_type == FileType::Raw)
    &&& (r.is_raw ==> text(r.raw_format) == spec_raw_format(item.file_path@))
    &&& (r.is_raw ==> text(r.mime_type) == spec_raw_mime_type(item.file_path@))
    &&& !r.is_raw ==> r.raw_format is None
}

/// A failure record of `item` with the given error text.
pub open spec fn failed_with(r: PhotoProcessingResult, item: PhotoItem, message: Seq<char>) -> bool {
    &&& record_of_item(r, item)
    &&& !r.success
    &&& text(r.error) == Some(message)
    &&& (r.is_raw ==> text(r.raw_error) == Some(message))
    &&& r.phash is None
    &&& r.clip_embedding is None
}

impl PhotoItem {
    pub open spec fn inv(&self) -> bool {
        &&& self.file_type == spec_file_type(self.file_path@)
        &&& (self.stage == Stage::StandardDecode ==> self.file_type == FileType::Standard)
        &&& (self.stage == Stage::HighEfficiencyDecode ==> self.file_type == FileType::Heif)
        &&& (self.stage == Stage::RawPreview || self.stage == Stage::RawDecode) ==> self.file_type
            == FileType::Raw
        &&& (self.stage != Stage::MetadataRead && self.stage != Stage::Done && self.stage != Stage::Failed
            ==> self.facts is Some)
        &&& (self.preview matches Some(p) ==> p.wf())
        &&& (self.stage == Stage::MetadataRead ==> self.facts is None)
        &&& (self.stage == Stage::ArtifactGeneration || self.stage == Stage::FormatDispatch) ==> self.file_type
            != FileType::Unsupported
        &&& (self.histogram_matched ==> self.file_type == FileType::Raw && (self.stage == Stage::RawDecode || self.stage
            == Stage::ArtifactGeneration || self.stage == Stage::Done))
    }

    /// Start an item: every item first reads its file facts.
    pub fn start(file_path: String, relative_path: String, thumbnails_dir: String) -> (r: (PhotoItem, Action))
        ensures
            r.0.inv(),
            r.0.file_path@ == file_path@,
            r.0.relative_path@ == relative_path@,
            r.0.thumbnails_dir@ == thumbnails_dir@,
            r.0.file_type == spec_file_type(file_path@),
            r.0.facts is None,
            r.0.exif is None,
            !r.0.histogram_matched,
            r.0.stage == Stage::MetadataRead,
            r.1 is ReadFileFacts,
    {
        let file_type = detect_file_type(file_path.as_str());
        let item = PhotoItem {
            stage: Stage::MetadataRead,
            file_path,
            relative_path,
            thumbnails_dir,
            file_type,
            facts: None,
            exif: None,
            preview: None,
            preview_bytes: None,
            width: 0,
            height: 0,
            mime_type: None,
            phash: None,
            histogram_matched: false,
        };
        (item, Action::ReadFileFacts)
    }

    /// Finish the item as failed, keeping what was read so far.
    fn fail(self, e: ItemError) -> (r: (PhotoItem, PhotoProcessingResult))
        requires
            self.inv(),
        ensures
            r.0.stage == Stage::Failed,
            r.0.inv(),
            r.0.file_path@ == self.file_path@,
            r.0.relative_path@ == self.relative_path@,
            r.0.thumbnails_dir@ == self.thumbnails_dir@,
            r.0.file_type == self.file_type,
            r.0.facts == self.facts,
            r.0.exif is None,
            r.1.exif == self.exif,
            failed_with(r.1, r.0, spec_message(e)),
            carries_facts(r.1, self.facts),
            self.file_type != FileType::Raw ==> r.1.mime_type is None,
            !r.0.histogram_matched,
    {
        let message = e.message();
        let is_raw = self.file_type == FileType::Raw;
        let (size, created_at, modified_at) = match &self.facts {
            Some(f) => (f.size, f.created_at, f.modified_at),
            None => (0, 0, 0),
        };
        let name = file_name_of(self.file_path.as_str());
        let rec = PhotoProcessingResult {
            path: self.relative_path.clone(),
            name,
            size,
            created_at,
            modified_at,
            width: None,
            height: None,
            mime_type: if is_raw {
                raw_mime_type(self.file_path.as_str())
            } else {
                None
            },
            phash: None,
            clip_embedding: None,
            exif: self.exif,
            is_raw,
            raw_format: if is_raw {
                raw_format_of(self.file_path.as_str())
            } else {
                None
            },
            raw_status: if is_raw {
                Some(String::from_str("failed"))
            } else {
                None
            },
            raw_error: if is_raw {
                Some(message.clone())
            } else {
                None
            },
            success: false,
            error: Some(message),
        };
        let item = PhotoItem {
            stage: Stage::Failed,
            file_path: self.file_path,
            relative_path: self.relative_path,
            thumbnails_dir: self.thumbnails_dir,
            file_type: self.file_type,
            facts: self.facts,
            exif: None,
            preview: None,
            preview_bytes: None,
            width: 0,
            height: 0,
            mime_type: None,
            phash: None,
            histogram_matched: false,
        };
        (item, rec)
    }
}

impl PhotoItem {
    /// File facts have been read, or could not be.
    pub fn on_file_facts(self, outcome: Result<FileFacts, String>) -> (r: (PhotoItem, Action))
        requires
            self.inv(),
            self.stage == Stage::MetadataRead,
        ensures
            r.0.inv(),
            r.0.relative_path@ == self.relative_path@,
            r.0.file_path@ == self.file_path@,
            r.0.thumbnails_dir@ == self.thumbnails_dir@,
            r.0.file_type == self.file_type,
            self.file_type == FileType::Unsupported ==> r.0.stage == Stage::Failed,
            self.file_type == FileType::Unsupported ==> (finished(r.1) matches Some(rec) && failed_with(
                rec,
                r.0,
                "Unsupported file type"@,
            ) && carries_facts(rec, facts_of(outcome)) && rec.exif == self.exif && rec.mime_type is None),
            self.file_type != FileType::Unsupported && outcome is Ok ==> r.0.stage == Stage::FormatDispatch
                && r.1 is ReadCaptureMetadata && r.0.exif == self.exif && r.0.facts == facts_of(outcome),
            self.file_type != FileType::Unsupported && outcome is Err ==> r.0.stage == Stage::Failed,
            outcome matches Err(m) ==> (self.file_type != FileType::Unsupported ==> (finished(r.1) matches Some(
                rec,
            ) && failed_with(rec, r.0, "Failed to read file metadata: "@ + m@) && carries_facts(rec, None)
                && rec.exif == self.exif)),
    {
        if self.file_type == FileType::Unsupported {
            let mut item = self;
            item.stage = Stage::Failed;
            item.facts = match outcome {
                Ok(f) => Some(f),
                Err(_) => None,
            };
            let (item, rec) = item.fail(ItemError::UnsupportedFileType);
            return (item, Action::Finish(rec));
        }
        match outcome {
            Err(m) => {
                let (item, rec) = self.fail(ItemError::MetadataUnreadable(m));
                (item, Action::Finish(rec))
            },
            Ok(f) => {
                let mut item = self;
                item.facts = Some(f);
                item.stage = Stage::FormatDispatch;
                (item, Action::ReadCaptureMetadata)
            },
        }
    }

    /// Capture metadata has been read (or is absent); dispatch on the format.
    pub fn on_capture_metadata(self, exif: Option<ExifData>) -> (r: (PhotoItem, Action))
        requires
            self.inv(),
            self.stage == Stage::FormatDispatch,
        ensures
            r.0.inv(),
            r.0.relative_path@ == self.relative_path@,
            r.0.file_path@ == self.file_path@,
            r.0.thumbnails_dir@ == self.thumbnails_dir@,
            r.0.exif == exif,
            r.0.file_type == self.file_type,
            r.0.facts == self.facts,
            !r.0.histogram_matched,
            self.file_type == FileType::Raw ==> r.0.stage == Stage::RawPreview && r.1 is ScanPreviews,
            self.file_type == FileType::Heif ==> r.0.stage == Stage::HighEfficiencyDecode && r.1 matches Action::DecodeImage { high_efficiency: true },
            self.file_type == FileType::Standard ==> r.0.stage == Stage::StandardDecode && r.1 matches Action::DecodeImage { high_efficiency: false },
    {
        let mut item = self;
        item.exif = exif;
        match item.file_type {
            FileType::Raw => {
                item.stage = Stage::RawPreview;
                (item, Action::ScanPreviews)
            },
            FileType::Heif => {
                item.stage = Stage::HighEfficiencyDecode;
                (item, Action::DecodeImage { high_efficiency: true })
            },
            _ => {
                item.stage = Stage::StandardDecode;
                (item, Action::DecodeImage { high_efficiency: false })
            },
        }
    }

    /// Orient the decoded raster and derive its fingerprint and thumbnails;
    /// the embedding provider gets `encoded` when given, else the raster.
    fn begin_artifacts(self, raster: Raster, encoded: Option<Vec<u8>>) -> (r: (PhotoItem, Action))
        requires
            self.inv(),
            raster.wf(),
            self.stage == Stage::StandardDecode || self.stage == Stage::HighEfficiencyDecode || self.stage
                == Stage::RawDecode,
        ensures
            r.0.inv(),
            r.0.stage == Stage::ArtifactGeneration,
            r.0.relative_path@ == self.relative_path@,
            r.0.file_path@ == self.file_path@,
            r.0.exif == self.exif,
            r.0.mime_type == self.mime_type,
            r.0.histogram_matched == self.histogram_matched,
            r.0.thumbnails_dir@ == self.thumbnails_dir@,
            r.0.file_type == self.file_type,
            r.0.facts == self.facts,
            exists|o: Raster|
                #[trigger] is_oriented(o, raster, code_of(orientation_of(self.exif))) && derives_from(r.0, r.1, o)
                    && (encoded is None ==> embedding_of(r.1) == Some(EmbeddingInput::Pixels(o))),
            encoded matches Some(b) ==> embedding_of(r.1) == Some(EmbeddingInput::Encoded(b)),
            r.1 is ProduceArtifacts,
    {
        let orientation = match &self.exif {
            Some(e) => e.orientation,
            None => None,
        };
        let oriented = apply_orientation(raster, orientation);
        let phash = generate_phash_from_image(&oriented);
        let thumbnails = generate_all_thumbnails_internal(
            &oriented,
            self.relative_path.as_str(),
            self.thumbnails_dir.as_str(),
        );
        let mut item = self;
        item.width = oriented.width;
        item.height = oriented.height;
        item.phash = phash;
        item.stage = Stage::ArtifactGeneration;
        item.preview = None;
        let ghost o = oriented;
        let embedding_input = match encoded {
            Some(b) => EmbeddingInput::Encoded(b),
            None => EmbeddingInput::Pixels(oriented),
        };
        assert(is_oriented(o, raster, code_of(orientation_of(item.exif))));
        (item, Action::ProduceArtifacts { thumbnails, embedding_input })
    }

    /// A standard or high-efficiency file has been decoded, or could not be.
    pub fn on_decoded(self, outcome: Result<DecodedImage, String>) -> (r: (PhotoItem, Action))
        requires
            self.inv(),
            self.stage == Stage::StandardDecode || self.stage == Stage::HighEfficiencyDecode,
            outcome matches Ok(d) ==> d.raster.wf(),
        ensures
            r.0.inv(),
            r.0.relative_path@ == self.relative_path@,
            r.0.file_path@ == self.file_path@,
            outcome matches Err(m) ==> r.0.stage == Stage::Failed,
            outcome matches Err(m) ==> (finished(r.1) matches Some(rec) && failed_with(
                rec,
                r.0,
                "Failed to decode image: "@ + m@,
            ) && rec.exif == self.exif && carries_facts(rec, self.facts)),
            r.0.file_type == self.file_type,
            r.0.facts == self.facts,
            !r.0.histogram_matched,
            outcome matches Ok(d) ==> r.0.stage == Stage::ArtifactGeneration && r.1 is ProduceArtifacts
                && r.0.exif == self.exif,
            outcome matches Ok(d) ==> exists|o: Raster|
                #[trigger] is_oriented(o, d.raster, code_of(orientation_of(self.exif))) && derives_from(r.0, r.1, o)
                    && embedding_of(r.1) == Some(EmbeddingInput::Pixels(o)),
            outcome matches Ok(d) ==> (self.file_type == FileType::Heif ==> text(r.0.mime_type) == Some("image/heic"@)),
            outcome matches Ok(d) ==> (self.file_type != FileType::Heif ==> text(r.0.mime_type) == text(d.mime_type)),
    {
        match outcome {
            Err(m) => {
                let (item, rec) = self.fail(ItemError::DecodeFailed(m));
                (item, Action::Finish(rec))
            },
            Ok(d) => {
                let mut item = self;
                item.mime_type = if item.file_type == FileType::Heif {
                    Some(String::from_str("image/heic"))
                } else {
                    d.mime_type
                };
                item.begin_artifacts(d.raster, None)
            },
        }
    }

    /// The embedded previews of a RAW file have been listed, or the file
    /// could not be read or opened. The largest JPEG preview is decoded for
    /// tone matching; its encoded bytes are kept for the embedding provider.
    pub fn on_previews(self, outcome: Result<Vec<EmbeddedPreview>, ItemError>) -> (r: (PhotoItem, Action))
        requires
            self.inv(),
            self.stage == Stage::RawPreview,
        ensures
            r.0.inv(),
            r.0.relative_path@ == self.relative_path@,
            r.0.file_path@ == self.file_path@,
            outcome matches Err(e) ==> r.0.stage == Stage::Failed,
            outcome matches Err(e) ==> (finished(r.1) matches Some(rec) && failed_with(rec, r.0, spec_message(e))
                && rec.exif == self.exif && carries_facts(rec, self.facts)),
            r.0.file_type == self.file_type,
            r.0.facts == self.facts,
            r.0.thumbnails_dir@ == self.thumbnails_dir@,
            outcome is Err ==> !r.0.histogram_matched,
            outcome is Ok ==> r.0.histogram_matched == self.histogram_matched,
            outcome is Ok ==> r.0.stage == Stage::RawDecode && r.1 is DecodeRaw && r.0.exif == self.exif,
            outcome matches Ok(list) ==> (r.0.preview matches Some(p) ==> usable_preview(list@) == Some(
                (p.width, p.height, p.data@),
            )),
            outcome matches Ok(list) ==> (r.0.preview is None ==> usable_preview(list@) is None),
            outcome matches Ok(list) ==> (r.0.preview is Some <==> exists|i: int|
                #[trigger] is_largest_jpeg(list@, i) && decoded_rgb(list@[i].data@) is Some),
            outcome is Ok ==> (r.0.preview is Some <==> r.0.preview_bytes is Some),
    {
        match outcome {
            Err(e) => {
                let (item, rec) = self.fail(e);
                (item, Action::Finish(rec))
            },
            Ok(list) => {
                let mut item = self;
                item.stage = Stage::RawDecode;
                match extract_preview_with_jpeg(list) {
                    Some((p, bytes)) => {
                        item.preview = Some(p);
                        item.preview_bytes = Some(bytes);
                    },
                    None => {
                        item.preview = None;
                        item.preview_bytes = None;
                    },
                }
                (item, Action::DecodeRaw)
            },
        }
    }

    /// The RAW file has been unpacked and demosaiced, or a step failed.
    /// With a preview whose shorter side is at least 800 pixels, the full
    /// raster is tone-matched to it before orientation.
    pub fn on_raw_pixels(self, outcome: Result<RawPixels, ItemError>) -> (r: (PhotoItem, Action))
        requires
            self.inv(),
            self.stage == Stage::RawDecode,
        ensures
            r.0.inv(),
            r.0.relative_path@ == self.relative_path@,
            r.0.file_path@ == self.file_path@,
            outcome matches Err(e) ==> r.0.stage == Stage::Failed,
            outcome matches Err(e) ==> (finished(r.1) matches Some(rec) && failed_with(rec, r.0, spec_message(e))
                && rec.exif == self.exif && carries_facts(rec, self.facts)),
            r.0.file_type == self.file_type,
            r.0.facts == self.facts,
            r.0.stage == Stage::Failed ==> !r.0.histogram_matched,
            outcome matches Ok(px) ==> (px.data@.len() != px.width as int * px.height as int * 3 <==> r.0.stage
                == Stage::Failed),
            outcome matches Ok(px) ==> (px.data@.len() != px.width as int * px.height as int * 3 ==> (finished(r.1)
                matches Some(rec) && failed_with(rec, r.0, "Failed to create image buffer"@) && rec.exif == self.exif
                && carries_facts(rec, self.facts))),
            outcome matches Ok(px) ==> (px.data@.len() == px.width as int * px.height as int * 3 ==> (r.1 is ProduceArtifacts
                && r.0.stage == Stage::ArtifactGeneration && r.0.histogram_matched == (self.preview matches Some(p)
                && p.width >= 800 && p.height >= 800))),
            outcome matches Ok(px) ==> (px.data@.len() == px.width as int * px.height as int * 3 ==> exists|
                full: Raster,
            |
                #[trigger] tone_stage(full, px.data@, self.preview, r.0.histogram_matched) && full.wf() && full.width
                    == px.width && full.height == px.height && exists|o: Raster|
                    #[trigger] is_oriented(o, full, code_of(orientation_of(self.exif))) && derives_from(r.0, r.1, o)
                        && (self.preview_bytes is None ==> embedding_of(r.1) == Some(EmbeddingInput::Pixels(o)))),
            outcome matches Ok(px) ==> (px.data@.len() == px.width as int * px.height as int * 3 ==> embeds_preview(
                r.1,
                self.preview_bytes,
            )),
    {
        match outcome {
            Err(e) => {
                let (item, rec) = self.fail(e);
                (item, Action::Finish(rec))
            },
            Ok(px) => {
                let ghost original = px.data@;
                match Raster::new(px.width, px.height, px.data) {
                    None => {
                        let (item, rec) = self.fail(ItemError::BufferMismatch);
                        proof {
                            reveal_strlit("Failed to create image buffer");
                        }
                        (item, Action::Finish(rec))
                    },
                    Some(full) => {
                        let mut full = full;
                        let mut item = self;
                        let preview = item.preview;
                        item.preview = None;
                        item.histogram_matched = match &preview {
                            Some(p) => match_histograms(&mut full, p),
                            None => false,
                        };
                        assert(tone_stage(full, original, preview, item.histogram_matched));
                        let encoded = item.preview_bytes;
                        item.preview_bytes = None;
                        item.mime_type = raw_mime_type(item.file_path.as_str());
                        let ghost staged = full;
                        let r = item.begin_artifacts(full, encoded);
                        assert(tone_stage(staged, original, preview, r.0.histogram_matched));
                        r
                    },
                }
            },
        }
    }

    /// Thumbnails have been written (best effort) and the embedding provider
    /// has answered; the item is done.
    pub fn on_embedding(self, embedding: Option<Vec<u32>>) -> (r: (PhotoItem, Action))
        requires
            self.inv(),
            self.stage == Stage::ArtifactGeneration,
        ensures
            r.0.inv(),
            r.0.stage == Stage::Done,
            r.0.relative_path@ == self.relative_path@,
            r.0.file_path@ == self.file_path@,
            r.0.file_type == self.file_type,
            r.0.histogram_matched == self.histogram_matched,
            finished(r.1) matches Some(rec) && record_of_item(rec, r.0) && rec.success,
            finished(r.1) matches Some(rec) && rec.width == Some(self.width) && rec.height == Some(self.height),
            finished(r.1) matches Some(rec) && text(rec.phash) == text(self.phash) && rec.exif == self.exif,
            finished(r.1) matches Some(rec) && rec.clip_embedding == accepted_embedding(embedding),
            finished(r.1) matches Some(rec) && (!rec.is_raw ==> text(rec.mime_type) == text(self.mime_type)),
            finished(r.1) matches Some(rec) && (rec.is_raw ==> text(rec.raw_status) == Some("converted"@)),
            finished(r.1) matches Some(rec) && carries_facts(rec, self.facts),
    {
        let is_raw = self.file_type == FileType::Raw;
        let (size, created_at, modified_at) = match &self.facts {
            Some(f) => (f.size, f.created_at, f.modified_at),
            None => (0, 0, 0),
        };
        let name = file_name_of(self.file_path.as_str());
        let rec = PhotoProcessingResult {
            path: self.relative_path.clone(),
            name,
            size,
            created_at,
            modified_at,
            width: Some(self.width),
            height: Some(self.height),
            mime_type: if is_raw {
                raw_mime_type(self.file_path.as_str())
            } else {
                self.mime_type
            },
            phash: self.phash,
            clip_embedding: accept_embedding(embedding),
            exif: self.exif,
            is_raw,
            raw_format: if is_raw {
                raw_format_of(self.file_path.as_str())
            } else {
                None
            },
            raw_status: if is_raw {
                Some(String::from_str("converted"))
            } else {
                None
            },
            raw_error: None,
            success: true,
            error: None,
        };
        proof {
            reveal_strlit("converted");
            reveal_strlit("failed");
        }
        let item = PhotoItem {
            stage: Stage::Done,
            file_path: self.file_path,
            relative_path: self.relative_path,
            thumbnails_dir: self.thumbnails_dir,
            file_type: self.file_type,
            facts: self.facts,
            exif: None,
            preview: None,
            preview_bytes: None,
            width: self.width,
            height: self.height,
            mime_type: None,
            phash: None,
            histogram_matched: self.histogram_matched,
        };
        (item, Action::Finish(rec))
    }
}

/// The last component of a path, as text.
pub fn file_name_of(path: &str) -> (r: String)
    ensures
        r@ == file_name(path@),
{
    let p = chars_of(path);
    let start = crate::format::find_after_last(&p, '/');
    let mut out: Vec<char> = Vec::new();
    for i in start..p.len()
        invariant
            start <= p@.len(),
            out@ == p@.subrange(start as int, i as int),
    {
        out.push(p[i]);
    }
    string_of(out.as_slice())
}

} // verus!
