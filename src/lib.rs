//! Progressive, prioritised page loading for paginated image collections.
//!
//! The library holds the logic of the loader: the table that collects page
//! results, the per-worker scheduling policy, the page sources' enumeration
//! rules, the decoders' post-processing and the reader's navigation rules.
//! Threads, files and the window live in the application around it.


mod cmd;
mod decoders;
mod gap_vec;
mod navigation;
mod paths;
mod pipeline;
mod schedule;
mod settings;
mod sources;

pub use cmd::Args;
pub use decoders::{
    decode_image, image_format, is_image_supported, to_rgb8, DecodeError, ImageFormat,
    DecodedImage, ImageDecoder, JpegDecoder, PngDecoder, RawImage, SampleDepth, Samples,
};
pub use gap_vec::GapVec;
pub use navigation::{
    displayed_pages, jump_target, last_page, neighbour_index, relative_page_change, NavError,
};
pub use paths::{compare_paths, extension_is, extension_start};
pub use pipeline::{
    lemma_record_then_snapshot, lemma_restart_atomic, worker_count, Generation, MAX_WORKERS,
};
pub use schedule::{lemma_partition_covers_once, Worker};
pub use settings::Settings;
pub use sources::{
    archive_ext_matches, load_image_source, select_pages, ContainerEntry, EmptySource,
    ImageDirectory, ImageSource, Page, PageError, PathInfo, SourceError, SourceKind, ZipFile,
};
