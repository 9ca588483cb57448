//! Catalog-addressed access to a convention-named music library, and the
//! decisions behind streaming its tracks through external encoders.

pub mod album;
pub mod backend;
pub mod convention;
pub mod flac;
pub mod index;
pub mod metadata;
pub mod pipe;
pub mod tag;
pub mod transcode;

pub use backend::{BackendError, DirEntry, FileBackend, Scan, ScanRequest, TrackFile};
pub use flac::{decode_header, FlacHeader, MetadataBlock, MetadataBlockData};
pub use tag::{TagRef, TagString, TagType};
pub use transcode::{AacTranscoder, AudioQuality, FlacTranscoder, OpusTranscoder, Transcoder};
