//! Content fingerprints for video files and output paths for their subtitles.

pub mod digest;
pub mod error;
pub mod fingerprint;
pub mod paths;
pub mod target;
