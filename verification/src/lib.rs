//! Matching of subtitle files to video files that share an episode
//! identifier, and planning of the renames that align their names.
//!
//! The pipeline has four stages: a caller-supplied flat list of file paths
//! is classified into subtitles and videos by extension, an episode
//! identifier is extracted from each file name through a configured
//! regular expression, each subtitle is matched to the video with the same
//! identifier, and a rename operation is planned for every subtitle whose
//! name differs from its target. Carrying the operations out, as well as
//! all input and output, is left to the caller.

pub mod classify;
pub mod config;
pub mod execute;
pub mod paths;
pub mod pattern;
pub mod pipeline;
pub mod plan;
pub mod text;
