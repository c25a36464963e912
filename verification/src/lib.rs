//! Verified core of a batch file organiser and compressor.
pub mod category;
pub mod ffmpeg;
pub mod layout;
pub mod lines;
pub mod media;
pub mod numbers;
pub mod path;
pub mod plan;
pub mod protocol;
pub mod session;
pub mod text;
