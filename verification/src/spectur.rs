//! The media companion: streams that a browser was seen to load, what they
//! hold, and how they are downloaded.

pub mod actions;
pub mod analyzer;
pub mod capture_laws;
pub mod dash;
pub mod download_laws;
pub mod downloads;
pub mod duration_laws;
pub mod durations;
pub mod hls;
pub mod json;
pub mod look_laws;
pub mod manifest_laws;
pub mod markup;
pub mod markup_laws;
pub mod message_laws;
pub mod probe;
pub mod spawner;
pub mod stream_laws;
pub mod types;
pub mod urls;
pub mod ws;
