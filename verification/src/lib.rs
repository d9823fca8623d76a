//! Narrated-video pipeline logic: the texts taken from a forum thread, the
//! clips spoken from them, the timeline of the clips, and the command lines
//! that let ffmpeg put sound and captions on a background video.

pub mod audio;
pub mod chars;
pub mod config;
pub mod decimal;
pub mod drawtext;
pub mod emoji;
pub mod escape;
pub mod ffmpeg;
pub mod number;
pub mod reddit;
pub mod scratch;
pub mod span;
pub mod timeline;
pub mod timestamp;
pub mod video;
pub mod voice;
pub mod wrap;

pub use scratch::save_voices;
