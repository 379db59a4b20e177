//! Media formats and per-channel audio preferences.

pub mod formats;
pub mod codec_preference;
