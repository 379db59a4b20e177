//! Mapping and negotiation between station codecs and PBX formats.

pub mod audio;
pub mod video;
