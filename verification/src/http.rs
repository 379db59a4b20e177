//! What the driver serves over HTTP.

pub mod directory;
