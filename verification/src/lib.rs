//! Configuration, directory and media policy of an SCCP channel driver.

use vstd::prelude::*;

pub mod address;
pub mod config;
pub mod http;
pub mod media;
pub mod number;
pub mod station;
pub mod text;

verus! {

} // verus!
