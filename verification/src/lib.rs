//! Signed container format for source packages: the binary codec, the
//! string table, the section index and the signature engine.

pub mod config;
pub mod error;
pub mod network;
pub mod pack;
pub mod params;
pub mod utils;

pub use error::{CrateSpecError, Result};
