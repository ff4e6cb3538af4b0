//! The container codec and what it is built from.

pub mod canon;
pub mod context;
pub mod decode;
pub mod encode;
pub mod from_toml;
pub mod index;
pub mod package;
pub mod pkcs;
pub mod records;
pub mod section;
pub mod strtab;
pub mod wire;
