//! A verified core for a media-file catalog server: it models the records of
//! files discovered on disk, the byte-range windows used to serve partial
//! content over HTTP, the breadth-first directory walk that feeds the catalog,
//! and the single-flight gate that keeps two catalog sweeps from running at
//! once.

pub mod catalog;
pub mod delivery;
pub mod dir;
pub mod error;
pub mod file;
pub mod indexer;
pub mod path;
pub mod range;
pub mod stream;
pub mod testing;
pub mod text;
