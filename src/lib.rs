//! Geometry acquisition, placement and input ingestion for a small
//! always-on-top text overlay.

pub mod geometry;
pub mod ingest;
pub mod parse;
pub mod startup;
pub mod text;
