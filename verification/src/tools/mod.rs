//! The extraction and map-dump tools: decoding of every archive into plain
//! data for export.

pub mod audio;
pub mod extract;
pub mod mapdump;
