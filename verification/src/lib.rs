//! Vector-data access and normalization layer for a small GIS viewer.
//!
//! The library decides which text encodings to try when opening legacy
//! vector files, detects whether a layer's coordinate reference system
//! requires reprojection to WGS84, extracts feature attributes into a
//! JSON-like value model (including ad-hoc parsing of KML `description`
//! blobs), paginates features, assembles single- and multi-layer dataset
//! summaries, and plans exports through an external conversion tool.
//! File and process I/O, and the native geometry engine, live outside the
//! library: callers read raw values from them and hand those values in.

pub mod errors;
pub mod strutil;
pub mod encoding;
pub mod floatbits;
pub mod extent;
pub mod crs;
pub mod jsonval;
pub mod props;
pub mod kml;
pub mod features;
pub mod info;
pub mod opener;
pub mod export;
pub mod bootstrap;
pub mod shp;
