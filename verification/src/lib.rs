//! Track enrichment for GPS activity recordings.
//!
//! The library turns raw activity records into track points, decides which
//! one-degree terrain tiles a set of points needs, indexes loaded tiles, and
//! joins each point to an elevation sample under explicit missing-data and
//! overwrite policies.
//!
//! Coordinates are carried as the source format's 32-bit semicircle values
//! (`degrees = semicircles * 180 / 2^31`), elevations as integer millimetres,
//! and timestamps as UNIX seconds, so every step is exact integer arithmetic.

pub mod args;
pub mod elevation;
pub mod files;
pub mod fit;
pub mod point;
pub mod record;
pub mod tile;

pub use fit::Fit;
