//! Virtual presentation of retro game collections: capability resolution,
//! presentation planning, artifact materialization and live disc readers.
pub mod text;
pub mod model;
pub mod output;
pub mod readers;
pub mod policy;
