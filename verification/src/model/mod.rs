//! The content model shared by the pipeline: sources, normalized content,
//! CD layouts, the virtual file tree, readers and errors.
pub mod cd;
pub mod content;
pub mod error;
pub mod reader;
pub mod source;
pub mod vfs;
