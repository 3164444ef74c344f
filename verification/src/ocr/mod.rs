//! The page pipeline: chunking, geometry, text clean-up, line merging and
//! the mapping of chunk coordinates back onto the page.

pub mod catalog;
pub mod chunk;
pub mod decode;
pub mod fixed;
pub mod geometry;
pub mod merge;
pub mod pipeline;
pub mod renorm;
pub mod retry;
pub mod result;
pub mod text;
