//! Text extraction from scanned manga pages, with the rules of the storage
//! synchronisation service that accompanies it.
//!
//! A page is decoded, split into horizontal chunks of bounded height, and
//! recognised chunk by chunk. The lines that the recogniser reports are
//! placed in their chunk, cleaned, merged into blocks of text, and moved to
//! coordinates of the whole page. The module [`ocr`] holds this pipeline;
//! the module [`sync`] holds what the synchronisation service decides.
//!
//! The library counts in integers. Normalised coordinates, angles, cosines
//! and sines are millionths; coordinates inside a chunk are half millionths
//! of a pixel. Whoever holds floating-point values converts them at the
//! edge.

pub mod ocr;
pub mod sync;
