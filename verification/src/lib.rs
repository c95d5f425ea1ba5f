//! Palette engine for a fixed-format 56-byte console palette file.
//!
//! The library decodes and encodes the binary palette layout, matches
//! arbitrary RGB pixels against a reference template under a per-channel
//! tolerance, and materializes palette-indexed images: it builds index
//! buffers, scales them by integer nearest-neighbor block replication and
//! composites several of them into one tiled canvas.  Reading and writing
//! files, terminal coloring and command-line handling live outside the
//! library.

pub mod color_matcher;
pub mod helpers;
pub mod image_handler;
pub mod palette;
pub mod png_helper;
