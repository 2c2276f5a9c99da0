//! Locates a fixed-size game character sprite in reference-resolution
//! screenshots by a pixel-color pattern heuristic, then crops, selects and
//! encodes frame sequences into a looping animated image with alternating
//! frame timing.

pub mod find_link;
pub mod gif;
pub mod names;
pub mod pipeline;
pub mod sprites;
pub mod raster;
pub mod region;
pub mod select;
pub mod timing;
