//! A one-dimensional mipmap: a pyramid of progressively coarser copies of a
//! sequence, each level built by averaging neighbouring pairs of the level below.

mod mipmap;
mod sample;

pub use mipmap::MipMap1D;
pub use sample::Sample;
