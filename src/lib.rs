//! Raster graphics toolkit: a PNG codec, an integer rasterizer and small
//! vector/matrix helpers.
use vstd::prelude::*;

pub mod canvas;
pub mod color;
pub mod math;
pub mod png;
pub mod sprite;

verus! {

} // verus!
