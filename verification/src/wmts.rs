//! Tiled raster layers served over WMTS.

use vstd::prelude::*;

verus! {

/// A tiled raster layer; the layer id doubles as the WMTS layer name.
#[derive(Clone, Copy, Debug, PartialEq, Eq, Structural)]
pub struct WmtsLayer {
    /// The zoom level from which on no higher-resolution tiles are fetched.
    pub max_level: Option<u32>,
}

} // verus!
