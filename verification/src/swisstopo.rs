//! Tiled raster layers served by the national map provider.

use vstd::prelude::*;

verus! {

/// A tiled raster layer of the national map provider.
#[derive(Clone, Copy, Debug, PartialEq, Eq, Structural)]
pub struct SwisstopoLayer {
    /// The zoom level from which on no higher-resolution tiles are fetched.
    pub max_level: Option<u32>,
    /// Whether the tile service provides a legend for the layer.
    pub has_legend: bool,
}

} // verus!
