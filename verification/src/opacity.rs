//! A layer's default opacity.

use vstd::prelude::*;

verus! {

/// How opaque a layer is rendered by default.
///
/// The opacity is carried in thousandths of full opacity, so that a value of
/// 1000 is fully opaque and 0 fully transparent.
#[derive(Clone, Copy, Debug, PartialEq, Eq, Structural)]
pub enum LayerOpacity {
    /// An opacity in thousandths of full opacity.
    Value(u32),
    /// The layer's opacity control is disabled.
    Disabled,
}

impl Default for LayerOpacity {
    /// Layers are fully opaque unless the document says otherwise.
    fn default() -> (r: Self)
        ensures
            r == LayerOpacity::Value(1000u32),
    {
        LayerOpacity::Value(1000)
    }
}

} // verus!
