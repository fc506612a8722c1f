//! Vector layers loaded from KML documents.

use vstd::prelude::*;
use crate::source::{LayerSource, SourceView};

verus! {

/// A vector layer backed by a KML document.
#[derive(Debug)]
pub struct KMLLayer {
    /// Where the document is loaded from.
    pub source: LayerSource,
}

/// The mathematical value of a [`KMLLayer`].
#[verifier::ext_equal]
pub ghost struct KMLLayerView {
    pub source: SourceView,
}

impl View for KMLLayer {
    type V = KMLLayerView;

    open spec fn view(&self) -> KMLLayerView {
        KMLLayerView { source: self.source@ }
    }
}

impl Clone for KMLLayer {
    fn clone(&self) -> (r: Self)
        ensures
            r@ == self@,
    {
        KMLLayer { source: self.source.clone() }
    }
}

} // verus!
