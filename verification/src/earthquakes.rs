//! Point-event feeds of recorded earthquakes.

use vstd::prelude::*;
use crate::source::{LayerSource, SourceView};

verus! {

/// A layer showing a feed of recorded earthquakes.
#[derive(Debug)]
pub struct EarthquakesLayer {
    /// Where the feed is loaded from.
    pub source: LayerSource,
}

/// The mathematical value of an [`EarthquakesLayer`].
#[verifier::ext_equal]
pub ghost struct EarthquakesLayerView {
    pub source: SourceView,
}

impl View for EarthquakesLayer {
    type V = EarthquakesLayerView;

    open spec fn view(&self) -> EarthquakesLayerView {
        EarthquakesLayerView { source: self.source@ }
    }
}

impl Clone for EarthquakesLayer {
    fn clone(&self) -> (r: Self)
        ensures
            r@ == self@,
    {
        EarthquakesLayer { source: self.source.clone() }
    }
}

} // verus!
