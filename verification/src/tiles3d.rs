//! 3D tileset layers.

use vstd::prelude::*;
use crate::source::{LayerSource, SourceView};

verus! {

/// The order in which a tileset's properties are shown, either named or
/// written out in place.
#[derive(Debug)]
pub enum Tiles3dLayerOrderOfProperties {
    Reference(String),
    Definition(Vec<String>),
}

/// The mathematical value of a [`Tiles3dLayerOrderOfProperties`].
#[verifier::ext_equal]
pub ghost enum OrderOfPropertiesView {
    Reference(Seq<char>),
    Definition(Seq<Seq<char>>),
}

impl View for Tiles3dLayerOrderOfProperties {
    type V = OrderOfPropertiesView;

    open spec fn view(&self) -> OrderOfPropertiesView {
        match self {
            Tiles3dLayerOrderOfProperties::Reference(name) => OrderOfPropertiesView::Reference(
                name@,
            ),
            Tiles3dLayerOrderOfProperties::Definition(order) => OrderOfPropertiesView::Definition(
                crate::strings_view(order@),
            ),
        }
    }
}

impl Default for Tiles3dLayerOrderOfProperties {
    /// Without an explicit order, properties keep their default order.
    fn default() -> (r: Self)
        ensures
            r@ == OrderOfPropertiesView::Definition(Seq::<Seq<char>>::empty()),
    {
        let r = Tiles3dLayerOrderOfProperties::Definition(Vec::new());
        proof {
            assert(r@->Definition_0 =~= Seq::<Seq<char>>::empty());
        }
        r
    }
}

impl Clone for Tiles3dLayerOrderOfProperties {
    fn clone(&self) -> (r: Self)
        ensures
            r@ == self@,
    {
        match self {
            Tiles3dLayerOrderOfProperties::Reference(name) => {
                Tiles3dLayerOrderOfProperties::Reference(name.clone())
            },
            Tiles3dLayerOrderOfProperties::Definition(order) => {
                let r = Tiles3dLayerOrderOfProperties::Definition(crate::clone_strings(order));
                proof {
                    assert(r@->Definition_0 =~= self@->Definition_0);
                }
                r
            },
        }
    }
}

impl Tiles3dLayerOrderOfProperties {
    /// Whether no ordering information is present at all.
    pub fn is_empty(&self) -> (r: bool)
        ensures
            r == (self@ == OrderOfPropertiesView::Definition(Seq::<Seq<char>>::empty())),
    {
        match self {
            Tiles3dLayerOrderOfProperties::Reference(_) => false,
            Tiles3dLayerOrderOfProperties::Definition(order) => {
                let r = order.len() == 0;
                proof {
                    if order@.len() == 0 {
                        assert(crate::strings_view(order@) =~= Seq::<Seq<char>>::empty());
                    } else {
                        assert(crate::strings_view(order@).len() == order@.len());
                    }
                }
                r
            },
        }
    }
}

/// A 3D tileset layer.
#[derive(Debug)]
pub struct Tiles3dLayer {
    /// Where the tileset is loaded from.
    pub source: LayerSource,
    /// The order in which the tileset's properties are shown.
    pub order_of_properties: Tiles3dLayerOrderOfProperties,
}

/// The mathematical value of a [`Tiles3dLayer`].
#[verifier::ext_equal]
pub ghost struct Tiles3dLayerView {
    pub source: SourceView,
    pub order_of_properties: OrderOfPropertiesView,
}

impl View for Tiles3dLayer {
    type V = Tiles3dLayerView;

    open spec fn view(&self) -> Tiles3dLayerView {
        Tiles3dLayerView { source: self.source@, order_of_properties: self.order_of_properties@ }
    }
}

impl Clone for Tiles3dLayer {
    fn clone(&self) -> (r: Self)
        ensures
            r@ == self@,
    {
        Tiles3dLayer {
            source: self.source.clone(),
            order_of_properties: self.order_of_properties.clone(),
        }
    }
}

} // verus!
