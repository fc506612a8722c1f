//! Layers: one renderable data source each, with a detail variant from a
//! fixed set.

use vstd::prelude::*;
use crate::access::{AccessView, LayerAccess};
use crate::colormap::{ColorMapTable, ColorMapView};
use crate::earthquakes::{EarthquakesLayer, EarthquakesLayerView};
use crate::error::{ConfigError, ErrorView};
use crate::opacity::LayerOpacity;
use crate::pool::pool_view;
use crate::tiff::{DisplayDefinitionView, TiffLayer, TiffLayerBandDisplayDefinition, TiffLayerView};
use crate::tiff::spec_parse_tiff_layer;
use crate::tiles3d::{Tiles3dLayer, Tiles3dLayerView};
use crate::translated::{TranslatedString, TranslatedStringView};
use crate::voxel::{VoxelLayer, VoxelLayerView, VoxelMappingDefinition, VoxelMappingDefinitionView};
use crate::voxel::spec_resolve_voxel_layer;
use crate::wmts::WmtsLayer;

verus! {

/// Where the legend for a layer can be found: the layer's own id (or no
/// legend at all), or a custom id.
#[derive(Debug)]
pub enum LayerLegend {
    IdOrDisabled(bool),
    CustomId(String),
}

/// The mathematical value of a [`LayerLegend`].
#[verifier::ext_equal]
pub ghost enum LegendView {
    IdOrDisabled(bool),
    CustomId(Seq<char>),
}

impl View for LayerLegend {
    type V = LegendView;

    open spec fn view(&self) -> LegendView {
        match self {
            LayerLegend::IdOrDisabled(b) => LegendView::IdOrDisabled(*b),
            LayerLegend::CustomId(s) => LegendView::CustomId(s@),
        }
    }
}

impl Clone for LayerLegend {
    fn clone(&self) -> (r: Self)
        ensures
            r@ == self@,
    {
        match self {
            LayerLegend::IdOrDisabled(b) => LayerLegend::IdOrDisabled(*b),
            LayerLegend::CustomId(s) => LayerLegend::CustomId(s.clone()),
        }
    }
}

/// A layer's detail, depending on the actual kind of layer.
#[derive(Debug)]
pub enum LayerDetail {
    Wmts(WmtsLayer),
    Tiles3d(Tiles3dLayer),
    Voxel(VoxelLayer),
    Tiff(TiffLayer),
    Earthquakes(EarthquakesLayer),
}

/// The mathematical value of a [`LayerDetail`].
#[verifier::ext_equal]
pub ghost enum DetailView {
    Wmts(WmtsLayer),
    Tiles3d(Tiles3dLayerView),
    Voxel(VoxelLayerView),
    Tiff(TiffLayerView),
    Earthquakes(EarthquakesLayerView),
}

impl View for LayerDetail {
    type V = DetailView;

    open spec fn view(&self) -> DetailView {
        match self {
            LayerDetail::Wmts(w) => DetailView::Wmts(*w),
            LayerDetail::Tiles3d(t) => DetailView::Tiles3d(t@),
            LayerDetail::Voxel(v) => DetailView::Voxel(v@),
            LayerDetail::Tiff(t) => DetailView::Tiff(t@),
            LayerDetail::Earthquakes(e) => DetailView::Earthquakes(e@),
        }
    }
}

/// The view of a sequence of custom-property pairs.
pub open spec fn props_view(s: Seq<(String, String)>) -> Seq<(Seq<char>, Seq<char>)> {
    Seq::new(s.len(), |i: int| (s[i].0@, s[i].1@))
}

/// One renderable data source of the configuration.
#[derive(Debug)]
pub struct Layer {
    /// A unique identifier for the layer, also used as part of the
    /// translation key for the layer's display name.
    pub id: String,
    /// The layer's default opacity.
    pub opacity: LayerOpacity,
    /// The id of this layer in the external geo-catalogue, if available.
    pub geocat_id: Option<String>,
    /// A url from which a representation of the layer can be downloaded.
    pub download_url: Option<TranslatedString>,
    /// Where the legend for the layer can be found; absent means none.
    pub legend: Option<LayerLegend>,
    /// Custom properties appended to each pick info on the layer.
    pub custom_properties: Vec<(String, String)>,
    /// Who may see the layer; absent means public.
    pub access: Option<LayerAccess>,
    /// Details depending on the actual kind of layer.
    pub detail: LayerDetail,
    /// How many times this layer has been referenced from a group.
    pub use_count: u32,
}

/// The mathematical value of a [`Layer`].
#[verifier::ext_equal]
pub ghost struct LayerView {
    pub id: Seq<char>,
    pub opacity: LayerOpacity,
    pub geocat_id: Option<Seq<char>>,
    pub download_url: Option<TranslatedStringView>,
    pub legend: Option<LegendView>,
    pub custom_properties: Seq<(Seq<char>, Seq<char>)>,
    pub access: Option<AccessView>,
    pub detail: DetailView,
    pub use_count: u32,
}

impl LayerView {
    /// The same layer with its use count one higher.
    pub open spec fn bumped(self) -> Self {
        LayerView { use_count: crate::pool::spec_bump(self.use_count), ..self }
    }
}

impl View for Layer {
    type V = LayerView;

    open spec fn view(&self) -> LayerView {
        LayerView {
            id: self.id@,
            opacity: self.opacity,
            geocat_id: match &self.geocat_id {
                Some(g) => Some(g@),
                None => None,
            },
            download_url: match &self.download_url {
                Some(u) => Some(u@),
                None => None,
            },
            legend: match &self.legend {
                Some(l) => Some(l@),
                None => None,
            },
            custom_properties: props_view(self.custom_properties@),
            access: match &self.access {
                Some(a) => Some(a@),
                None => None,
            },
            detail: self.detail@,
            use_count: self.use_count,
        }
    }
}

/// Resolves a layer's detail payload: a voxel detail binds its mapping
/// references against the voxel pool, a raster detail binds its display
/// references against the display pool and derives legend steps; other
/// details carry no references and stay as they are.
pub open spec fn spec_parse_layer(
    l: LayerView,
    vpool: Seq<(Seq<char>, VoxelMappingDefinitionView)>,
    tpool: Seq<(Seq<char>, DisplayDefinitionView)>,
    table: Seq<ColorMapView>,
) -> Result<
    (
        LayerView,
        Seq<(Seq<char>, VoxelMappingDefinitionView)>,
        Seq<(Seq<char>, DisplayDefinitionView)>,
    ),
    ErrorView,
> {
    match l.detail {
        DetailView::Voxel(v) => match spec_resolve_voxel_layer(v, vpool) {
            Ok((v2, vp)) => Ok((LayerView { detail: DetailView::Voxel(v2), ..l }, vp, tpool)),
            Err(e) => Err(e),
        },
        DetailView::Tiff(t) => match spec_parse_tiff_layer(t, tpool, table) {
            Ok((t2, tp)) => Ok((LayerView { detail: DetailView::Tiff(t2), ..l }, vpool, tp)),
            Err(e) => Err(e),
        },
        _ => Ok((l, vpool, tpool)),
    }
}

impl Layer {
    /// Resolves the layer's detail payload against the document's pools.
    pub fn parse(
        self,
        voxel_mappings: &mut Vec<(String, VoxelMappingDefinition)>,
        tiff_displays: &mut Vec<(String, TiffLayerBandDisplayDefinition)>,
        table: &ColorMapTable,
    ) -> (r: Result<Layer, ConfigError>)
        ensures
            match r {
                Ok(l) => spec_parse_layer(
                    self@,
                    pool_view(old(voxel_mappings)@),
                    pool_view(old(tiff_displays)@),
                    table@,
                ) == Ok::<_, ErrorView>(
                    (l@, pool_view(final(voxel_mappings)@), pool_view(final(tiff_displays)@)),
                ),
                Err(e) => spec_parse_layer(
                    self@,
                    pool_view(old(voxel_mappings)@),
                    pool_view(old(tiff_displays)@),
                    table@,
                ) == Err::<
                    (
                        LayerView,
                        Seq<(Seq<char>, VoxelMappingDefinitionView)>,
                        Seq<(Seq<char>, DisplayDefinitionView)>,
                    ),
                    _,
                >(e@),
            },
    {
        let Layer {
            id,
            opacity,
            geocat_id,
            download_url,
            legend,
            custom_properties,
            access,
            detail,
            use_count,
        } = self;
        let ghost d0 = detail@;
        let detail = match detail {
            LayerDetail::Voxel(v) => {
                match v.resolve(voxel_mappings) {
                    Ok(v2) => LayerDetail::Voxel(v2),
                    Err(e) => {
                        return Err(e);
                    },
                }
            },
            LayerDetail::Tiff(t) => {
                match t.parse(tiff_displays, table) {
                    Ok(t2) => LayerDetail::Tiff(t2),
                    Err(e) => {
                        return Err(e);
                    },
                }
            },
            other => other,
        };
        Ok(
            Layer {
                id,
                opacity,
                geocat_id,
                download_url,
                legend,
                custom_properties,
                access,
                detail,
                use_count,
            },
        )
    }
}

} // verus!
