//! Where a layer's data is loaded from.

use vstd::prelude::*;

verus! {

/// The place a layer is loaded from.
#[derive(Debug)]
pub enum LayerSource {
    /// An asset on Cesium Ion.
    CesiumIon { asset_id: u32 },
    /// A plain URL.
    Url { url: String },
    /// An object in an S3 bucket.
    S3 { bucket: String, key: String },
    /// A collection of an OGC API, optionally with a distinct display source.
    Ogc { id: u32, style_id: Option<u32>, display_source: Option<Box<LayerSource>> },
}

/// The mathematical value of a [`LayerSource`].
#[verifier::ext_equal]
pub ghost enum SourceView {
    CesiumIon { asset_id: u32 },
    Url { url: Seq<char> },
    S3 { bucket: Seq<char>, key: Seq<char> },
    Ogc { id: u32, style_id: Option<u32>, display_source: Option<Box<SourceView>> },
}

/// The mathematical value of a [`LayerSource`].
pub open spec fn source_view(s: LayerSource) -> SourceView
    decreases s,
{
    match s {
        LayerSource::CesiumIon { asset_id } => SourceView::CesiumIon { asset_id },
        LayerSource::Url { url } => SourceView::Url { url: url@ },
        LayerSource::S3 { bucket, key } => SourceView::S3 { bucket: bucket@, key: key@ },
        LayerSource::Ogc { id, style_id, display_source } => SourceView::Ogc {
            id,
            style_id,
            display_source: match display_source {
                Some(b) => Some(Box::new(source_view(*b))),
                None => None,
            },
        },
    }
}

impl View for LayerSource {
    type V = SourceView;

    open spec fn view(&self) -> SourceView {
        source_view(*self)
    }
}

impl Clone for LayerSource {
    fn clone(&self) -> (r: Self)
        ensures
            r@ == self@,
        decreases self,
    {
        match self {
            LayerSource::CesiumIon { asset_id } => LayerSource::CesiumIon {
                asset_id: *asset_id,
            },
            LayerSource::Url { url } => LayerSource::Url { url: url.clone() },
            LayerSource::S3 { bucket, key } => LayerSource::S3 {
                bucket: bucket.clone(),
                key: key.clone(),
            },
            LayerSource::Ogc { id, style_id, display_source } => LayerSource::Ogc {
                id: *id,
                style_id: *style_id,
                display_source: match display_source {
                    Some(b) => Some(Box::new((**b).clone())),
                    None => None,
                },
            },
        }
    }
}

} // verus!
