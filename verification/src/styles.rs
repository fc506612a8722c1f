//! Marker styles for vector layers.

use vstd::prelude::*;

verus! {

/// The shapes a point marker can take.
#[derive(Clone, Copy, Debug, PartialEq, Eq, Structural)]
pub enum ShapeMarkerType {
    Circle,
    Triangle,
    Square,
}

/// The marker type that renders an image.
#[derive(Clone, Copy, Debug, PartialEq, Eq, Structural)]
pub enum IconMarkerType {
    Icon,
}

/// How the interior of a marker or polygon is painted.
#[derive(Debug)]
pub struct FillStyle {
    pub color: Option<String>,
}

/// The mathematical value of a [`FillStyle`].
#[verifier::ext_equal]
pub ghost struct FillStyleView {
    pub color: Option<Seq<char>>,
}

impl View for FillStyle {
    type V = FillStyleView;

    open spec fn view(&self) -> FillStyleView {
        FillStyleView {
            color: match &self.color {
                Some(c) => Some(c@),
                None => None,
            },
        }
    }
}

impl Clone for FillStyle {
    fn clone(&self) -> (r: Self)
        ensures
            r@ == self@,
    {
        FillStyle {
            color: match &self.color {
                Some(c) => Some(c.clone()),
                None => None,
            },
        }
    }
}

/// Point marker options that render an icon from an image source.
#[derive(Debug)]
pub struct IconPointVectorOptions {
    pub kind: IconMarkerType,
    pub src: String,
}

/// The mathematical value of an [`IconPointVectorOptions`].
#[verifier::ext_equal]
pub ghost struct IconPointVectorOptionsView {
    pub kind: IconMarkerType,
    pub src: Seq<char>,
}

impl View for IconPointVectorOptions {
    type V = IconPointVectorOptionsView;

    open spec fn view(&self) -> IconPointVectorOptionsView {
        IconPointVectorOptionsView { kind: self.kind, src: self.src@ }
    }
}

impl Clone for IconPointVectorOptions {
    fn clone(&self) -> (r: Self)
        ensures
            r@ == self@,
    {
        IconPointVectorOptions { kind: self.kind, src: self.src.clone() }
    }
}

} // verus!
