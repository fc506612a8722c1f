//! The error taxonomy of configuration loading and resolution.
//!
//! Every resolution-time error aborts the whole load; unused-definition
//! conditions are reported as warnings and never fail the load.

use vstd::prelude::*;

verus! {

/// What kind of definition a dangling by-name reference pointed at.
#[derive(Clone, Copy, Debug, PartialEq, Eq, Structural)]
pub enum ReferenceKind {
    VoxelMapping,
    TiffDisplay,
    Group,
    Layer,
    ColorMap,
}

/// What kind of identifier collided when documents were merged.
#[derive(Clone, Copy, Debug, PartialEq, Eq, Structural)]
pub enum IdKind {
    Layer,
    Group,
}

/// An error raised while loading, merging or resolving a configuration.
#[derive(Debug)]
pub enum ConfigError {
    /// The document at `path` does not exist.
    DocumentNotFound { path: String },
    /// The document at `path` exists but could not be read.
    UnreadableDocument { path: String, cause: String },
    /// The document at `path` could not be decoded into the typed shape.
    ConfigSyntax { path: String, cause: String },
    /// Two merged documents both define the identifier `id`.
    DuplicateId { kind: IdKind, id: String },
    /// A by-name reference to `name` has no backing definition.
    UnknownReference { kind: ReferenceKind, name: String, document: String },
    /// A bare group reference appeared where only definitions are permitted.
    StructuralViolation { document: String, reference: String },
}

/// The mathematical value of a [`ConfigError`].
#[verifier::ext_equal]
pub ghost enum ErrorView {
    DocumentNotFound { path: Seq<char> },
    UnreadableDocument { path: Seq<char>, cause: Seq<char> },
    ConfigSyntax { path: Seq<char>, cause: Seq<char> },
    DuplicateId { kind: IdKind, id: Seq<char> },
    UnknownReference { kind: ReferenceKind, name: Seq<char>, document: Seq<char> },
    StructuralViolation { document: Seq<char>, reference: Seq<char> },
}

impl View for ConfigError {
    type V = ErrorView;

    open spec fn view(&self) -> ErrorView {
        match self {
            ConfigError::DocumentNotFound { path } => ErrorView::DocumentNotFound {
                path: path@,
            },
            ConfigError::UnreadableDocument { path, cause } => ErrorView::UnreadableDocument {
                path: path@,
                cause: cause@,
            },
            ConfigError::ConfigSyntax { path, cause } => ErrorView::ConfigSyntax {
                path: path@,
                cause: cause@,
            },
            ConfigError::DuplicateId { kind, id } => ErrorView::DuplicateId {
                kind: *kind,
                id: id@,
            },
            ConfigError::UnknownReference { kind, name, document } => {
                ErrorView::UnknownReference { kind: *kind, name: name@, document: document@ }
            },
            ConfigError::StructuralViolation { document, reference } => {
                ErrorView::StructuralViolation { document: document@, reference: reference@ }
            },
        }
    }
}

/// Attaches the display name of the offending document to an error raised
/// while resolving that document's contents.
pub open spec fn spec_with_document(e: ErrorView, document: Seq<char>) -> ErrorView {
    match e {
        ErrorView::UnknownReference { kind, name, document: _ } => ErrorView::UnknownReference {
            kind,
            name,
            document,
        },
        ErrorView::StructuralViolation { document: _, reference } => {
            ErrorView::StructuralViolation { document, reference }
        },
        _ => e,
    }
}

/// Rewrites the document name carried by `e` to `document`.
pub fn with_document(e: ConfigError, document: &String) -> (r: ConfigError)
    ensures
        r@ == spec_with_document(e@, document@),
{
    match e {
        ConfigError::UnknownReference { kind, name, document: _ } => {
            ConfigError::UnknownReference { kind, name, document: document.clone() }
        },
        ConfigError::StructuralViolation { document: _, reference } => {
            ConfigError::StructuralViolation { document: document.clone(), reference }
        },
        _ => e,
    }
}

/// What kind of definition an unused-definition warning is about.
#[derive(Clone, Copy, Debug, PartialEq, Eq, Structural)]
pub enum UnusedKind {
    Layer,
    Group,
    VoxelMapping,
    TiffDisplay,
}

/// A non-fatal report that a definition was never referenced.
#[derive(Debug)]
pub struct UnusedWarning {
    pub kind: UnusedKind,
    pub id: String,
}

/// The mathematical value of an [`UnusedWarning`].
#[verifier::ext_equal]
pub ghost struct WarningView {
    pub kind: UnusedKind,
    pub id: Seq<char>,
}

impl View for UnusedWarning {
    type V = WarningView;

    open spec fn view(&self) -> WarningView {
        WarningView { kind: self.kind, id: self.id@ }
    }
}

} // verus!
