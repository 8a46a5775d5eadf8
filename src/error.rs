//! Errors of package resolution and configuration decoding.
use vstd::prelude::*;

verus! {

/// Why a package or its packing configuration could not be had.
#[derive(Debug, Clone, PartialEq, Eq)]
pub enum PackError {
    /// No package of the workspace has the requested name.
    UnknownPackage(String),
    /// More than one package of the workspace has the requested name.
    AmbiguousPackage(String),
    /// No name was requested and the workspace has no single package to pick.
    AmbiguousWorkspace,
    /// The package's metadata holds no packing section.
    MissingSection,
    /// A field of the packing section has the wrong kind: the field's name and
    /// the kind that was expected.
    MalformedSection(String, String),
}

/// The mathematical form of a [`PackError`].
pub enum PackErrorView {
    UnknownPackage(Seq<char>),
    AmbiguousPackage(Seq<char>),
    AmbiguousWorkspace,
    MissingSection,
    MalformedSection(Seq<char>, Seq<char>),
}

impl View for PackError {
    type V = PackErrorView;

    open spec fn view(&self) -> PackErrorView {
        match self {
            PackError::UnknownPackage(n) => PackErrorView::UnknownPackage(n@),
            PackError::AmbiguousPackage(n) => PackErrorView::AmbiguousPackage(n@),
            PackError::AmbiguousWorkspace => PackErrorView::AmbiguousWorkspace,
            PackError::MissingSection => PackErrorView::MissingSection,
            PackError::MalformedSection(f, k) => PackErrorView::MalformedSection(f@, k@),
        }
    }
}

} // verus!
