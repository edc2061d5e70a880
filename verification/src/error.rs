//! The single error type of the pipeline. Every stage fails fast: the caller
//! receives either the complete result set or the first failure encountered,
//! in discovery order.

use vstd::prelude::*;

verus! {

/// Spec-level value of an [`Error`].
pub enum ErrorModel {
    UnsupportedLibrary,
    Io,
    MetadataFormat,
    UnknownCrate { crate_name: Seq<char> },
    InconsistentNamespace { crate_name: Seq<char> },
    NameCollision { crate_name: Seq<char>, name: Seq<char> },
    EmptyDeclName { crate_name: Seq<char> },
    UnresolvedTypeRef { crate_name: Seq<char>, name: Seq<char> },
    ConfigParse,
    Generation,
}

/// What can terminate one pipeline run.
#[derive(Debug)]
pub enum Error {
    /// The library fails the generator's usability check; reported before any
    /// scanning is attempted.
    UnsupportedLibrary,
    /// Introspection could not read the artifact.
    Io,
    /// Introspection could not decode the embedded metadata.
    MetadataFormat,
    /// A declaration names a component that no namespace declaration in the
    /// artifact introduces; an item that cannot be attributed is a hard
    /// error, never a silent skip.
    UnknownCrate { crate_name: String },
    /// Two namespace declarations disagree about one component's namespace.
    InconsistentNamespace { crate_name: String },
    /// Two declarations in one component share a name (interface names must
    /// be unique within a component).
    NameCollision { crate_name: String, name: String },
    /// A declaration with an empty name is structurally malformed.
    EmptyDeclName { crate_name: String },
    /// A type reference that no type declaration of the component resolves.
    UnresolvedTypeRef { crate_name: String, name: String },
    /// The configuration file is present but malformed.
    ConfigParse,
    /// The binding generator failed to validate or write.
    Generation,
}

impl View for Error {
    type V = ErrorModel;

    open spec fn view(&self) -> ErrorModel {
        match self {
            Error::UnsupportedLibrary => ErrorModel::UnsupportedLibrary,
            Error::Io => ErrorModel::Io,
            Error::MetadataFormat => ErrorModel::MetadataFormat,
            Error::UnknownCrate { crate_name } => ErrorModel::UnknownCrate {
                crate_name: crate_name@,
            },
            Error::InconsistentNamespace { crate_name } => ErrorModel::InconsistentNamespace {
                crate_name: crate_name@,
            },
            Error::NameCollision { crate_name, name } => ErrorModel::NameCollision {
                crate_name: crate_name@,
                name: name@,
            },
            Error::EmptyDeclName { crate_name } => ErrorModel::EmptyDeclName {
                crate_name: crate_name@,
            },
            Error::UnresolvedTypeRef { crate_name, name } => ErrorModel::UnresolvedTypeRef {
                crate_name: crate_name@,
                name: name@,
            },
            Error::ConfigParse => ErrorModel::ConfigParse,
            Error::Generation => ErrorModel::Generation,
        }
    }
}

} // verus!
