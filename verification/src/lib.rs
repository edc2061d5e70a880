//! Discovery-and-assembly pipeline for a multi-component foreign-binding
//! generator: given the path to a compiled shared library, derive its probable
//! short name, partition the metadata records recovered from the artifact by
//! owning component, fold each partition into a validated interface model,
//! resolve per-component configuration, and hand one `Source` per component to
//! a binding generator.

pub mod cdylib_name;
pub mod config;
pub mod error;
pub mod interface;
pub mod metadata;
pub mod pipeline;

pub use cdylib_name::calc_cdylib_name;
pub use config::Config;
pub use error::Error;
pub use interface::ComponentInterface;
pub use pipeline::{
    find_sources, generate_external_bindings, BindingGenerator, LibraryIntrospector, Source,
    Workspace,
};
