//! Embedding of cross-compiled artifacts.
//!
//! A fragment of source is compiled for another target while the host
//! program is being built, and what the compiler leaves behind is embedded
//! into the host program as constant data. This library decides everything
//! about that and touches nothing: it plans the steps of a build
//! ([`staging`], [`plan`]), numbers the harvested files ([`blob`],
//! [`harvest`]), writes the source text that embeds them ([`emit`],
//! [`embedding`]), and answers the host program's lookups at run time
//! ([`dir`]).

pub mod blob;
pub mod dir;
pub mod embedding;
pub mod emit;
pub mod harvest;
pub mod path;
pub mod plan;
pub mod staging;
pub mod text;
pub mod tree;

pub use crate::blob::BlobStore;
pub use crate::dir::{Dir, Entry, FILE_NOT_FOUND};
pub use crate::embedding::{cross, wasm, Embedding};
pub use crate::plan::{Action, Failure, Step};
pub use crate::staging::{build, target_dir, Build, Probe, Staged};
pub use crate::tree::Tree;
