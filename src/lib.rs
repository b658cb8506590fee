//! Reads the build-info manifests that a C/C++ package manager writes, and turns
//! them into linker lines for a build pipeline and into environment scripts,
//! for one or several targets found side by side.
pub mod conan;
pub mod discovery;
pub mod env;
pub mod error;
pub mod json;
pub mod keyed;
pub mod manifest;
pub mod resolve;
pub mod target;
pub mod text;

pub use conan::{Conan, RerunState};
pub use discovery::{BuildInfoSet, DirChildren};
pub use error::ConanError;
pub use manifest::{parse_build_info, BuildInfo, BuildInfoDoc, LibFile, Link, PackageDescriptor};
pub use resolve::{Applyable, DependsOn, Lib, LibDir};
