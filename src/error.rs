use vstd::prelude::*;

verus! {

/// Why an operation of this library failed.
#[derive(Debug)]
pub enum ConanError {
    /// The manifest text is not a JSON document.
    InvalidJson,
    /// The manifest is JSON, but not of the shape of a build-info manifest.
    InvalidManifest,
    /// The manifest's settings lack the named field (`arch` or `os`).
    MissingSetting(String),
    /// No target is known for this operating system.
    UnsupportedOs(String),
    /// No target is known for this architecture on this operating system.
    UnsupportedArch { arch: String, os: String },
    /// The manifest declares no package of this name.
    MissingDependency(String),
    /// No manifest was found for the host target; the targets that were found.
    NoBuildInfo { host: String, available: Vec<String> },
    /// The variable that names the host target is not set.
    MissingTarget,
    /// A `shared` option holds something other than a boolean.
    InvalidOption { key: String, value: String },
}

} // verus!
