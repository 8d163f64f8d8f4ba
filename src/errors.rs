//! The errors of the library.

use vstd::prelude::*;
use vstd::string::*;

use crate::numbers::{decimal_of, decimal_string};

verus! {

/// Every failure that an operation of the library can report.
#[derive(Debug, Clone, PartialEq, Eq)]
pub enum CliError {
    /// A filesystem or network primitive failed, with its message
    Io(String),
    /// Decoding a config, manifest or lockfile failed, with its message
    Parse(String),
    /// Manifest file not found in working directory
    MissingManifest,
    /// Config not found
    MissingConfig,
    /// Component not found in manifest
    MissingComponent(String),
    /// Manifest cannot be overwritten without forcing
    ManifestExists,
    /// Core dependencies missing in INPUT
    MissingDependencies,
    /// Dependency present at wrong version
    InvalidVersion(String),
    /// Extraneous dependencies in INPUT
    ExtraneousDependencies(String),
    /// No lockfile found for a component in INPUT
    MissingLockfile(String),
    /// Multiple versions of a component were involved in this build
    MultipleVersions(String),
    /// Multiple environments were used to build a component
    MultipleEnvironments(String),
    /// Environment of a component did not match the expected one: component, environment
    EnvironmentMismatch(String, String),
    /// Stashed versions are in INPUT, which a publishable build cannot hold
    NonGlobalDependencies(String),
    /// Failed to find a tarball after fetching it
    MissingTarball,
    /// No build artifacts in OUTPUT before stashing
    MissingBuild,
    /// An integer was proposed as a stash label
    InvalidStashName(u32),
    /// No stashed artifact under that label
    MissingStashArtifact(String),
    /// One or more fetches failed during a bulk fetch
    InstallFailure,
    /// The artifact repository did not answer with success
    ArtifactoryFailure(String),
}

/// Result of the library's fallible operations.
pub type LalResult<T> = Result<T, CliError>;

/// The text that reports an error to the user.
pub open spec fn message_of(e: CliError) -> Seq<char> {
    match e {
        CliError::Io(m) => m@,
        CliError::Parse(m) => m@,
        CliError::MissingManifest => "No manifest found in the working directory"@,
        CliError::MissingConfig => "No ~/.lal/config found"@,
        CliError::MissingComponent(s) => "Component '"@ + s@ + "' not found in manifest"@,
        CliError::ManifestExists => "Manifest already exists (use -f to force)"@,
        CliError::MissingDependencies => "Core dependencies missing in INPUT"@,
        CliError::InvalidVersion(s) => "Dependency "@ + s@ + " using incorrect version"@,
        CliError::ExtraneousDependencies(s) => "Extraneous dependencies in INPUT ("@ + s@ + ")"@,
        CliError::MissingLockfile(s) => "No lockfile found in INPUT/"@ + s@,
        CliError::MultipleVersions(s) => "Depending on multiple versions of "@ + s@,
        CliError::MultipleEnvironments(s) => "Depending on multiple environments to build "@ + s@,
        CliError::EnvironmentMismatch(d, env) => "Environment mismatch for "@ + d@ + " - built in "@ + env@,
        CliError::NonGlobalDependencies(s) => "Depending on a custom version of "@ + s@,
        CliError::MissingTarball => "Tarball missing in PWD"@,
        CliError::MissingBuild => "No build found in OUTPUT"@,
        CliError::InvalidStashName(n) => "Invalid name '"@ + decimal_of(n as nat) + "' to stash under - must not be an integer"@,
        CliError::MissingStashArtifact(s) => "No stashed artifact '"@ + s@ + "' found in ~/.lal/cache/stash"@,
        CliError::InstallFailure => "Install failed"@,
        CliError::ArtifactoryFailure(s) => "Artifactory - "@ + s@,
    }
}

impl CliError {
    /// The text that reports this error to the user.
    pub fn message(&self) -> (r: String)
        ensures
            r@ == message_of(*self),
    {
        match self {
            CliError::Io(m) => m.clone(),
            CliError::Parse(m) => m.clone(),
            CliError::MissingManifest => String::from_str("No manifest found in the working directory"),
            CliError::MissingConfig => String::from_str("No ~/.lal/config found"),
            CliError::MissingComponent(s) => String::from_str("Component '").concat(s.as_str()).concat("' not found in manifest"),
            CliError::ManifestExists => String::from_str("Manifest already exists (use -f to force)"),
            CliError::MissingDependencies => String::from_str("Core dependencies missing in INPUT"),
            CliError::InvalidVersion(s) => String::from_str("Dependency ").concat(s.as_str()).concat(" using incorrect version"),
            CliError::ExtraneousDependencies(s) => String::from_str("Extraneous dependencies in INPUT (").concat(s.as_str()).concat(")"),
            CliError::MissingLockfile(s) => String::from_str("No lockfile found in INPUT/").concat(s.as_str()),
            CliError::MultipleVersions(s) => String::from_str("Depending on multiple versions of ").concat(s.as_str()),
            CliError::MultipleEnvironments(s) => String::from_str("Depending on multiple environments to build ").concat(s.as_str()),
            CliError::EnvironmentMismatch(d, env) => String::from_str("Environment mismatch for ").concat(d.as_str()).concat(" - built in ").concat(env.as_str()),
            CliError::NonGlobalDependencies(s) => String::from_str("Depending on a custom version of ").concat(s.as_str()),
            CliError::MissingTarball => String::from_str("Tarball missing in PWD"),
            CliError::MissingBuild => String::from_str("No build found in OUTPUT"),
            CliError::InvalidStashName(n) => {
                let d = decimal_string(*n as u64);
                String::from_str("Invalid name '").concat(d.as_str()).concat("' to stash under - must not be an integer")
            },
            CliError::MissingStashArtifact(s) => String::from_str("No stashed artifact '").concat(s.as_str()).concat("' found in ~/.lal/cache/stash"),
            CliError::InstallFailure => String::from_str("Install failed"),
            CliError::ArtifactoryFailure(s) => String::from_str("Artifactory - ").concat(s.as_str()),
        }
    }
}

} // verus!
