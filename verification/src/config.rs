//! Node and library configuration metadata.
//!
//! A configuration file starts with a metadata header holding the version of
//! the software that wrote it; comparing that header against the current one
//! decides whether the file needs migration before it is read in full.
//! Reading and writing the files themselves is I/O and lives with the
//! surrounding application; the decision logic is here.

use vstd::prelude::*;

verus! {

/// The configuration version the current software writes.
pub open spec fn spec_config_version() -> Seq<char> {
    "0.1.0"@
}

/// Why a configuration header could not be checked.
#[derive(Clone, Copy, PartialEq, Eq, Structural, Debug)]
pub enum ConfigError {
    /// The stored configuration has no version field; the file predates
    /// versioned configurations and cannot be migrated automatically.
    MissingVersion,
}

/// The version of an optional version field.
pub open spec fn version_view(v: Option<String>) -> Option<Seq<char>> {
    match v {
        Some(s) => Some(s@),
        None => None,
    }
}

/// The part of a configuration that is read before the main configuration:
/// the version of the software that wrote it.
#[derive(Debug, Clone)]
pub struct ConfigMetadata {
    /// The writing software's version.
    pub version: Option<String>,
}

impl Default for ConfigMetadata {
    /// The metadata the current software writes.
    fn default() -> (r: ConfigMetadata)
        ensures
            version_view(r.version) == Some(spec_config_version()),
    {
        ConfigMetadata { version: Some("0.1.0".to_owned()) }
    }
}

impl ConfigMetadata {
    /// Whether a configuration bearing this header needs migration to match
    /// `current`: no when the versions agree, an error when this header
    /// carries no version at all, and yes otherwise.
    pub fn migration_check(&self, current: &ConfigMetadata) -> (r: Result<bool, ConfigError>)
        ensures
            r == (if version_view(self.version) == version_view(current.version) {
                Ok::<bool, ConfigError>(false)
            } else if self.version is None {
                Err::<bool, ConfigError>(ConfigError::MissingVersion)
            } else {
                Ok::<bool, ConfigError>(true)
            }),
    {
        match (&self.version, &current.version) {
            (Some(mine), Some(theirs)) => {
                if mine.eq(theirs) {
                    Ok(false)
                } else {
                    Ok(true)
                }
            },
            (None, None) => Ok(false),
            (None, Some(_)) => Err(ConfigError::MissingVersion),
            (Some(_), None) => Ok(true),
        }
    }
}

/// The configuration of one library: the metadata header and the
/// user-visible name and description.
#[derive(Debug, Clone)]
pub struct LibraryConfig {
    /// The metadata header.
    pub metadata: ConfigMetadata,
    /// The library's display name, set by the user.
    pub name: String,
    /// The user's description of the library.
    pub description: String,
}

impl Default for LibraryConfig {
    /// An unnamed library configuration in the current format.
    fn default() -> (r: LibraryConfig)
        ensures
            version_view(r.metadata.version) == Some(spec_config_version()),
            r.name@ == Seq::<char>::empty(),
            r.description@ == Seq::<char>::empty(),
    {
        LibraryConfig {
            metadata: ConfigMetadata { version: Some("0.1.0".to_owned()) },
            name: String::new(),
            description: String::new(),
        }
    }
}

} // verus!
