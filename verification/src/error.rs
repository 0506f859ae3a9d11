//! The failures of an update, as a closed set of kinds.

use vstd::prelude::*;
use vstd::string::StringExecFns;

verus! {

/// Why an update of the configuration file failed.
#[derive(Clone, Debug, PartialEq, Eq)]
pub enum ConfigError {
    /// The file could not be read, or what it holds is not an INI document.
    /// Carries the description of the underlying failure.
    Load(String),
    /// The document has no section of this name.
    SectionNotFound(String),
    /// The rewritten document could not be stored. Carries the description of
    /// the underlying failure.
    Write(String),
}

/// A `ConfigError` as a mathematical value.
pub enum ConfigFailure {
    Load(Seq<char>),
    SectionNotFound(Seq<char>),
    Write(Seq<char>),
}

impl View for ConfigError {
    type V = ConfigFailure;

    open spec fn view(&self) -> ConfigFailure {
        match self {
            ConfigError::Load(reason) => ConfigFailure::Load(reason@),
            ConfigError::SectionNotFound(name) => ConfigFailure::SectionNotFound(name@),
            ConfigError::Write(reason) => ConfigFailure::Write(reason@),
        }
    }
}

impl ConfigFailure {
    /// The message that a client is shown for this failure.
    pub open spec fn message(self) -> Seq<char> {
        match self {
            ConfigFailure::Load(reason) => "Failed to load config file: "@ + reason,
            ConfigFailure::SectionNotFound(name) => name + " section not found"@,
            ConfigFailure::Write(reason) => "Failed to write config file: "@ + reason,
        }
    }
}

impl ConfigError {
    /// The message that a client is shown for this failure.
    pub fn message(&self) -> (text: String)
        ensures
            text@ == self@.message(),
    {
        match self {
            ConfigError::Load(reason) => "Failed to load config file: ".to_owned().concat(
                reason.as_str(),
            ),
            ConfigError::SectionNotFound(name) => name.clone().concat(" section not found"),
            ConfigError::Write(reason) => "Failed to write config file: ".to_owned().concat(
                reason.as_str(),
            ),
        }
    }
}

} // verus!
