//! The conditions under which an operation on keys or documents fails.

use vstd::prelude::*;

verus! {

/// The scalar type that a written value has to convert to.
#[derive(Clone, Copy, Debug, PartialEq, Eq)]
pub enum ScalarType {
    /// Free text; every value converts.
    Text,
    /// An unsigned 16-bit integer in decimal notation.
    U16,
}

/// Why an operation failed. Each variant carries the offending key or value,
/// so that a caller can render a diagnostic.
#[derive(Clone, Debug, PartialEq, Eq)]
pub enum ConfigError {
    /// The path denotes no known key.
    UnrecognizedKey(String),
    /// The path denotes a key that can be read but not written.
    ReadOnly(String),
    /// The key is known, but the instance or shape it addresses holds no value.
    NotConfigured(String),
    /// The value does not convert to the type of the setting.
    ParseError { value: String, target: ScalarType },
    /// The document does not have the structure of a configuration.
    InvalidDocument,
}

/// A [`ConfigError`] with its strings taken as character sequences.
pub enum ConfigErrorView {
    UnrecognizedKey(Seq<char>),
    ReadOnly(Seq<char>),
    NotConfigured(Seq<char>),
    ParseError { value: Seq<char>, target: ScalarType },
    InvalidDocument,
}

impl View for ConfigError {
    type V = ConfigErrorView;

    open spec fn view(&self) -> ConfigErrorView {
        match self {
            ConfigError::UnrecognizedKey(path) => ConfigErrorView::UnrecognizedKey(path@),
            ConfigError::ReadOnly(path) => ConfigErrorView::ReadOnly(path@),
            ConfigError::NotConfigured(path) => ConfigErrorView::NotConfigured(path@),
            ConfigError::ParseError { value, target } => ConfigErrorView::ParseError {
                value: value@,
                target: *target,
            },
            ConfigError::InvalidDocument => ConfigErrorView::InvalidDocument,
        }
    }
}

} // verus!
