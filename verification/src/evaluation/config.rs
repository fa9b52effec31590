//! Errors of evaluation configuration.

use vstd::prelude::*;

verus! {

/// Errors raised while loading, saving or changing evaluation configuration.
#[derive(Clone, Debug, PartialEq, Eq)]
pub enum ConfigError {
    IoError(String),
    ParseError(String),
    SerializeError(String),
    InvalidWeight(String),
    InvalidParameter(String),
    UnknownWeight(String),
}

} // verus!
