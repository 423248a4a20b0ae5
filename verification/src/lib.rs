//! Loading of desired environment variables into a map, merging with any
//! optional defaults given by the request, and aggregating every per-variable
//! failure into one structured error.
//!
//! The environment-variable store is passed in explicitly as an [`EnvStore`]
//! value, so the resolution logic is deterministic and testable; the caller
//! owns the store and decides what it mirrors.

use vstd::prelude::*;

pub mod str_map;

use crate::str_map::StrMap;

verus! {

/// A value held by the environment store under some name: either text, or
/// present bytes that do not decode as text.
pub enum EnvValue {
    Text(String),
    NotText,
}

impl DeepView for EnvValue {
    type V = Option<Seq<char>>;

    open spec fn deep_view(&self) -> Option<Seq<char>> {
        match self {
            EnvValue::Text(s) => Some(s@),
            EnvValue::NotText => None,
        }
    }
}

/// What went wrong with one requested variable.
#[derive(Clone, Copy, Debug, PartialEq, Eq, Structural)]
pub enum VarErrorKind {
    /// The variable is absent from the store and the request gave no default.
    NotPresent,
    /// The variable is present but its value does not decode as text.
    NotValidText,
}

impl DeepView for VarErrorKind {
    type V = VarErrorKind;

    open spec fn deep_view(&self) -> VarErrorKind {
        *self
    }
}

/// The request: each desired variable name, with an optional default.
pub type Request = StrMap<Option<String>>;

/// The environment store the resolver reads and writes. Its view maps each
/// present name to `Some(text)`, or to `None` for a value that is present
/// but not decodable as text.
pub type EnvStore = StrMap<EnvValue>;

/// A successfully resolved mapping from names to their values.
pub type EnvMap = StrMap<String>;

/// The per-variable failures of one `load` call.
pub type EnvErrors = StrMap<VarErrorKind>;

} // verus!

pub mod model;
mod resolver;
pub mod laws;

pub use crate::model::{env_after, errors_of, resolved_of};
pub use crate::resolver::{load, load_error_message, LoadError};
