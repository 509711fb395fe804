//! Errors of generators.
use vstd::prelude::*;
use crate::text::{empty_string, push_str, to_owned_string};

verus! {

/// Why a generator produced nothing.
#[derive(Debug, Clone, PartialEq, Eq)]
pub enum GeneratorError {
    /// The generator is exhausted.
    Exhausted,
    /// No valid operation could be generated.
    NoValidOperation(String),
    /// Generation timed out.
    Timeout,
    /// A state error.
    StateError(String),
    /// A configuration error.
    ConfigError(String),
}

/// The display form of a generator error.
pub open spec fn generator_error_text(e: GeneratorError) -> Seq<char> {
    match e {
        GeneratorError::Exhausted => "generator exhausted"@,
        GeneratorError::NoValidOperation(m) => "no valid operation: "@ + m@,
        GeneratorError::Timeout => "generation timed out"@,
        GeneratorError::StateError(m) => "state error: "@ + m@,
        GeneratorError::ConfigError(m) => "configuration error: "@ + m@,
    }
}

impl GeneratorError {
    /// The display form of the error.
    pub fn to_string(&self) -> (r: String)
        ensures
            r@ == generator_error_text(*self),
    {
        match self {
            GeneratorError::Exhausted => to_owned_string("generator exhausted"),
            GeneratorError::NoValidOperation(m) => {
                let mut s = empty_string();
                push_str(&mut s, "no valid operation: ");
                push_str(&mut s, m.as_str());
                s
            },
            GeneratorError::Timeout => to_owned_string("generation timed out"),
            GeneratorError::StateError(m) => {
                let mut s = empty_string();
                push_str(&mut s, "state error: ");
                push_str(&mut s, m.as_str());
                s
            },
            GeneratorError::ConfigError(m) => {
                let mut s = empty_string();
                push_str(&mut s, "configuration error: ");
                push_str(&mut s, m.as_str());
                s
            },
        }
    }
}

} // verus!
