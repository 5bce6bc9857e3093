//! The library's error type.
use vstd::prelude::*;

verus! {

/// What went wrong, in words.
pub enum Error {
    /// A configuration, registry or dataset problem.
    Config(String),
}

impl Error {
    /// The message carried by the error.
    pub fn message(&self) -> (r: &str)
        ensures
            match self {
                Error::Config(m) => r@ == m@,
            },
    {
        match self {
            Error::Config(m) => m.as_str(),
        }
    }
}

} // verus!
