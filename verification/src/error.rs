//! Why a plugin could not do its work.

use vstd::prelude::*;

verus! {

/// Why a plugin stopped.
#[derive(Debug)]
pub enum VolatilityError {
    /// A layer, a module, a symbol, a type or a value that the image or its
    /// symbols do not hold.
    Unavailable,
    /// Anything else, in words.
    Other(String),
}

/// What an error says.
pub enum Failure {
    Unavailable,
    Other(Seq<char>),
}

impl View for VolatilityError {
    type V = Failure;

    open spec fn view(&self) -> Failure {
        match self {
            VolatilityError::Unavailable => Failure::Unavailable,
            VolatilityError::Other(words) => Failure::Other(words@),
        }
    }
}

impl VolatilityError {
    /// An error in words.
    pub fn other(words: &str) -> (error: VolatilityError)
        ensures
            error@ == Failure::Other(words@),
    {
        VolatilityError::Other(words.to_owned())
    }
}

/// What a result of the library says.
pub open spec fn outcome<T: View>(result: Result<T, VolatilityError>) -> Result<T::V, Failure> {
    match result {
        Ok(value) => Ok(value@),
        Err(error) => Err(error@),
    }
}

} // verus!
