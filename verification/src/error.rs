use vstd::prelude::*;

verus! {

/// Error raised when an argument does not satisfy an operation's documented
/// requirements, carrying a human-readable report.
#[derive(Debug)]
pub enum ArrowError {
    InvalidArgumentError(String),
}

impl ArrowError {
    /// The report text carried by this error.
    pub fn message(&self) -> (r: &str)
        ensures
            (match self {
                ArrowError::InvalidArgumentError(m) => r@ == m@,
            }),
    {
        match self {
            ArrowError::InvalidArgumentError(m) => m.as_str(),
        }
    }
}

} // verus!
