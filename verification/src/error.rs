//! The error taxonomy of the facade.
use vstd::prelude::*;

verus! {

/// What a public operation of the facade can fail with.
///
/// - `Configuration`: caller misuse — a splitter absent where one is
///   required, a split token that is not a single codepoint, a resource name
///   without the `.gz` suffix.
/// - `ResourceUnavailable`: a network or filesystem failure during artifact
///   acquisition that left no usable payload.
/// - `ResourceCorrupt`: a payload that does not decompress or deserialize.
#[derive(Debug)]
pub enum Error {
    Configuration(String),
    ResourceUnavailable(String),
    ResourceCorrupt(String),
}

impl Error {
    /// The human-readable message carried by the error.
    pub fn message(&self) -> (m: &str)
        ensures
            m@ == self.spec_message(),
    {
        match self {
            Error::Configuration(m) => m.as_str(),
            Error::ResourceUnavailable(m) => m.as_str(),
            Error::ResourceCorrupt(m) => m.as_str(),
        }
    }

    /// The message, at the specification level.
    pub open spec fn spec_message(&self) -> Seq<char> {
        match self {
            Error::Configuration(m) => m@,
            Error::ResourceUnavailable(m) => m@,
            Error::ResourceCorrupt(m) => m@,
        }
    }
}

} // verus!
