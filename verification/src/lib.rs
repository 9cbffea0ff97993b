//! A verified correction-pipeline facade: it orchestrates a sentence
//! splitter, a tokenizer/disambiguator and a rule engine to turn texts into
//! span-anchored suggestions or corrected strings, and resolves the versioned
//! binary artifacts the engines are deserialized from.
use vstd::prelude::*;

pub mod error;
pub mod text;
pub mod token;
pub mod suggestion;
pub mod splitter;
pub mod engine;
pub mod correct;
pub mod rebase;
pub mod dispatch;
pub mod tokenizer;
pub mod rules;
pub mod resolver;

verus! {

/// The facade's build version; it keys both the artifact cache path and the
/// fetch URL, so a new version forces a re-download by path construction.
pub open spec fn spec_facade_version() -> Seq<char> {
    "0.1.0"@
}

/// The build version string exposed to callers and used by the resolver.
pub fn facade_version() -> (v: &'static str)
    ensures
        v@ == spec_facade_version(),
{
    "0.1.0"
}

} // verus!
