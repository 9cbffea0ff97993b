//! The scalar-or-batch shape shared by every facade operation: a single value
//! in, a single value out; a batch in, a parallel batch out.
use vstd::prelude::*;

verus! {

/// Either one value or an ordered batch of values. Each facade operation
/// mirrors the shape of its input: `One` in gives `One` out, `Many` in gives
/// `Many` out of the same length, in the same order.
pub enum OneOrMany<T> {
    One(T),
    Many(Vec<T>),
}

} // verus!
