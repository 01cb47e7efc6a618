//! The outcome of a rewriting step.

use vstd::prelude::*;

verus! {

/// What a rewriting step made, and whether it counts as a change.
#[derive(Debug)]
pub struct Transformed<T> {
    pub data: T,
    pub transformed: bool,
}

impl<T> Transformed<T> {
    /// `data`, as a change.
    pub fn yes(data: T) -> (r: Self)
        ensures
            r == (Transformed { data, transformed: true }),
    {
        Transformed { data, transformed: true }
    }

    /// `data`, as no change.
    pub fn no(data: T) -> (r: Self)
        ensures
            r == (Transformed { data, transformed: false }),
    {
        Transformed { data, transformed: false }
    }
}

} // verus!
