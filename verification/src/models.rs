//! The records of the question board, as plain values.

use vstd::prelude::*;

verus! {

/// A stored question without its timestamps.
#[derive(Debug, PartialEq)]
pub struct QuestionDetails {
    pub id: i32,
    pub body: String,
}

/// A question that is to be stored.
#[derive(Debug)]
pub struct NewQuestion {
    pub body: String,
}

} // verus!
