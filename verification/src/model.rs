//! The records that Telescope reads and writes.

use vstd::prelude::*;
use crate::text::{opt_view};

verus! {

/// A benchmark or metric file: what to ask, and of which model.
#[derive(Debug)]
pub struct EvaluationBlock {
    pub metadata: BlockMetadata,
    pub prompts: Prompts,
    pub dataset: Vec<TestCase>,
}

#[derive(Debug)]
pub struct BlockMetadata {
    pub id: String,
    pub description: Option<String>,
    pub version: Option<String>,
    /// The model that the block's cases are sent to.
    pub model: String,
}

#[derive(Debug)]
pub struct Prompts {
    /// The system prompt sent before each case's input.
    pub system: String,
}

#[derive(Debug)]
pub struct TestCase {
    pub input: String,
    pub expected: Option<String>,
}

/// One line of a run log: a case, and what the model answered.
#[derive(Debug)]
pub struct RunEntry {
    pub block_id: String,
    pub case_index: usize,
    pub input: String,
    pub expected: Option<String>,
    pub output: String,
    /// When the answer was recorded, in RFC 3339.
    pub timestamp: String,
}

/// One line of an eval log: a run entry, and the judge's verdict on it.
#[derive(Debug)]
pub struct EvalEntry {
    pub block_id: String,
    pub case_index: usize,
    pub expected: Option<String>,
    pub output: String,
    pub passed: bool,
    pub reason: Option<String>,
}

/// A copy of an optional string.
pub fn clone_opt(o: &Option<String>) -> (r: Option<String>)
    ensures
        opt_view(r) == opt_view(*o),
{
    match o {
        Some(s) => Some(s.clone()),
        None => None,
    }
}

} // verus!
