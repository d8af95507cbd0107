//! Error kinds of the training pipeline.
//!
//! Every error here is fatal to a run: each stage's output is a required
//! input of the next, so callers abort on the first failure.

use vstd::prelude::*;

verus! {

/// The balancer found no record of the requested class, so cyclic
/// oversampling would never terminate.
#[derive(Debug, Clone, Copy, PartialEq, Eq, Structural)]
pub struct EmptyClassError;

/// The trainer was given no records, so a sample mean is undefined.
#[derive(Debug, Clone, Copy, PartialEq, Eq, Structural)]
pub struct EmptyInputError;

} // verus!
