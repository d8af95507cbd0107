//! The structural half of the log-likelihood scorer.
//!
//! The score of a feature vector under a class model is the sum, over all
//! feature dimensions, of the floored log-density of feature `i` under
//! distribution `i`. The numeric part — density and logarithm — belongs to
//! the caller; what this module guarantees is the alignment: every feature
//! dimension is paired with the distribution of the same index, each exactly
//! once, so no dimensionality mismatch can reach the fold.

use vstd::prelude::*;
use crate::email::{EntryFeatures, FEATURE_COUNT};
use crate::model::{ClassModel, FeatureDistribution};

verus! {

/// Pairs each feature word with the distribution of its own dimension, in
/// index order: the exact sequence the scorer folds over.
pub fn score_pairs(features: &EntryFeatures, model: &ClassModel) -> (r: Vec<
    (u64, FeatureDistribution),
>)
    requires
        model.wf(),
    ensures
        r@.len() == FEATURE_COUNT,
        forall|i: int| 0 <= i < r@.len() ==> #[trigger] r@[i] == (features@[i], model@[i]),
{
    let mut pairs: Vec<(u64, FeatureDistribution)> = Vec::new();
    for i in 0..FEATURE_COUNT
        invariant
            model.wf(),
            pairs@.len() == i,
            forall|j: int| 0 <= j < i as int ==> #[trigger] pairs@[j] == (features@[j], model@[j]),
    {
        let d = model.get(i).unwrap();
        pairs.push((features.0[i], d));
    }
    pairs
}

} // verus!
