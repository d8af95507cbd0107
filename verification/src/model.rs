//! The per-class Gaussian ensemble and the column extraction that feeds it.

use vstd::prelude::*;
use crate::email::{Entry, FEATURE_COUNT};
use crate::errors::EmptyInputError;

verus! {

/// One univariate Gaussian, carried as the caller's 64-bit encodings of its
/// mean and standard deviation. The words are opaque here: the crate
/// guarantees the shape and placement of the ensemble, the caller owns the
/// numeric estimation (including the positive floor on both parameters).
#[derive(Debug, Clone, Copy, PartialEq)]
pub struct FeatureDistribution {
    pub mean: u64,
    pub std_dev: u64,
}

/// An ordered collection of exactly one `FeatureDistribution` per feature
/// dimension, index-aligned with `EntryFeatures`. Immutable once built.
#[derive(Debug)]
pub struct ClassModel {
    dists: Vec<FeatureDistribution>,
}

impl View for ClassModel {
    type V = Seq<FeatureDistribution>;

    closed spec fn view(&self) -> Seq<FeatureDistribution> {
        self.dists@
    }
}

impl ClassModel {
    /// A well-formed model has one distribution per feature dimension.
    pub open spec fn wf(self) -> bool {
        self@.len() == FEATURE_COUNT
    }

    /// Builds a model from one distribution per feature dimension.
    ///
    /// Passing any other count is a programming error, excluded up front;
    /// every model that exists is therefore well-formed.
    pub fn from_params(dists: Vec<FeatureDistribution>) -> (m: ClassModel)
        requires
            dists@.len() == FEATURE_COUNT,
        ensures
            m@ == dists@,
            m.wf(),
    {
        ClassModel { dists }
    }

    /// The number of per-feature distributions.
    pub fn len(&self) -> (n: usize)
        ensures
            n == self@.len(),
    {
        self.dists.len()
    }

    /// Bounds-checked access to the distribution of one feature dimension.
    pub fn get(&self, idx: usize) -> (r: Option<FeatureDistribution>)
        ensures
            idx < self@.len() ==> r == Some(self@[idx as int]),
            idx >= self@.len() ==> r is None,
    {
        if idx < self.dists.len() {
            Some(self.dists[idx])
        } else {
            None
        }
    }
}

/// Extracts the per-feature training columns from a class-pure record
/// sequence: column `i` holds feature `i` of every record, in record order,
/// ready for one univariate fit per feature dimension.
///
/// Fails with `EmptyInputError` exactly when the input is empty (a sample
/// mean would be undefined).
pub fn feature_columns(data: &Vec<Entry>) -> (r: Result<Vec<Vec<u64>>, EmptyInputError>)
    ensures
        r is Err <==> data@.len() == 0,
        r is Ok ==> r->Ok_0@.len() == FEATURE_COUNT,
        r is Ok ==> forall|i: int|
            0 <= i < r->Ok_0@.len() ==> (#[trigger] r->Ok_0@[i])@.len() == data@.len(),
        r is Ok ==> forall|i: int, j: int|
            0 <= i < r->Ok_0@.len() && 0 <= j < data@.len()
                ==> (#[trigger] r->Ok_0@[i]@[j]) == data@[j].0@[i],
{
    if data.len() == 0 {
        return Err(EmptyInputError);
    }
    let mut cols: Vec<Vec<u64>> = Vec::new();
    for i in 0..FEATURE_COUNT
        invariant
            cols@.len() == i,
            forall|a: int| 0 <= a < i as int ==> (#[trigger] cols@[a])@.len() == data@.len(),
            forall|a: int, j: int|
                0 <= a < i as int && 0 <= j < data@.len()
                    ==> (#[trigger] cols@[a]@[j]) == data@[j].0@[a],
    {
        let mut col: Vec<u64> = Vec::new();
        let m = data.len();
        for j in 0..m
            invariant
                m == data@.len(),
                i < FEATURE_COUNT,
                col@.len() == j,
                forall|b: int| 0 <= b < j as int ==> (#[trigger] col@[b]) == data@[b].0@[i as int],
        {
            col.push(data[j].0.0[i]);
        }
        cols.push(col);
    }
    Ok(cols)
}

} // verus!
