//! Labeled feature records: the data model of the classifier.

use vstd::prelude::*;

verus! {

/// Number of engineered features carried by every record.
pub const FEATURE_COUNT: usize = 57;

/// Ground-truth class of an email record.
#[derive(Debug, Clone, Copy, PartialEq, Eq, Structural)]
pub enum EmailType {
    Spam,
    Ham,
}

/// The ordered, fixed-length feature vector of one record.
///
/// Each feature is carried as an opaque 64-bit word; this crate never
/// interprets the words numerically, it only moves them around, so every
/// structural guarantee below holds whatever encoding the caller uses.
#[derive(Debug, Clone, Copy, PartialEq)]
pub struct EntryFeatures(pub [u64; FEATURE_COUNT]);

/// One labeled observation: a feature vector paired with its class.
#[derive(Debug, Clone, Copy, PartialEq)]
pub struct Entry(pub EntryFeatures, pub EmailType);

impl View for EntryFeatures {
    type V = Seq<u64>;

    open spec fn view(&self) -> Seq<u64> {
        self.0@
    }
}

impl Entry {
    /// Bounds-checked access to one feature word.
    pub fn get_feature(&self, idx: usize) -> (r: Option<u64>)
        ensures
            idx < FEATURE_COUNT ==> r == Some(self.0@[idx as int]),
            idx >= FEATURE_COUNT ==> r is None,
    {
        if idx < FEATURE_COUNT {
            Some(self.0.0[idx])
        } else {
            None
        }
    }
}

} // verus!
