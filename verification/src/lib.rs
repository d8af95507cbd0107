//! A verified core for a Gaussian naive-Bayes email classifier.
//!
//! The crate models labeled feature records, a shuffled three-way holdout
//! split, cyclic per-class oversampling, per-feature training-column
//! extraction, and the tie-broken decision rule with its confusion matrix.
//! Feature values are carried as opaque 64-bit words: the numeric
//! (floating-point) estimation and scoring live with the caller, while every
//! structural rule of the pipeline is stated and proved here.

pub mod balance;
pub mod classify;
pub mod email;
pub mod errors;
pub mod model;
pub mod score;
pub mod split;
