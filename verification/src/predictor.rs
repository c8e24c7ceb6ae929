//! Forecasting of churn.

use vstd::prelude::*;

verus! {

/// High-level prediction operations.
pub struct Predictor;

} // verus!
