//! Why a plan could not be made.

use datafusion_common::DataFusionError;
use vstd::prelude::*;

verus! {

/// Why a plan could not be made.
#[derive(Debug)]
pub enum PlanError {
    /// The caller broke a rule of the plan's shape; the text says which.
    Internal(String),
    /// DataFusion refused to make a node.
    DataFusion(DataFusionError),
}

} // verus!
