//! Records the indexer writes.

use vstd::prelude::*;

verus! {

/// A renewer's allowance to the renewal contract, read with 18 decimals.
pub struct Approval {
    pub renewer: String,
    pub value: String,
}

impl Approval {
    /// The record an approval plan writes.
    pub fn from_plan(plan: &crate::indexer::listeners::ApprovalPlan) -> (r: Approval)
        ensures
            r.renewer@ == plan.renewer@,
            r.value@ == plan.allowance@,
    {
        Approval { renewer: plan.renewer.clone(), value: plan.allowance.clone() }
    }
}

} // verus!
