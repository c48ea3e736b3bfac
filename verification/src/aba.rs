//! Reporting the outcome of a compare-and-swap.

use vstd::prelude::*;

verus! {

/// The report for the outcome of a compare-and-swap: success when it returned
/// `Ok` (the value matched what was expected, even if it changed in between
/// and changed back), failure when it returned `Err`.
pub fn cas_outcome_message(outcome: &Result<usize, usize>) -> (msg: &'static str)
    ensures
        outcome is Ok ==> msg@ == "Thread 1: CAS succeeded (but value may have changed A->B->A)"@,
        outcome is Err ==> msg@ == "Thread 1: CAS failed"@,
{
    match outcome {
        Ok(_) => "Thread 1: CAS succeeded (but value may have changed A->B->A)",
        Err(_) => "Thread 1: CAS failed",
    }
}

} // verus!
