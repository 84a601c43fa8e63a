//! Aggregation of per-archive statuses into one process exit status: the
//! run succeeds only when every scanned archive independently reported
//! success. With no archive scanned at all the run is vacuously successful.

use vstd::prelude::*;

verus! {

/// Combines the statuses of the sequential archive scans. Each is 0 or 1;
/// the aggregate is 0 exactly when every one of them is 0, so an empty run
/// aggregates to 0.
pub fn aggregate_status(statuses: &Vec<i32>) -> (r: i32)
    requires
        forall|i: int| 0 <= i < statuses@.len() ==> statuses@[i] == 0 || statuses@[i] == 1,
    ensures
        r == 0 || r == 1,
        r == 0 <==> forall|i: int| 0 <= i < statuses@.len() ==> statuses@[i] == 0,
{
    let mut r: i32 = 0;
    let mut i: usize = 0;
    while i < statuses.len()
        invariant
            0 <= i <= statuses.len(),
            forall|j: int| 0 <= j < statuses@.len() ==> statuses@[j] == 0 || statuses@[j] == 1,
            r == 0 || r == 1,
            r == 0 <==> forall|j: int| 0 <= j < i ==> statuses@[j] == 0,
        decreases statuses.len() - i,
    {
        if statuses[i] != 0 {
            r = 1;
        }
        i += 1;
    }
    r
}

} // verus!
