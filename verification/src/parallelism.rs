//! Resolution of the worker count: an explicit count is taken as given; a
//! count of zero asks the machine.

use vstd::prelude::*;

verus! {

/// Relies on `num_cpus::get`: the number of available logical CPUs of the
/// current system, which is always at least 1.
#[verifier::external_body]
fn available_cpus() -> (n: usize)
    ensures
        n >= 1,
{
    num_cpus::get()
}

/// The worker count to run with: a requested count of zero means replaying
/// with one worker per available CPU; any other request is taken as it is.
/// There is always at least one worker.
pub fn effective_parallelism(requested: usize) -> (n: usize)
    ensures
        n >= 1,
        requested > 0 ==> n == requested,
{
    if requested == 0 {
        available_cpus()
    } else {
        requested
    }
}

} // verus!
