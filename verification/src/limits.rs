//! How much of each kind of output is shown before the rest is counted only.
use vstd::prelude::*;

verus! {

/// Lines of an error's output.
pub const CAP_ERRORS: usize = 20;

/// Warnings and failures.
pub const CAP_WARNINGS: usize = 10;

/// Entries of a list.
pub const CAP_LIST: usize = 20;

/// Failure blocks kept before the rest is deferred to the tee file.
pub const MAX_BUN_FAILURES: usize = CAP_WARNINGS;

/// Failures are capped as warnings are, and something of everything is shown.
pub proof fn law_caps()
    ensures
        MAX_BUN_FAILURES == CAP_WARNINGS,
        CAP_ERRORS > 0 && CAP_WARNINGS > 0 && CAP_LIST > 0,
{
}

} // verus!
