use vstd::prelude::*;

verus! {

/// Status returned by a bridge call that succeeded.
pub const OK: i32 = 0;

/// Status of a bridge call that was handed an argument it cannot use.
pub const INVALID_ARGUMENT: i32 = -1001;

/// Status of a bridge call that failed inside the framework.
pub const FRAMEWORK_ERROR: i32 = -1002;

/// Status of a bridge call whose reply did not arrive in time.
pub const TIMED_OUT: i32 = -1003;

/// Status of a bridge call that the running system does not offer.
pub const UNSUPPORTED: i32 = -1004;

} // verus!
