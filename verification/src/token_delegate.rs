use vstd::prelude::*;

use crate::error::{failure_status, spec_failure_status, CryptoTokenKitError, TKErrorCode};
use crate::status;

verus! {

/// An `Unknown` error with the `NotImplemented` code and `message`: what a
/// delegate method that is not implemented reports.
pub fn not_implemented(message: &str) -> (r: CryptoTokenKitError)
    ensures
        r is Unknown,
        r.spec_code() == TKErrorCode::NotImplemented.spec_raw(),
        r.spec_message() == message@,
{
    CryptoTokenKitError::Unknown { code: TKErrorCode::NotImplemented.raw(), message: message.to_owned() }
}

/// What a delegate callback reports to the framework: `status::OK` and no
/// message on success; the failure's `TKError` code and its message when the
/// delegate failed; `status::FRAMEWORK_ERROR` and a message naming
/// `callback` when there was no delegate to run.
pub fn delegate_status(result: Option<Result<(), CryptoTokenKitError>>, callback: &str) -> (r: (
    i32,
    Option<String>,
))
    ensures
        result matches Some(Ok(())) ==> r.0 == status::OK && r.1 is None,
        result matches Some(Err(e)) ==> r.0 == spec_failure_status(&e) && (r.1 matches Some(m) && m@
            == e.spec_message()),
        result is None ==> r.0 == status::FRAMEWORK_ERROR && (r.1 matches Some(m) && m@ == callback@
            + " delegate callback failed: the Rust delegate was dropped or panicked"@),
{
    match result {
        Some(Ok(())) => (status::OK, None),
        Some(Err(error)) => (failure_status(&error), Some(error.message().to_owned())),
        None => {
            let message = callback.to_owned().concat(
                " delegate callback failed: the Rust delegate was dropped or panicked",
            );
            (status::FRAMEWORK_ERROR, Some(message))
        },
    }
}

/// Whether a byte argument of a delegate callback is given: a buffer, or no
/// buffer and a length of 0, which stands for empty data. No buffer with a
/// positive length is a missing argument.
pub fn callback_bytes_given(has_buffer: bool, len: usize) -> (r: bool)
    ensures
        r == (has_buffer || len == 0),
{
    has_buffer || len == 0
}

/// Whether the arguments of a sign, decrypt or key-exchange callback are
/// complete: every object handle is there and the data argument is given.
pub fn callback_arguments_complete(handles_present: bool, has_buffer: bool, len: usize) -> (r: bool)
    ensures
        r == (handles_present && (has_buffer || len == 0)),
{
    handles_present && callback_bytes_given(has_buffer, len)
}

} // verus!
