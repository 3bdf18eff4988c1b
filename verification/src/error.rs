use vstd::prelude::*;

use vstd::std_specs::convert::TryFromSpecImpl;
use vstd::string::StringExecFns;

use crate::status;

verus! {

/// The `TKErrorDomain` string of the CryptoTokenKit framework.
pub const TK_ERROR_DOMAIN: &'static str = "CryptoTokenKit";

/// The `TKError.Code` values that CryptoTokenKit reports.
#[derive(Debug, Clone, Copy, PartialEq, Eq, Structural)]
#[non_exhaustive]
pub enum TKErrorCode {
    NotImplemented,
    CommunicationError,
    CorruptedData,
    CanceledByUser,
    AuthenticationFailed,
    ObjectNotFound,
    TokenNotFound,
    BadParameter,
    AuthenticationNeeded,
    InvalidatedDeviceKey,
}

impl TKErrorCode {
    /// The raw `TKError.Code` value of this code.
    pub open spec fn spec_raw(self) -> int {
        match self {
            TKErrorCode::NotImplemented => -1,
            TKErrorCode::CommunicationError => -2,
            TKErrorCode::CorruptedData => -3,
            TKErrorCode::CanceledByUser => -4,
            TKErrorCode::AuthenticationFailed => -5,
            TKErrorCode::ObjectNotFound => -6,
            TKErrorCode::TokenNotFound => -7,
            TKErrorCode::BadParameter => -8,
            TKErrorCode::AuthenticationNeeded => -9,
            TKErrorCode::InvalidatedDeviceKey => -10,
        }
    }

    /// The code whose raw value is `raw`, if there is one.
    pub open spec fn spec_from_raw(raw: i32) -> Option<TKErrorCode> {
        if raw == -1 {
            Some(TKErrorCode::NotImplemented)
        } else if raw == -2 {
            Some(TKErrorCode::CommunicationError)
        } else if raw == -3 {
            Some(TKErrorCode::CorruptedData)
        } else if raw == -4 {
            Some(TKErrorCode::CanceledByUser)
        } else if raw == -5 {
            Some(TKErrorCode::AuthenticationFailed)
        } else if raw == -6 {
            Some(TKErrorCode::ObjectNotFound)
        } else if raw == -7 {
            Some(TKErrorCode::TokenNotFound)
        } else if raw == -8 {
            Some(TKErrorCode::BadParameter)
        } else if raw == -9 {
            Some(TKErrorCode::AuthenticationNeeded)
        } else if raw == -10 {
            Some(TKErrorCode::InvalidatedDeviceKey)
        } else {
            None
        }
    }

    /// Returns the raw `TKError.Code` value.
    pub fn raw(self) -> (r: i32)
        ensures
            r == self.spec_raw(),
    {
        match self {
            TKErrorCode::NotImplemented => -1,
            TKErrorCode::CommunicationError => -2,
            TKErrorCode::CorruptedData => -3,
            TKErrorCode::CanceledByUser => -4,
            TKErrorCode::AuthenticationFailed => -5,
            TKErrorCode::ObjectNotFound => -6,
            TKErrorCode::TokenNotFound => -7,
            TKErrorCode::BadParameter => -8,
            TKErrorCode::AuthenticationNeeded => -9,
            TKErrorCode::InvalidatedDeviceKey => -10,
        }
    }

    /// Maps a raw `TKError.Code` value to its code; `None` for any other value.
    pub fn from_raw(raw: i32) -> (r: Option<Self>)
        ensures
            r == Self::spec_from_raw(raw),
            r is Some <==> -10 <= raw <= -1,
    {
        match raw {
            -1 => Some(TKErrorCode::NotImplemented),
            -2 => Some(TKErrorCode::CommunicationError),
            -3 => Some(TKErrorCode::CorruptedData),
            -4 => Some(TKErrorCode::CanceledByUser),
            -5 => Some(TKErrorCode::AuthenticationFailed),
            -6 => Some(TKErrorCode::ObjectNotFound),
            -7 => Some(TKErrorCode::TokenNotFound),
            -8 => Some(TKErrorCode::BadParameter),
            -9 => Some(TKErrorCode::AuthenticationNeeded),
            -10 => Some(TKErrorCode::InvalidatedDeviceKey),
            _ => None,
        }
    }
}


impl TryFrom<i32> for TKErrorCode {
    type Error = i32;

    /// The code whose raw value is `value`, or `value` itself as the error.
    fn try_from(value: i32) -> (r: Result<Self, i32>) {
        match TKErrorCode::from_raw(value) {
            Some(code) => Ok(code),
            None => Err(value),
        }
    }
}

impl TryFromSpecImpl<i32> for TKErrorCode {
    open spec fn obeys_try_from_spec() -> bool {
        true
    }

    open spec fn try_from_spec(v: i32) -> Result<Self, i32> {
        match TKErrorCode::spec_from_raw(v) {
            Some(code) => Ok(code),
            None => Err(v),
        }
    }
}

/// Law: every code survives the trip through its raw value, and a raw value
/// that maps to a code is that code's raw value.
pub proof fn law_error_code_raw_round_trip(code: TKErrorCode, raw: i32)
    ensures
        TKErrorCode::spec_from_raw(code.spec_raw() as i32) == Some(code),
        TKErrorCode::spec_from_raw(raw) matches Some(c) ==> c.spec_raw() == raw,
{
}

/// An error reported by the CryptoTokenKit bindings.
///
/// The first four variants are failures of the bridge to the framework;
/// `Unknown` carries any other status, among them the framework's own
/// `TKError` codes.
#[derive(Debug, Clone, PartialEq, Eq)]
#[non_exhaustive]
pub enum CryptoTokenKitError {
    InvalidArgument(String),
    FrameworkError(String),
    TimedOut(String),
    Unsupported(String),
    Unknown { code: i32, message: String },
}

impl CryptoTokenKitError {
    /// The status code of this error.
    pub open spec fn spec_code(&self) -> i32 {
        match self {
            CryptoTokenKitError::InvalidArgument(_) => status::INVALID_ARGUMENT,
            CryptoTokenKitError::FrameworkError(_) => status::FRAMEWORK_ERROR,
            CryptoTokenKitError::TimedOut(_) => status::TIMED_OUT,
            CryptoTokenKitError::Unsupported(_) => status::UNSUPPORTED,
            CryptoTokenKitError::Unknown { code, .. } => *code,
        }
    }

    /// The message this error carries.
    pub open spec fn spec_message(&self) -> Seq<char> {
        match self {
            CryptoTokenKitError::InvalidArgument(m) => m@,
            CryptoTokenKitError::FrameworkError(m) => m@,
            CryptoTokenKitError::TimedOut(m) => m@,
            CryptoTokenKitError::Unsupported(m) => m@,
            CryptoTokenKitError::Unknown { message, .. } => message@,
        }
    }

    /// The message string this error carries.
    pub open spec fn spec_message_string(&self) -> String {
        match self {
            CryptoTokenKitError::InvalidArgument(m) => *m,
            CryptoTokenKitError::FrameworkError(m) => *m,
            CryptoTokenKitError::TimedOut(m) => *m,
            CryptoTokenKitError::Unsupported(m) => *m,
            CryptoTokenKitError::Unknown { message, .. } => *message,
        }
    }

    /// Whether this is one of the bridge's own failures.
    pub open spec fn is_bridge_failure(&self) -> bool {
        !(self is Unknown)
    }

    /// Returns the status code: the bridge statuses for the bridge variants,
    /// the carried code for `Unknown`.
    pub fn code(&self) -> (r: i32)
        ensures
            r == self.spec_code(),
    {
        match self {
            CryptoTokenKitError::InvalidArgument(_) => status::INVALID_ARGUMENT,
            CryptoTokenKitError::FrameworkError(_) => status::FRAMEWORK_ERROR,
            CryptoTokenKitError::TimedOut(_) => status::TIMED_OUT,
            CryptoTokenKitError::Unsupported(_) => status::UNSUPPORTED,
            CryptoTokenKitError::Unknown { code, .. } => *code,
        }
    }

    /// Returns the message carried by any variant.
    pub fn message(&self) -> (r: &str)
        ensures
            r@ == self.spec_message(),
    {
        match self {
            CryptoTokenKitError::InvalidArgument(m) => m.as_str(),
            CryptoTokenKitError::FrameworkError(m) => m.as_str(),
            CryptoTokenKitError::TimedOut(m) => m.as_str(),
            CryptoTokenKitError::Unsupported(m) => m.as_str(),
            CryptoTokenKitError::Unknown { message, .. } => message.as_str(),
        }
    }

    /// Returns the `TKError.Code` that this error's code stands for, if any.
    pub fn framework_code(&self) -> (r: Option<TKErrorCode>)
        ensures
            r == TKErrorCode::spec_from_raw(self.spec_code()),
            self.is_bridge_failure() ==> r is None,
    {
        TKErrorCode::from_raw(self.code())
    }
}

/// The character of the decimal digit `d`.
pub open spec fn digit_char(d: nat) -> char {
    (48 + d) as char
}

/// The decimal digits of `n`, most significant first.
pub open spec fn decimal_digits(n: nat) -> Seq<char>
    decreases n,
{
    if n < 10 {
        seq![digit_char(n)]
    } else {
        decimal_digits(n / 10).push(digit_char(n % 10))
    }
}

/// The decimal spelling of `n`, with a leading `-` when it is negative.
pub open spec fn decimal(n: int) -> Seq<char> {
    if n < 0 {
        seq!['-'] + decimal_digits((-n) as nat)
    } else {
        decimal_digits(n as nat)
    }
}

fn push_digit(out: &mut String, d: u64)
    requires
        d < 10,
    ensures
        final(out)@ == old(out)@.push(digit_char(d as nat)),
{
    match d {
        0 => {
            proof {
                reveal_strlit("0");
            }
            out.append("0");
        },
        1 => {
            proof {
                reveal_strlit("1");
            }
            out.append("1");
        },
        2 => {
            proof {
                reveal_strlit("2");
            }
            out.append("2");
        },
        3 => {
            proof {
                reveal_strlit("3");
            }
            out.append("3");
        },
        4 => {
            proof {
                reveal_strlit("4");
            }
            out.append("4");
        },
        5 => {
            proof {
                reveal_strlit("5");
            }
            out.append("5");
        },
        6 => {
            proof {
                reveal_strlit("6");
            }
            out.append("6");
        },
        7 => {
            proof {
                reveal_strlit("7");
            }
            out.append("7");
        },
        8 => {
            proof {
                reveal_strlit("8");
            }
            out.append("8");
        },
        _ => {
            proof {
                reveal_strlit("9");
            }
            out.append("9");
        },
    }
    assert(out@ =~= old(out)@.push(digit_char(d as nat)));
}

fn push_decimal_digits(out: &mut String, n: u64)
    ensures
        final(out)@ == old(out)@ + decimal_digits(n as nat),
    decreases n,
{
    if n >= 10 {
        push_decimal_digits(out, n / 10);
    }
    push_digit(out, n % 10);
    assert(out@ =~= old(out)@ + decimal_digits(n as nat));
}

impl CryptoTokenKitError {
    /// The text of this error: its message, then its code in parentheses.
    pub open spec fn spec_to_string(&self) -> Seq<char> {
        self.spec_message() + " (code "@ + decimal(self.spec_code() as int) + ")"@
    }

    /// Returns the text of this error, `"{message} (code {code})"`.
    pub fn to_string(&self) -> (r: String)
        ensures
            r@ == self.spec_to_string(),
    {
        let mut text = self.message().to_owned();
        text.append(" (code ");
        let code = self.code();
        if code < 0 {
            proof {
                reveal_strlit("-");
            }
            text.append("-");
            push_decimal_digits(&mut text, (-(code as i64)) as u64);
        } else {
            push_decimal_digits(&mut text, code as u64);
        }
        text.append(")");
        assert(text@ =~= self.spec_to_string());
        text
    }
}

/// Whether `status` is one of the four statuses of the bridge's own failures.
pub open spec fn is_bridge_status(status: i32) -> bool {
    status == status::INVALID_ARGUMENT || status == status::FRAMEWORK_ERROR
        || status == status::TIMED_OUT || status == status::UNSUPPORTED
}

/// The error that a failed bridge status and its message stand for.
pub open spec fn spec_from_status_message(status: i32, message: String) -> CryptoTokenKitError {
    if status == status::INVALID_ARGUMENT {
        CryptoTokenKitError::InvalidArgument(message)
    } else if status == status::FRAMEWORK_ERROR {
        CryptoTokenKitError::FrameworkError(message)
    } else if status == status::TIMED_OUT {
        CryptoTokenKitError::TimedOut(message)
    } else if status == status::UNSUPPORTED {
        CryptoTokenKitError::Unsupported(message)
    } else {
        CryptoTokenKitError::Unknown { code: status, message }
    }
}

/// Turns a failed bridge status and its message into an error: the four
/// bridge statuses become their variants, any other status `Unknown`.
pub fn from_status_message(status: i32, message: String) -> (r: CryptoTokenKitError)
    ensures
        r == spec_from_status_message(status, message),
        r.spec_code() == status,
        r.spec_message() == message@,
        r is Unknown <==> !is_bridge_status(status),
{
    if status == status::INVALID_ARGUMENT {
        CryptoTokenKitError::InvalidArgument(message)
    } else if status == status::FRAMEWORK_ERROR {
        CryptoTokenKitError::FrameworkError(message)
    } else if status == status::TIMED_OUT {
        CryptoTokenKitError::TimedOut(message)
    } else if status == status::UNSUPPORTED {
        CryptoTokenKitError::Unsupported(message)
    } else {
        CryptoTokenKitError::Unknown { code: status, message }
    }
}

/// The outcome of a bridge call: `Ok` when it reported `status::OK`, otherwise
/// the error that its status and message stand for.
pub fn status_result(status: i32, message: String) -> (r: Result<(), CryptoTokenKitError>)
    ensures
        r == (if status == status::OK {
            Ok(())
        } else {
            Err(spec_from_status_message(status, message))
        }),
{
    if status == status::OK {
        Ok(())
    } else {
        Err(from_status_message(status, message))
    }
}

/// The `TKError.Code` value under which an error of a Rust delegate reaches
/// CryptoTokenKit.
pub open spec fn spec_failure_status(error: &CryptoTokenKitError) -> int {
    match error {
        CryptoTokenKitError::InvalidArgument(_) => TKErrorCode::BadParameter.spec_raw(),
        CryptoTokenKitError::Unsupported(_) => TKErrorCode::NotImplemented.spec_raw(),
        CryptoTokenKitError::Unknown { code, .. } => if TKErrorCode::spec_from_raw(*code) is Some {
            *code as int
        } else {
            TKErrorCode::CommunicationError.spec_raw()
        },
        _ => TKErrorCode::CommunicationError.spec_raw(),
    }
}

/// Returns the `TKError.Code` value that a delegate failure is reported
/// with: a bad argument is `BadParameter`, a missing feature `NotImplemented`,
/// a `TKError` code keeps its value, and anything else is a
/// `CommunicationError`.
pub fn failure_status(error: &CryptoTokenKitError) -> (r: i32)
    ensures
        r == spec_failure_status(error),
        TKErrorCode::spec_from_raw(r) is Some,
{
    match error {
        CryptoTokenKitError::InvalidArgument(_) => TKErrorCode::BadParameter.raw(),
        CryptoTokenKitError::Unsupported(_) => TKErrorCode::NotImplemented.raw(),
        CryptoTokenKitError::Unknown { code, .. } => {
            if TKErrorCode::from_raw(*code).is_some() {
                *code
            } else {
                TKErrorCode::CommunicationError.raw()
            }
        },
        _ => TKErrorCode::CommunicationError.raw(),
    }
}

/// Law: no error of the bridge itself reports a `TKError` code; the bridge
/// statuses lie outside the range of the framework's codes.
pub proof fn law_bridge_errors_have_no_framework_code(error: CryptoTokenKitError)
    ensures
        error.is_bridge_failure() ==> TKErrorCode::spec_from_raw(error.spec_code()) is None,
        is_bridge_status(error.spec_code()) ==> TKErrorCode::spec_from_raw(error.spec_code()) is None,
{
}

/// Law: an error is rebuilt from its code and message, unless it is an
/// `Unknown` error whose code is one of the bridge statuses (that one comes
/// back as the bridge variant of the status).
pub proof fn law_error_from_code_and_message(error: CryptoTokenKitError)
    ensures
        (error is Unknown ==> !is_bridge_status(error.spec_code())) ==> spec_from_status_message(
            error.spec_code(),
            error.spec_message_string(),
        ) == error,
{
}

/// Law: a delegate failure always reaches the framework as one of its
/// `TKError` codes, and a failure that already carries such a code keeps it.
pub proof fn law_failure_status_is_framework_code(error: CryptoTokenKitError)
    ensures
        TKErrorCode::spec_from_raw(spec_failure_status(&error) as i32) is Some,
        TKErrorCode::spec_from_raw(error.spec_code()) is Some && error is Unknown ==> spec_failure_status(&error)
            == error.spec_code(),
{
}

} // verus!
