use cryptotokenkit::error::{failure_status, from_status_message};
use cryptotokenkit::token_delegate::delegate_status;
use cryptotokenkit::{CryptoTokenKitError, TKErrorCode};

/// What a caller sees when a delegate fails with `error`: the bridge reports
/// the delegate's status and message, and the caller turns them back into an
/// error.
fn error_through_delegate(error: CryptoTokenKitError) -> CryptoTokenKitError {
    let (status, message) = delegate_status(Some(Err(error)), "token-session sign");
    from_status_message(status, message.expect("a failure carries a message"))
}

#[test]
fn every_sdk_error_code_round_trips() {
    for (raw, code) in [
        (-1, TKErrorCode::NotImplemented),
        (-2, TKErrorCode::CommunicationError),
        (-3, TKErrorCode::CorruptedData),
        (-4, TKErrorCode::CanceledByUser),
        (-5, TKErrorCode::AuthenticationFailed),
        (-6, TKErrorCode::ObjectNotFound),
        (-7, TKErrorCode::TokenNotFound),
        (-8, TKErrorCode::BadParameter),
        (-9, TKErrorCode::AuthenticationNeeded),
        (-10, TKErrorCode::InvalidatedDeviceKey),
    ] {
        assert_eq!(TKErrorCode::from_raw(raw), Some(code));
        assert_eq!(code.raw(), raw);
    }
    assert_eq!(TKErrorCode::from_raw(-11), None);
    assert_eq!(TKErrorCode::try_from(0), Err(0));
}

#[test]
fn bridge_errors_do_not_alias_sdk_error_codes() {
    for error in [
        CryptoTokenKitError::InvalidArgument("bad".into()),
        CryptoTokenKitError::FrameworkError("failed".into()),
        CryptoTokenKitError::TimedOut("slow".into()),
        CryptoTokenKitError::Unsupported("missing".into()),
    ] {
        assert_eq!(error.framework_code(), None, "{error:?}");
    }
}

#[test]
fn sdk_error_codes_from_delegates_keep_their_meaning() {
    let corrupted = error_through_delegate(CryptoTokenKitError::Unknown {
        code: TKErrorCode::CorruptedData.raw(),
        message: "corrupted".into(),
    });
    assert!(
        !matches!(corrupted, CryptoTokenKitError::TimedOut(_)),
        "{corrupted:?}"
    );
    assert_eq!(corrupted.framework_code(), Some(TKErrorCode::CorruptedData));
    assert_eq!(corrupted.message(), "corrupted");

    let not_implemented = error_through_delegate(CryptoTokenKitError::Unknown {
        code: TKErrorCode::NotImplemented.raw(),
        message: "no".into(),
    });
    assert!(
        !matches!(not_implemented, CryptoTokenKitError::InvalidArgument(_)),
        "{not_implemented:?}"
    );
    assert_eq!(
        not_implemented.framework_code(),
        Some(TKErrorCode::NotImplemented)
    );
}

#[test]
fn bridge_errors_from_delegates_map_to_sdk_error_codes() {
    let invalid = error_through_delegate(CryptoTokenKitError::InvalidArgument("x".into()));
    assert_eq!(invalid.framework_code(), Some(TKErrorCode::BadParameter));

    let unsupported = error_through_delegate(CryptoTokenKitError::Unsupported("x".into()));
    assert_eq!(
        unsupported.framework_code(),
        Some(TKErrorCode::NotImplemented)
    );

    let success_code = error_through_delegate(CryptoTokenKitError::Unknown {
        code: 0,
        message: "zero".into(),
    });
    assert_eq!(
        success_code.framework_code(),
        Some(TKErrorCode::CommunicationError)
    );
}

#[test]
fn failure_status_sends_other_bridge_errors_as_communication_errors() {
    assert_eq!(
        failure_status(&CryptoTokenKitError::FrameworkError("f".into())),
        TKErrorCode::CommunicationError.raw()
    );
    assert_eq!(
        failure_status(&CryptoTokenKitError::TimedOut("t".into())),
        TKErrorCode::CommunicationError.raw()
    );
    assert_eq!(
        failure_status(&CryptoTokenKitError::Unknown { code: -1001, message: String::new() }),
        TKErrorCode::CommunicationError.raw()
    );
    assert_eq!(
        failure_status(&CryptoTokenKitError::Unknown { code: -10, message: String::new() }),
        -10
    );
}
