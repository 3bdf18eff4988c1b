use cryptotokenkit::error::{from_status_message, status_result};
use cryptotokenkit::smart_card::{check_apdu_le, MAX_APDU_LE};
use cryptotokenkit::status;
use cryptotokenkit::token_delegate::{
    callback_arguments_complete, callback_bytes_given, delegate_status, not_implemented,
};
use cryptotokenkit::token_session::{decode_secret, validate_secret};
use cryptotokenkit::{
    CryptoTokenKitError, SlotState, SmartCardPinCompletion, SmartCardPinConfirmation,
    SmartCardProtocol, SmartCardUserInteractionEvent, TKErrorCode, TokenKeychainCertificate,
    TokenConstraints, TokenKeychainEntry, TokenKeychainItem, TokenKeychainKey, TokenObjectId, TokenOperation,
};

#[test]
fn bridge_statuses_become_their_variants() {
    assert_eq!(
        from_status_message(status::INVALID_ARGUMENT, "a".into()),
        CryptoTokenKitError::InvalidArgument("a".into())
    );
    assert_eq!(
        from_status_message(status::FRAMEWORK_ERROR, "b".into()),
        CryptoTokenKitError::FrameworkError("b".into())
    );
    assert_eq!(
        from_status_message(status::TIMED_OUT, "c".into()),
        CryptoTokenKitError::TimedOut("c".into())
    );
    assert_eq!(
        from_status_message(status::UNSUPPORTED, "d".into()),
        CryptoTokenKitError::Unsupported("d".into())
    );
    assert_eq!(
        from_status_message(-6, "e".into()),
        CryptoTokenKitError::Unknown { code: -6, message: "e".into() }
    );
    assert_eq!(status_result(status::OK, "ignored".into()), Ok(()));
    assert_eq!(
        status_result(-2, "lost".into()),
        Err(CryptoTokenKitError::Unknown { code: -2, message: "lost".into() })
    );
}

#[test]
fn errors_report_code_and_message() {
    let errors = [
        (CryptoTokenKitError::InvalidArgument("a".into()), -1001),
        (CryptoTokenKitError::FrameworkError("a".into()), -1002),
        (CryptoTokenKitError::TimedOut("a".into()), -1003),
        (CryptoTokenKitError::Unsupported("a".into()), -1004),
        (CryptoTokenKitError::Unknown { code: -3, message: "a".into() }, -3),
    ];
    for (error, code) in errors {
        assert_eq!(error.code(), code);
        assert_eq!(error.message(), "a");
        assert_eq!(from_status_message(error.code(), error.message().into()), error);
    }
    assert_eq!(
        CryptoTokenKitError::Unknown { code: -3, message: String::new() }.framework_code(),
        Some(TKErrorCode::CorruptedData)
    );
}

#[test]
fn missing_delegates_are_framework_errors() {
    let (code, message) = delegate_status(None, "token create-session");
    assert_eq!(code, status::FRAMEWORK_ERROR);
    assert_eq!(
        message.as_deref(),
        Some("token create-session delegate callback failed: the Rust delegate was dropped or panicked")
    );
    assert_eq!(delegate_status(Some(Ok(())), "x"), (status::OK, None));
}

#[test]
fn unimplemented_delegate_methods_report_not_implemented() {
    let error = not_implemented("token delegate create_session not implemented");
    assert_eq!(error.framework_code(), Some(TKErrorCode::NotImplemented));
    assert_eq!(error.message(), "token delegate create_session not implemented");
}

#[test]
fn secrets_with_nul_bytes_are_refused_without_echoing_them() {
    assert_eq!(validate_secret(Some("1234"), "PINs"), Ok(()));
    assert_eq!(validate_secret(None, "PINs"), Ok(()));
    assert_eq!(validate_secret(Some(""), "passwords"), Ok(()));
    let error = validate_secret(Some("12\u{0}34"), "passwords").expect_err("NUL is refused");
    assert_eq!(
        error,
        CryptoTokenKitError::InvalidArgument("passwords must not contain NUL bytes".into())
    );
    assert!(!error.message().contains("12"));
}

#[test]
fn raw_values_map_to_slot_states_events_and_operations() {
    assert_eq!(SlotState::from_raw(1), SlotState::Empty);
    assert_eq!(SlotState::from_raw(4), SlotState::ValidCard);
    assert_eq!(SlotState::from_raw(0), SlotState::Missing);
    assert_eq!(SlotState::from_raw(99), SlotState::Missing);

    for event in [
        SmartCardUserInteractionEvent::CharacterEntered,
        SmartCardUserInteractionEvent::CorrectionKeyPressed,
        SmartCardUserInteractionEvent::ValidationKeyPressed,
        SmartCardUserInteractionEvent::InvalidCharacterEntered,
        SmartCardUserInteractionEvent::OldPinRequested,
        SmartCardUserInteractionEvent::NewPinRequested,
        SmartCardUserInteractionEvent::NewPinConfirmationRequested,
    ] {
        assert_eq!(SmartCardUserInteractionEvent::from_raw(event.raw()), event);
    }
    assert_eq!(SmartCardUserInteractionEvent::NewPinConfirmationRequested.raw(), 6);
    assert_eq!(
        SmartCardUserInteractionEvent::from_raw(-1),
        SmartCardUserInteractionEvent::CharacterEntered
    );

    for (raw, operation) in [
        (0, TokenOperation::NoOperation),
        (1, TokenOperation::ReadData),
        (2, TokenOperation::SignData),
        (3, TokenOperation::DecryptData),
        (4, TokenOperation::PerformKeyExchange),
    ] {
        assert_eq!(operation.raw(), raw);
        assert_eq!(TokenOperation::from_raw(raw), operation);
    }
    assert_eq!(TokenOperation::from_raw(7), TokenOperation::NoOperation);
}

#[test]
fn flag_values_match_the_framework() {
    assert_eq!(SmartCardProtocol::none().bits(), 0);
    assert_eq!(SmartCardProtocol::t0().bits(), 1);
    assert_eq!(SmartCardProtocol::t1().bits(), 2);
    assert_eq!(SmartCardProtocol::t15().bits(), 1 << 15);
    assert_eq!(SmartCardProtocol::from_bits(3).bits(), 3);
    assert_eq!(SmartCardPinCompletion::max_length().bits(), 1);
    assert_eq!(SmartCardPinCompletion::key().bits(), 2);
    assert_eq!(SmartCardPinCompletion::timeout().bits(), 4);
    assert_eq!(SmartCardPinConfirmation::none().bits(), 0);
    assert_eq!(SmartCardPinConfirmation::new_pin().bits(), 1);
    assert_eq!(SmartCardPinConfirmation::current().bits(), 2);
}

#[test]
fn keychain_builders_set_what_they_name() {
    let certificate = TokenKeychainCertificate::new("cert-1", vec![0x30, 0x82])
        .with_label("Certificate");
    assert_eq!(certificate.item.object_id, TokenObjectId::new("cert-1"));
    assert_eq!(certificate.item.label.as_deref(), Some("Certificate"));
    assert_eq!(certificate.data, vec![0x30, 0x82]);

    let key = TokenKeychainKey::new("key-1", "42")
        .with_label("Signing key")
        .with_key_size_in_bits(2048);
    assert_eq!(key.key_type, "42");
    assert_eq!(key.key_size_in_bits, 2048);
    assert_eq!(key.item.label.as_deref(), Some("Signing key"));
    assert!(!key.capabilities.can_sign);

    let entry = TokenKeychainEntry::from(key.clone());
    assert_eq!(entry.object_id(), &TokenObjectId::new("key-1"));
    let entry = TokenKeychainEntry::from(certificate);
    assert_eq!(entry.object_id().0, "cert-1");
    let entry = TokenKeychainEntry::from(TokenKeychainItem::new("item-1"));
    assert_eq!(entry.object_id().0, "item-1");
    assert_eq!(TokenObjectId::from(String::from("x")), TokenObjectId::new("x"));
}

#[test]
fn constraints_keep_one_entry_per_operation_in_order() {
    let item = TokenKeychainItem::new("key")
        .with_constraint(TokenOperation::DecryptData, serde_json::Value::Bool(true))
        .with_constraint(TokenOperation::ReadData, serde_json::Value::from(1))
        .with_constraint(TokenOperation::DecryptData, serde_json::Value::from("again"))
        .with_constraint(TokenOperation::PerformKeyExchange, serde_json::Value::Null);
    let operations: Vec<TokenOperation> =
        item.constraints.entries().iter().map(|(op, _)| *op).collect();
    assert_eq!(
        operations,
        vec![
            TokenOperation::ReadData,
            TokenOperation::DecryptData,
            TokenOperation::PerformKeyExchange,
        ]
    );
    assert_eq!(item.constraints.entries()[1].1, serde_json::Value::from("again"));
    assert_eq!(item.constraints.entries()[0].1, serde_json::Value::from(1));
    assert_eq!(item.constraints.len(), 3);
    assert_eq!(
        item.constraint(TokenOperation::DecryptData),
        Some(&serde_json::Value::from("again"))
    );
    assert_eq!(item.constraint(TokenOperation::SignData), None);
    let copy = item.clone();
    assert_eq!(copy, item);
    assert_eq!(
        TokenConstraints::new()
            .with(TokenOperation::SignData, serde_json::Value::from(2))
            .get(TokenOperation::SignData),
        Some(&serde_json::Value::from(2))
    );
}

#[test]
fn delegate_data_arguments_are_complete_only_with_all_handles() {
    assert!(callback_bytes_given(true, 5));
    assert!(callback_bytes_given(false, 0));
    assert!(!callback_bytes_given(false, 3));
    assert!(callback_arguments_complete(true, false, 0));
    assert!(callback_arguments_complete(true, true, 16));
    assert!(!callback_arguments_complete(true, false, 16));
    assert!(!callback_arguments_complete(false, true, 16));
}

#[test]
fn secrets_from_the_framework_decode_as_utf8() {
    assert_eq!(decode_secret(None), Ok(None));
    assert_eq!(decode_secret(Some(b"1234".to_vec())), Ok(Some("1234".to_owned())));
    assert_eq!(decode_secret(Some(Vec::new())), Ok(Some(String::new())));
    assert_eq!(
        decode_secret(Some("p\u{e4}ss".as_bytes().to_vec())),
        Ok(Some("p\u{e4}ss".to_owned()))
    );
    let refused = decode_secret(Some(vec![0x31, 0xff, 0x32])).unwrap_err();
    assert_eq!(
        refused,
        CryptoTokenKitError::FrameworkError(
            "the framework returned a secret that is not valid UTF-8".into()
        )
    );
    assert!(decode_secret(Some(vec![0xed, 0xa0, 0x80])).is_err());
}

#[test]
fn apdu_le_above_65536_is_refused_before_the_framework() {
    assert_eq!(check_apdu_le(None), Ok(()));
    assert_eq!(check_apdu_le(Some(0)), Ok(()));
    assert_eq!(check_apdu_le(Some(256)), Ok(()));
    assert_eq!(check_apdu_le(Some(MAX_APDU_LE)), Ok(()));
    assert_eq!(
        check_apdu_le(Some(65537)),
        Err(CryptoTokenKitError::InvalidArgument("le must not exceed 65536".into()))
    );
    assert!(matches!(
        check_apdu_le(Some(usize::MAX)),
        Err(CryptoTokenKitError::InvalidArgument(_))
    ));
}

#[test]
fn object_ids_come_from_slices_and_strings_alike() {
    let expected = TokenObjectId("key-1".to_string());
    assert_eq!(TokenObjectId::new("key-1"), expected);
    assert_eq!(TokenObjectId::from("key-1"), expected);
    assert_eq!(TokenObjectId::from(String::from("key-1")), expected);
    let converted: TokenObjectId = "key-1".into();
    assert_eq!(converted.0, "key-1");
}
