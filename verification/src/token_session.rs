use vstd::prelude::*;
use vstd::string::StringSliceAdditionalSpecFns;
use vstd::utf8::{decode_utf8, valid_utf8};

use crate::error::CryptoTokenKitError;

verus! {

/// Whether `secret` is a PIN or password that holds a NUL byte.
pub open spec fn secret_has_nul(secret: Option<&str>) -> bool {
    secret matches Some(s) && s.spec_bytes().contains(0u8)
}

/// Checks a PIN or password before it is handed to the framework: one that
/// holds a NUL byte is refused with an `InvalidArgument` error that names
/// `kind` and never the secret.
pub fn validate_secret(secret: Option<&str>, kind: &str) -> (r: Result<(), CryptoTokenKitError>)
    ensures
        r is Ok <==> !secret_has_nul(secret),
        r matches Err(e) ==> e is InvalidArgument && e.spec_message() == kind@
            + " must not contain NUL bytes"@,
{
    if let Some(s) = secret {
        let bytes = s.as_bytes();
        let mut i: usize = 0;
        while i < bytes.len()
            invariant
                i <= bytes@.len(),
                bytes@ == s.spec_bytes(),
                secret == Some(s),
                forall|j: int| 0 <= j < i ==> bytes@[j] != 0u8,
            decreases bytes.len() - i,
        {
            if bytes[i] == 0 {
                assert(s.spec_bytes()[i as int] == 0u8);
                let message = kind.to_owned().concat(" must not contain NUL bytes");
                return Err(CryptoTokenKitError::InvalidArgument(message));
            }
            i = i + 1;
        }
        proof {
            if s.spec_bytes().contains(0u8) {
                let j = choose|j: int| 0 <= j < bytes@.len() && bytes@[j] == 0u8;
                assert(bytes@[j] != 0u8);
            }
        }
    }
    Ok(())
}

/// The text of `bytes`, by `std::str::from_utf8`: `Some` with the decoded
/// text exactly when the bytes are valid UTF-8.
#[verifier::external_body]
fn utf8_text<'a>(bytes: &'a [u8]) -> (r: Option<&'a str>)
    ensures
        r is Some <==> valid_utf8(bytes@),
        r matches Some(text) ==> text@ == decode_utf8(bytes@),
{
    match std::str::from_utf8(bytes) {
        Ok(text) => Some(text),
        Err(_) => None,
    }
}

/// Wipes `bytes` with `zeroize::Zeroize::zeroize`, which overwrites every
/// byte and the spare capacity with zeros and then empties the vector. Only
/// the emptying is stated; the overwriting of memory is left unsaid, since
/// nothing here can observe it.
#[verifier::external_body]
fn wipe(bytes: &mut Vec<u8>)
    ensures
        final(bytes)@.len() == 0,
{
    zeroize::Zeroize::zeroize(bytes);
}

/// The message of the error for a secret that is not valid UTF-8.
pub open spec fn invalid_secret_message() -> Seq<char> {
    "the framework returned a secret that is not valid UTF-8"@
}

/// Turns the bytes of a PIN or password that the framework handed back into
/// text: no bytes give `None`, valid UTF-8 gives a copy of its text, and
/// anything else is refused with a `FrameworkError`; either way the bytes
/// are wiped.
pub fn decode_secret(bytes: Option<Vec<u8>>) -> (r: Result<Option<String>, CryptoTokenKitError>)
    ensures
        bytes is None ==> r matches Ok(None),
        bytes matches Some(b) ==> (r is Ok <==> valid_utf8(b@)),
        bytes matches Some(b) ==> (valid_utf8(b@) ==> (r matches Ok(Some(text)) && text@
            == decode_utf8(b@))),
        r matches Err(e) ==> e is FrameworkError && e.spec_message() == invalid_secret_message(),
{
    match bytes {
        None => Ok(None),
        Some(b) => {
            let mut b = b;
            let decoded = match utf8_text(b.as_slice()) {
                Some(text) => Ok(Some(text.to_owned())),
                None => {
                    let message = "the framework returned a secret that is not valid UTF-8".to_owned();
                    Err(CryptoTokenKitError::FrameworkError(message))
                },
            };
            wipe(&mut b);
            decoded
        },
    }
}

} // verus!
