use vstd::prelude::*;

use crate::error::CryptoTokenKitError;

verus! {

/// The reply to `TKSmartCard.send(ins:p1:p2:data:le:)`: the response data and
/// the status word.
#[derive(Debug, Clone, PartialEq, Eq)]
pub struct ApduResponse {
    pub data: Vec<u8>,
    pub status_word: u16,
}

/// The character sets of `TKSmartCardPINFormat`.
#[derive(Debug, Clone, Copy, PartialEq, Eq, Structural)]
pub enum SmartCardPinCharset {
    Numeric,
    Alphanumeric,
    UpperAlphanumeric,
}

/// The PIN encodings of `TKSmartCardPINFormat`.
#[derive(Debug, Clone, Copy, PartialEq, Eq, Structural)]
pub enum SmartCardPinEncoding {
    Binary,
    Ascii,
    Bcd,
}

/// The PIN justifications of `TKSmartCardPINFormat`.
#[derive(Debug, Clone, Copy, PartialEq, Eq, Structural)]
pub enum SmartCardPinJustification {
    Left,
    Right,
}

/// The completion flags of a PIN interaction.
#[derive(Debug, Clone, Copy, PartialEq, Eq, Structural)]
pub struct SmartCardPinCompletion(pub u32);

impl SmartCardPinCompletion {
    /// Completion when the maximum length is reached (`MAX_LENGTH`, bit 0).
    pub fn max_length() -> (r: Self)
        ensures
            r.0 == 1,
    {
        SmartCardPinCompletion(1)
    }

    /// Completion on the validation key (`KEY`, bit 1).
    pub fn key() -> (r: Self)
        ensures
            r.0 == 2,
    {
        SmartCardPinCompletion(2)
    }

    /// Completion on timeout (`TIMEOUT`, bit 2).
    pub fn timeout() -> (r: Self)
        ensures
            r.0 == 4,
    {
        SmartCardPinCompletion(4)
    }

    /// Returns the raw bits.
    pub fn bits(self) -> (r: u32)
        ensures
            r == self.0,
    {
        self.0
    }
}

/// The confirmation flags of a PIN-change interaction.
#[derive(Debug, Clone, Copy, PartialEq, Eq, Structural)]
pub struct SmartCardPinConfirmation(pub u32);

impl SmartCardPinConfirmation {
    /// No confirmation (`NONE`).
    pub fn none() -> (r: Self)
        ensures
            r.0 == 0,
    {
        SmartCardPinConfirmation(0)
    }

    /// Confirm the new PIN (`NEW`, bit 0).
    pub fn new_pin() -> (r: Self)
        ensures
            r.0 == 1,
    {
        SmartCardPinConfirmation(1)
    }

    /// Confirm the current PIN (`CURRENT`, bit 1).
    pub fn current() -> (r: Self)
        ensures
            r.0 == 2,
    {
        SmartCardPinConfirmation(2)
    }

    /// Returns the raw bits.
    pub fn bits(self) -> (r: u32)
        ensures
            r == self.0,
    {
        self.0
    }
}

/// The `TKSmartCardPINFormat` settings.
#[derive(Debug, Clone, PartialEq, Eq)]
pub struct SmartCardPinFormat {
    pub charset: SmartCardPinCharset,
    pub encoding: SmartCardPinEncoding,
    pub min_pin_length: i64,
    pub max_pin_length: i64,
    pub pin_block_byte_length: i64,
    pub pin_justification: SmartCardPinJustification,
    pub pin_bit_offset: i64,
    pub pin_length_bit_offset: i64,
    pub pin_length_bit_size: i64,
}

impl Default for SmartCardPinFormat {
    /// The framework's defaults: numeric ASCII PINs of 4 to 8 characters in
    /// an 8-byte block, left-justified, with every bit offset and size 0.
    fn default() -> (r: Self)
        ensures
            r.charset == SmartCardPinCharset::Numeric,
            r.encoding == SmartCardPinEncoding::Ascii,
            r.min_pin_length == 4,
            r.max_pin_length == 8,
            r.pin_block_byte_length == 8,
            r.pin_justification == SmartCardPinJustification::Left,
            r.pin_bit_offset == 0,
            r.pin_length_bit_offset == 0,
            r.pin_length_bit_size == 0,
    {
        SmartCardPinFormat {
            charset: SmartCardPinCharset::Numeric,
            encoding: SmartCardPinEncoding::Ascii,
            min_pin_length: 4,
            max_pin_length: 8,
            pin_block_byte_length: 8,
            pin_justification: SmartCardPinJustification::Left,
            pin_bit_offset: 0,
            pin_length_bit_offset: 0,
            pin_length_bit_size: 0,
        }
    }
}

/// The largest expected response length of an APDU: an extended `Le` of
/// `0x0000` asks for 65536 bytes.
pub const MAX_APDU_LE: usize = 65536;

/// The message of the error for an expected response length above
/// `MAX_APDU_LE`.
pub open spec fn apdu_le_message() -> Seq<char> {
    "le must not exceed 65536"@
}

/// Checks the expected response length of `TKSmartCard.send(ins:p1:p2:data:le:)`
/// before it reaches the framework: no length, or one of at most 65536, is
/// accepted; a larger one is refused with `InvalidArgument`.
pub fn check_apdu_le(le: Option<usize>) -> (r: Result<(), CryptoTokenKitError>)
    ensures
        r is Ok <==> (le matches Some(n) ==> n <= MAX_APDU_LE),
        r matches Err(e) ==> e is InvalidArgument && e.spec_message() == apdu_le_message(),
{
    match le {
        Some(n) => {
            if n > MAX_APDU_LE {
                Err(CryptoTokenKitError::InvalidArgument("le must not exceed 65536".to_owned()))
            } else {
                Ok(())
            }
        },
        None => Ok(()),
    }
}

} // verus!
