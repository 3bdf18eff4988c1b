//! Verified core of the CryptoTokenKit bindings: error codes and their
//! mapping, the TLV record formats (BER, SIMPLE and COMPACT) with their
//! parsers, and the value types that cross the framework boundary.

pub mod error;
pub mod status;
pub mod scard_slot_manager;
pub mod smart_card;
pub mod smart_card_atr;
pub mod smart_card_interaction;
pub mod tlv_format;
pub mod tlv_laws;
pub mod token_delegate;
pub mod token_keychain_contents;
pub mod token_session;
pub mod token_watcher;

pub use error::{CryptoTokenKitError, TKErrorCode, TK_ERROR_DOMAIN};
pub use scard_slot_manager::{SlotState, SlotStateDelegate};
pub use smart_card::{
    ApduResponse, SmartCardPinCharset, SmartCardPinCompletion, SmartCardPinConfirmation,
    SmartCardPinEncoding, SmartCardPinFormat, SmartCardPinJustification,
};
pub use smart_card_atr::{
    SmartCardAtr, SmartCardAtrInterfaceGroup, SmartCardProtocol, TlvEncoding, TlvRecord,
};
pub use smart_card_interaction::SmartCardUserInteractionEvent;
pub use token_keychain_contents::{
    TokenConstraints, TokenKeyCapabilities, TokenKeychainCertificate, TokenKeychainEntry, TokenKeychainItem,
    TokenKeychainKey, TokenObjectId, TokenOperation,
};
pub use token_watcher::TokenWatcherTokenInfo;
