# cryptotokenkit

Rust bindings for Apple's CryptoTokenKit framework, in two crates.

- `src/` is the library `cryptotokenkit`, written in Verus. It holds what does
  not need the framework, each function with a contract that Verus proves:
  - `error`, `status`: `TKErrorCode`, `CryptoTokenKitError`, how bridge
    statuses become errors and how delegate failures become `TKError` codes;
  - `smart_card_atr`, `tlv_format`, `tlv_laws`: the BER-, SIMPLE- and
    COMPACT-TLV encoders and parsers, with the round-trip laws between them;
  - `token_keychain_contents`: keychain items, keys and certificates, and the
    per-operation constraints of an item, kept sorted with one per operation;
  - `smart_card`, `smart_card_interaction`, `scard_slot_manager`,
    `token_session`, `token_delegate`, `token_watcher`: PIN formats, raw codes
    of events, slot states and operations, secret checks and delegate statuses.
- `app/` is ordinary Rust around it: the Swift bridge declarations, the handles
  to framework objects, callback trampolines, JSON with serde, and the async
  token-watcher streams.
- `tests/` runs the library on concrete values.
