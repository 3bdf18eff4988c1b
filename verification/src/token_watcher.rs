use vstd::prelude::*;

verus! {

/// What `TKTokenWatcher` reports of a token: its identifier, and the names of
/// its slot and driver where it has them.
#[derive(Debug, Clone, PartialEq, Eq)]
pub struct TokenWatcherTokenInfo {
    pub token_id: String,
    pub slot_name: Option<String>,
    pub driver_name: Option<String>,
}

} // verus!
