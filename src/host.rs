//! What the hosting runtime tells about the current call.
use vstd::prelude::*;

verus! {

/// Relies on `near_sdk::env::predecessor_account_id`: the account that made the
/// current call. Nothing is known of which account that is.
#[verifier::external_body]
pub(crate) fn predecessor_account_id() -> (r: String) {
    near_sdk::env::predecessor_account_id().to_string()
}

/// Relies on `near_sdk::env::current_account_id`: the account the store runs as.
/// Nothing is known of which account that is.
#[verifier::external_body]
pub(crate) fn current_account_id() -> (r: String) {
    near_sdk::env::current_account_id().to_string()
}

/// Relies on `near_sdk::env::block_timestamp`: the current block time in
/// nanoseconds. Nothing is known of its value.
#[verifier::external_body]
pub(crate) fn block_timestamp() -> (r: u64) {
    near_sdk::env::block_timestamp()
}

} // verus!
