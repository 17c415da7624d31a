//! Private-key storage on platforms without the login Keychain: version 1
//! keeps signing keys only in the macOS login Keychain, so elsewhere every
//! request to store or read one is refused as a runtime failure.
use vstd::prelude::*;

use crate::config::KeychainBackend;
use crate::error::AppError;
use crate::text::owned;

verus! {

/// The refusal to store a key outside macOS.
pub open spec fn msg_store_unsupported() -> Seq<char> {
    "version 1 supports private-key storage only on macOS"@
}

/// The refusal to read a key outside macOS.
pub open spec fn msg_retrieve_unsupported() -> Seq<char> {
    "version 1 supports private-key retrieval only on macOS"@
}

/// Stores a private key where no login Keychain exists: always refused,
/// whatever the backend, service, account, secret and label.
pub fn store_secret(
    backend: KeychainBackend,
    service: &str,
    account: &str,
    secret: &[u8],
    label: &str,
) -> (r: Result<(), AppError>)
    ensures
        r matches Err(e) && e.message@ == msg_store_unsupported() && e.exit_code == 1,
{
    Err(AppError::runtime(owned("version 1 supports private-key storage only on macOS")))
}

/// Reads a private key where no login Keychain exists: always refused,
/// whatever the backend, service and account.
pub fn retrieve_secret(backend: KeychainBackend, service: &str, account: &str) -> (r: Result<Vec<u8>, AppError>)
    ensures
        r matches Err(e) && e.message@ == msg_retrieve_unsupported() && e.exit_code == 1,
{
    Err(AppError::runtime(owned("version 1 supports private-key retrieval only on macOS")))
}

} // verus!
