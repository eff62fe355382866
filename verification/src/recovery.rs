//! Messages about recovery codes and passphrase changes.

use vstd::prelude::*;

verus! {

/// A request for new recovery codes.
#[derive(Debug, Clone, Copy, PartialEq, Eq, Structural)]
pub struct GenerateRecoveryCodesRequest {
    /// The vault to generate codes for; the user's own where absent.
    pub vault_id: Option<u128>,
    /// How many codes to generate; eight where absent.
    pub count: Option<usize>,
}

/// The recovery codes that were just generated, with a note for the user.
#[derive(Debug, Clone)]
pub struct GenerateRecoveryCodesResponse {
    pub codes: Vec<String>,
    pub message: String,
}

/// A passphrase reset that is authorised by a recovery code.
#[derive(Debug, Clone)]
pub struct ResetPassphraseRequest {
    pub code: String,
    pub new_passphrase: String,
}

/// The answer to a passphrase reset that went through.
#[derive(Debug, Clone)]
pub struct ResetPassphraseResponse {
    pub message: String,
    pub vault_id: u128,
}

/// A passphrase change by a user who knows the current one.
#[derive(Debug, Clone)]
pub struct ChangePassphraseRequest {
    pub current_passphrase: String,
    pub new_passphrase: String,
}

/// The answer to a passphrase change that went through.
#[derive(Debug, Clone)]
pub struct ChangePassphraseResponse {
    pub message: String,
    pub vault_id: u128,
}

} // verus!
