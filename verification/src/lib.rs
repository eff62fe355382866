//! Vault lock state machine and wallet ledger, with machine-checked contracts.

pub mod catalogue;
pub mod cors;
pub mod crowd;
pub mod error;
pub mod error_types;
pub mod interleaving;
pub mod market_laws;
pub mod market_models;
pub mod market_repos;
pub mod named;
pub mod order;
pub mod origin;
pub mod purchase;
pub mod purchase_flow;
pub mod reason;
pub mod recovery;
pub mod security_headers;
pub mod unlock_unit;
pub mod vault;
pub mod vault_crowd;
pub mod vault_flow;
pub mod vault_interleaving;
pub mod vault_laws;
pub mod vault_repo;
pub mod vault_routes;
