//! A non-fungible / semi-fungible token ledger: token classes with numbered
//! serials, an ownership index with its reverse index, approvals, an audit
//! log and a challenge-response authorizer for permissionless class creation.
pub mod approval_store;
pub mod approve;
pub mod approvals;
pub mod assets;
pub mod catalog;
pub mod challenge;
pub mod laws;
pub mod ledger;
pub mod metadata;
pub mod mint;
pub mod owner_tokens;
pub mod owners;
pub mod principal;
pub mod queries;
pub mod settings;
pub mod token_id;
pub mod transfer;
pub mod transfer_from;
pub mod transaction;
pub mod types;
