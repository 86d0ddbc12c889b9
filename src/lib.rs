//! Verified core of a cross-domain token gateway: strict decoders for the
//! mint attestation and burn intent wire formats, EVM-style signer
//! recovery, the companion signature proof check, the replay registry and
//! the depositor balance ledger, sequenced by the mint and burn flows.

pub mod attestation;
pub mod burn_data;
pub mod bytes;
pub mod crypto;
pub mod ed25519;
pub mod error;
pub mod minter;
pub mod minter_admin;
pub mod minter_flow;
pub mod replay;
pub mod wallet;
pub mod wallet_admin;
pub mod wallet_flow;
