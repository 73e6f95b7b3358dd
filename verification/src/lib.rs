//! A signing oracle for mint permits.
//!
//! A request to mint is checked against an allowlist of creators and against
//! the content fingerprints seen so far, gets a nonce, and is answered with a
//! permit and a signature over the permit's typed-data digest.

pub mod bigend;
pub mod error;
pub mod keccak;
pub mod laws;
pub mod permit;
pub mod signer;
pub mod store;
pub mod text;
pub mod types;
pub mod validate;

pub use error::MinerError;
pub use permit::{build_digest, MintPermit, SigningDomain};
pub use signer::{Signature, Signer};
pub use store::{Allowlist, DedupStore, NonceBook};
pub use types::{parse_h256, Address, H256, U256};
pub use validate::{AppState, MintPermitJson, ValidateReq, ValidateResp};
