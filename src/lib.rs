pub mod hash_domain;
pub mod merkle;
pub mod state;
pub mod ledger;
pub mod claim;

pub use claim::{handle_new_claim, prepare_claim, ErrorCode, TransferError, TransferRequest};
pub use ledger::{ClaimLedger, ClaimStatus};
pub use merkle::verify;
pub use state::MerkleDistributor;
