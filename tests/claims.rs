use merkle_distributor::claim::derive_claim_address;
use merkle_distributor::hash_domain::{leaf_hash, node_hash};
use merkle_distributor::ledger::CLAIM_STATUS_LEN;
use merkle_distributor::{
    handle_new_claim, prepare_claim, ClaimLedger, ClaimStatus, ErrorCode, MerkleDistributor,
    TransferError,
};

const A: [u8; 32] = [0xA1; 32];
const B: [u8; 32] = [0xB2; 32];
const C: [u8; 32] = [0xC3; 32];
const DIST: [u8; 32] = [0x44; 32];
const PROGRAM: [u8; 32] = [0x55; 32];

fn distributor(root: [u8; 32], max_total: u64, max_nodes: u64) -> MerkleDistributor {
    MerkleDistributor::new(3, root, [0x66; 32], [0x77; 32], max_total, max_nodes, 10, 20, 30, [0x88; 32], [0x99; 32], 254)
}

/// Two leaves: A (100 unlocked) and B (50 unlocked).
fn two_leaf_root() -> ([u8; 32], [u8; 32], [u8; 32]) {
    let la = leaf_hash(&A, 100, 0);
    let lb = leaf_hash(&B, 50, 0);
    (node_hash(&la, &lb), la, lb)
}

fn claim(
    d: &mut MerkleDistributor,
    l: &mut ClaimLedger,
    who: &[u8; 32],
    unlocked: u64,
    locked: u64,
    proof: Vec<[u8; 32]>,
) -> Result<(), ErrorCode> {
    handle_new_claim(d, l, &DIST, &PROGRAM, who, unlocked, locked, proof, Ok(()))
}

#[test]
fn end_to_end_two_leaf_scenario() {
    let (root, la, lb) = two_leaf_root();
    let mut d = distributor(root, 150, 2);
    let mut l = ClaimLedger::new();
    assert_eq!(claim(&mut d, &mut l, &A, 100, 0, vec![lb]), Ok(()));
    assert_eq!(d.num_nodes_claimed, 1);
    assert_eq!(d.total_amount_claimed, 100);
    assert_eq!(claim(&mut d, &mut l, &A, 100, 0, vec![lb]), Err(ErrorCode::AlreadyClaimed));
    assert_eq!(d.num_nodes_claimed, 1);
    assert_eq!(d.total_amount_claimed, 100);
    assert_eq!(claim(&mut d, &mut l, &B, 50, 0, vec![la]), Ok(()));
    assert_eq!(d.num_nodes_claimed, 2);
    assert_eq!(d.total_amount_claimed, 150);
    // the node cap is reached first, so C is refused for it rather than for its proof
    assert_eq!(claim(&mut d, &mut l, &C, 1, 0, vec![]), Err(ErrorCode::MaxNodesExceeded));
}

#[test]
fn unknown_claimant_has_invalid_proof() {
    let (root, la, _lb) = two_leaf_root();
    let mut d = distributor(root, 150, 3);
    let mut l = ClaimLedger::new();
    assert_eq!(claim(&mut d, &mut l, &C, 1, 0, vec![]), Err(ErrorCode::InvalidProof));
    assert_eq!(claim(&mut d, &mut l, &C, 1, 0, vec![la]), Err(ErrorCode::InvalidProof));
    assert_eq!(d.num_nodes_claimed, 0);
    assert_eq!(d.total_amount_claimed, 0);
}

#[test]
fn forged_amounts_are_refused() {
    let (root, _la, lb) = two_leaf_root();
    let mut d = distributor(root, 1000, 2);
    let mut l = ClaimLedger::new();
    assert_eq!(claim(&mut d, &mut l, &A, 101, 0, vec![lb]), Err(ErrorCode::InvalidProof));
    assert_eq!(claim(&mut d, &mut l, &A, 100, 1, vec![lb]), Err(ErrorCode::InvalidProof));
    assert_eq!(claim(&mut d, &mut l, &B, 100, 0, vec![lb]), Err(ErrorCode::InvalidProof));
    assert_eq!(d.num_nodes_claimed, 0);
}

#[test]
fn repeated_claim_is_already_claimed_and_changes_nothing() {
    let (root, _la, lb) = two_leaf_root();
    let mut d = distributor(root, 1000, 10);
    let mut l = ClaimLedger::new();
    assert_eq!(claim(&mut d, &mut l, &A, 100, 0, vec![lb]), Ok(()));
    let before = (d.num_nodes_claimed, d.total_amount_claimed);
    assert_eq!(claim(&mut d, &mut l, &A, 100, 0, vec![lb]), Err(ErrorCode::AlreadyClaimed));
    assert_eq!((d.num_nodes_claimed, d.total_amount_claimed), before);
    let address = derive_claim_address(&A, &DIST, &PROGRAM).unwrap();
    let status = l.get(&address).unwrap();
    assert_eq!(status.claimant, A);
    assert_eq!(status.unlocked_amount, 100);
    assert_eq!(status.locked_amount, 0);
    assert_eq!(status.locked_amount_withdrawn, 0);
}

#[test]
fn node_cap_refuses_third_claim() {
    let la = leaf_hash(&A, 10, 0);
    let lb = leaf_hash(&B, 20, 0);
    let lc = leaf_hash(&C, 30, 0);
    let ab = node_hash(&la, &lb);
    let root = node_hash(&ab, &lc);
    let mut d = distributor(root, 1000, 2);
    let mut l = ClaimLedger::new();
    assert_eq!(claim(&mut d, &mut l, &A, 10, 0, vec![lb, lc]), Ok(()));
    assert_eq!(claim(&mut d, &mut l, &B, 20, 0, vec![la, lc]), Ok(()));
    assert_eq!(claim(&mut d, &mut l, &C, 30, 0, vec![ab]), Err(ErrorCode::MaxNodesExceeded));
    assert_eq!(d.num_nodes_claimed, 2);
    assert_eq!(d.total_amount_claimed, 30);
}

#[test]
fn total_cap_refuses_and_keeps_total() {
    let la = leaf_hash(&A, 100, 0);
    let lb = leaf_hash(&B, 60, 0);
    let root = node_hash(&la, &lb);
    let mut d = distributor(root, 150, 5);
    let mut l = ClaimLedger::new();
    assert_eq!(claim(&mut d, &mut l, &A, 100, 0, vec![lb]), Ok(()));
    assert_eq!(claim(&mut d, &mut l, &B, 60, 0, vec![la]), Err(ErrorCode::ExceededMaxClaim));
    assert_eq!(d.total_amount_claimed, 100);
    assert_eq!(d.num_nodes_claimed, 1);
    // the refused claim left no record behind
    let address = derive_claim_address(&B, &DIST, &PROGRAM).unwrap();
    assert!(!l.contains(&address));
}

#[test]
fn clawed_back_distribution_refuses_valid_claims() {
    let (root, _la, lb) = two_leaf_root();
    let mut d = distributor(root, 150, 2);
    d.clawed_back = true;
    let mut l = ClaimLedger::new();
    assert_eq!(claim(&mut d, &mut l, &A, 100, 0, vec![lb]), Err(ErrorCode::ClaimExpired));
    assert_eq!(claim(&mut d, &mut l, &C, 1, 0, vec![]), Err(ErrorCode::ClaimExpired));
    assert_eq!(d.num_nodes_claimed, 0);
    assert!(d.clawed_back);
}

#[test]
fn node_counter_overflow_is_arithmetic_error() {
    let (root, _la, lb) = two_leaf_root();
    let mut d = distributor(root, 150, u64::MAX);
    d.num_nodes_claimed = u64::MAX;
    let mut l = ClaimLedger::new();
    assert_eq!(claim(&mut d, &mut l, &A, 100, 0, vec![lb]), Err(ErrorCode::ArithmeticError));
}

#[test]
fn total_overflow_is_arithmetic_error() {
    let la = leaf_hash(&A, u64::MAX, 0);
    let lb = leaf_hash(&B, 1, 0);
    let root = node_hash(&la, &lb);
    let mut d = distributor(root, u64::MAX, 5);
    let mut l = ClaimLedger::new();
    assert_eq!(claim(&mut d, &mut l, &B, 1, 0, vec![la]), Ok(()));
    assert_eq!(claim(&mut d, &mut l, &A, u64::MAX, 0, vec![lb]), Err(ErrorCode::ArithmeticError));
    assert_eq!(d.total_amount_claimed, 1);
}

#[test]
fn transfer_failures_surface_and_change_nothing() {
    let (root, _la, lb) = two_leaf_root();
    let mut d = distributor(root, 150, 2);
    let mut l = ClaimLedger::new();
    let r = handle_new_claim(&mut d, &mut l, &DIST, &PROGRAM, &A, 100, 0, vec![lb], Err(TransferError::InsufficientFunds));
    assert_eq!(r, Err(ErrorCode::InsufficientFunds));
    let r = handle_new_claim(&mut d, &mut l, &DIST, &PROGRAM, &A, 100, 0, vec![lb], Err(TransferError::Unauthorized));
    assert_eq!(r, Err(ErrorCode::Unauthorized));
    assert_eq!(d.num_nodes_claimed, 0);
    assert_eq!(d.total_amount_claimed, 0);
    assert_eq!(claim(&mut d, &mut l, &A, 100, 0, vec![lb]), Ok(()));
}

#[test]
fn prepare_claim_returns_transfer_and_changes_nothing() {
    let (root, _la, lb) = two_leaf_root();
    let d = distributor(root, 150, 2);
    let l = ClaimLedger::new();
    let req = prepare_claim(&d, &l, &DIST, &PROGRAM, &A, 100, 0, vec![lb]).unwrap();
    assert_eq!(req.amount, 100);
    assert_eq!(req.vault, [0x77; 32]);
    assert_eq!(req.mint, [0x66; 32]);
    assert_eq!(req.version, 3);
    assert_eq!(req.bump, 254);
    assert_eq!(
        prepare_claim(&d, &l, &DIST, &PROGRAM, &A, 99, 0, vec![lb]).err(),
        Some(ErrorCode::InvalidProof)
    );
    assert_eq!(d.num_nodes_claimed, 0);
}

#[test]
fn authority_seeds_layout() {
    let (root, _la, lb) = two_leaf_root();
    let d = distributor(root, 150, 2);
    let l = ClaimLedger::new();
    let req = prepare_claim(&d, &l, &DIST, &PROGRAM, &A, 100, 0, vec![lb]).unwrap();
    let seeds = req.authority_seeds();
    assert_eq!(seeds.len(), 4);
    assert_eq!(seeds[0], b"MerkleDistributor".to_vec());
    assert_eq!(seeds[1], vec![0x66; 32]);
    assert_eq!(seeds[2], vec![3, 0, 0, 0, 0, 0, 0, 0]);
    assert_eq!(seeds[3], vec![254]);
}

#[test]
fn claim_addresses_differ_by_claimant_and_distribution() {
    let a = derive_claim_address(&A, &DIST, &PROGRAM).unwrap();
    let b = derive_claim_address(&B, &DIST, &PROGRAM).unwrap();
    let a2 = derive_claim_address(&A, &[0x45; 32], &PROGRAM).unwrap();
    assert_ne!(a, b);
    assert_ne!(a, a2);
    assert_ne!(a, A);
    assert_eq!(a, derive_claim_address(&A, &DIST, &PROGRAM).unwrap());
}

#[test]
fn claim_status_encoding_layout() {
    let s = ClaimStatus { claimant: [0xAB; 32], locked_amount: 0x0102, unlocked_amount: 5, locked_amount_withdrawn: 0 };
    let bytes = s.to_bytes();
    assert_eq!(bytes.len(), CLAIM_STATUS_LEN);
    assert_eq!(&bytes[..32], &[0xAB; 32][..]);
    assert_eq!(&bytes[32..40], &[2, 1, 0, 0, 0, 0, 0, 0][..]);
    assert_eq!(&bytes[40..48], &[5, 0, 0, 0, 0, 0, 0, 0][..]);
    assert_eq!(&bytes[48..56], &[0; 8][..]);
}

#[test]
fn ledger_creates_once() {
    let mut l = ClaimLedger::new();
    let s = ClaimStatus { claimant: A, locked_amount: 1, unlocked_amount: 2, locked_amount_withdrawn: 0 };
    let t = ClaimStatus { claimant: B, locked_amount: 3, unlocked_amount: 4, locked_amount_withdrawn: 0 };
    assert!(!l.contains(&A));
    assert!(l.create_if_absent(&A, s));
    assert!(!l.create_if_absent(&A, t));
    assert!(l.create_if_absent(&B, t));
    assert_eq!(l.get(&A).unwrap().unlocked_amount, 2);
    assert_eq!(l.get(&B).unwrap().unlocked_amount, 4);
    assert!(l.get(&C).is_none());
}
