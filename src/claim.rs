use vstd::prelude::*;
use crate::hash_domain::{le64, leaf_hash, leaf_hash_of, push_bytes, push_le64};
use crate::ledger::{ClaimLedger, ClaimStatus};
use crate::merkle::{fold_path, proof_view, verify};
use crate::state::MerkleDistributor;

verus! {

/// Why a claim was refused.
#[derive(Clone, Copy, Debug, PartialEq, Eq, Structural)]
pub enum ErrorCode {
    /// The distribution has been clawed back.
    ClaimExpired,
    /// The claim would exceed the cap on the number of claims.
    MaxNodesExceeded,
    /// The proof does not lead from the entry's leaf to the committed root.
    InvalidProof,
    /// The claim would exceed the cap on the total claimed.
    ExceededMaxClaim,
    /// The claimant has claimed already.
    AlreadyClaimed,
    /// A counter would overflow.
    ArithmeticError,
    /// The vault holds too few tokens for the transfer.
    InsufficientFunds,
    /// The transfer was not authorised.
    Unauthorized,
}

/// How the token transfer of a claim failed.
#[derive(Clone, Copy, Debug, PartialEq, Eq, Structural)]
pub enum TransferError {
    InsufficientFunds,
    Unauthorized,
}

pub open spec fn transfer_error_code(e: TransferError) -> ErrorCode {
    match e {
        TransferError::InsufficientFunds => ErrorCode::InsufficientFunds,
        TransferError::Unauthorized => ErrorCode::Unauthorized,
    }
}

/// The address a program derives from `seeds`, if one exists.
pub uninterp spec fn program_address_of(seeds: Seq<Seq<u8>>, program_id: Seq<u8>) -> Option<Seq<u8>>;

/// Relies on solana_program's Pubkey::try_find_program_address: the address
/// it finds depends on the seeds and the program id alone; the bump seed is
/// not used here.
#[verifier::external_body]
fn try_find_program_address(seeds: &Vec<Vec<u8>>, program_id: &[u8; 32]) -> (r: Option<[u8; 32]>)
    ensures
        match r {
            Some(a) => program_address_of(seeds@.map_values(|s: Vec<u8>| s@), program_id@) == Some(a@),
            None => program_address_of(seeds@.map_values(|s: Vec<u8>| s@), program_id@) is None,
        },
{
    let parts: Vec<&[u8]> = seeds.iter().map(|s| s.as_slice()).collect();
    let id = solana_program::pubkey::Pubkey::new_from_array(*program_id);
    solana_program::pubkey::Pubkey::try_find_program_address(&parts, &id).map(|(a, _)| a.to_bytes())
}

/// The namespace seed of claim records: "ClaimStatus" in ASCII.
pub open spec fn claim_status_tag() -> Seq<u8> {
    seq![67u8, 108, 97, 105, 109, 83, 116, 97, 116, 117, 115]
}

/// The seeds of the claim record of `claimant` in distribution `distributor`.
pub open spec fn claim_seeds(claimant: Seq<u8>, distributor: Seq<u8>) -> Seq<Seq<u8>> {
    seq![claim_status_tag(), claimant, distributor]
}

/// The address of the claim record of `claimant` in distribution `distributor`.
pub open spec fn claim_address(claimant: Seq<u8>, distributor: Seq<u8>, program_id: Seq<u8>) -> Option<Seq<u8>> {
    program_address_of(claim_seeds(claimant, distributor), program_id)
}

/// Derives the address of the claim record of `claimant` in distribution
/// `distributor`, owned by program `program_id`.
pub fn derive_claim_address(claimant: &[u8; 32], distributor: &[u8; 32], program_id: &[u8; 32]) -> (r: Option<[u8; 32]>)
    ensures
        match r {
            Some(a) => claim_address(claimant@, distributor@, program_id@) == Some(a@),
            None => claim_address(claimant@, distributor@, program_id@) is None,
        },
{
    let tag: Vec<u8> = vec![67u8, 108, 97, 105, 109, 83, 116, 97, 116, 117, 115];
    let mut c: Vec<u8> = Vec::new();
    push_bytes(&mut c, claimant);
    let mut d: Vec<u8> = Vec::new();
    push_bytes(&mut d, distributor);
    let mut seeds: Vec<Vec<u8>> = Vec::new();
    seeds.push(tag);
    seeds.push(c);
    seeds.push(d);
    assert(seeds@.map_values(|s: Vec<u8>| s@) =~= claim_seeds(claimant@, distributor@));
    try_find_program_address(&seeds, program_id)
}

} // verus!

verus! {

/// The record a successful claim creates.
pub open spec fn claim_record(claimant: [u8; 32], unlocked: u64, locked: u64) -> ClaimStatus {
    ClaimStatus {
        claimant,
        locked_amount: locked,
        unlocked_amount: unlocked,
        locked_amount_withdrawn: 0,
    }
}

/// The first check, in order, that refuses a claim before its transfer:
/// clawback, the claim-count cap, the proof, the record's address, an
/// existing record.
pub open spec fn gate_error(
    d: MerkleDistributor,
    ledger: Map<Seq<u8>, ClaimStatus>,
    claimant: [u8; 32],
    unlocked: u64,
    locked: u64,
    proof: Seq<Seq<u8>>,
    address: Option<Seq<u8>>,
) -> Option<ErrorCode> {
    if d.clawed_back {
        Some(ErrorCode::ClaimExpired)
    } else if d.num_nodes_claimed == u64::MAX {
        Some(ErrorCode::ArithmeticError)
    } else if d.num_nodes_claimed + 1 > d.max_num_nodes {
        Some(ErrorCode::MaxNodesExceeded)
    } else if fold_path(leaf_hash_of(claimant@, unlocked, locked), proof) != d.root@ {
        Some(ErrorCode::InvalidProof)
    } else {
        match address {
            None => Some(ErrorCode::InvalidProof),
            Some(a) => if ledger.contains_key(a) {
                Some(ErrorCode::AlreadyClaimed)
            } else {
                None
            },
        }
    }
}

/// The first check, in order, that refuses a claim from its transfer on:
/// the transfer's own failure, overflow of the total, the total's cap.
pub open spec fn settle_error(d: MerkleDistributor, unlocked: u64, transfer: Result<(), TransferError>) -> Option<ErrorCode> {
    match transfer {
        Err(e) => Some(transfer_error_code(e)),
        Ok(_) => if d.total_amount_claimed + unlocked > u64::MAX {
            Some(ErrorCode::ArithmeticError)
        } else if d.total_amount_claimed + unlocked > d.max_total_claim {
            Some(ErrorCode::ExceededMaxClaim)
        } else {
            None
        },
    }
}

/// Why a claim is refused, if it is.
pub open spec fn claim_error(
    d: MerkleDistributor,
    ledger: Map<Seq<u8>, ClaimStatus>,
    claimant: [u8; 32],
    unlocked: u64,
    locked: u64,
    proof: Seq<Seq<u8>>,
    address: Option<Seq<u8>>,
    transfer: Result<(), TransferError>,
) -> Option<ErrorCode> {
    match gate_error(d, ledger, claimant, unlocked, locked, proof, address) {
        Some(e) => Some(e),
        None => settle_error(d, unlocked, transfer),
    }
}

/// The distribution after a successful claim of `unlocked` tokens.
pub open spec fn after_claim(d: MerkleDistributor, unlocked: u64) -> MerkleDistributor {
    MerkleDistributor {
        num_nodes_claimed: (d.num_nodes_claimed + 1) as u64,
        total_amount_claimed: (d.total_amount_claimed + unlocked) as u64,
        ..d
    }
}

/// What a claim that passed its checks asks of the token ledger: move
/// `amount` tokens out of `vault`, signed by the distribution's authority.
#[derive(Clone, Copy)]
pub struct TransferRequest {
    pub vault: [u8; 32],
    pub mint: [u8; 32],
    pub version: u64,
    pub bump: u8,
    pub amount: u64,
}

/// The namespace seed of the distribution's transfer authority:
/// "MerkleDistributor" in ASCII.
pub open spec fn distributor_tag() -> Seq<u8> {
    seq![77u8, 101, 114, 107, 108, 101, 68, 105, 115, 116, 114, 105, 98, 117, 116, 111, 114]
}

impl TransferRequest {
    /// The seeds that sign the transfer for the distribution: namespace,
    /// mint, version in little-endian bytes, bump.
    pub fn authority_seeds(&self) -> (r: Vec<Vec<u8>>)
        ensures
            r@.map_values(|s: Vec<u8>| s@) == seq![
                distributor_tag(),
                self.mint@,
                le64(self.version),
                seq![self.bump],
            ],
    {
        let tag: Vec<u8> = vec![77u8, 101, 114, 107, 108, 101, 68, 105, 115, 116, 114, 105, 98, 117, 116, 111, 114];
        let mut mint: Vec<u8> = Vec::new();
        push_bytes(&mut mint, &self.mint);
        let mut version: Vec<u8> = Vec::new();
        push_le64(&mut version, self.version);
        assert(version@ =~= le64(self.version));
        let bump: Vec<u8> = vec![self.bump];
        assert(tag@ =~= distributor_tag());
        assert(mint@ =~= self.mint@);
        assert(bump@ =~= seq![self.bump]);
        let mut seeds: Vec<Vec<u8>> = Vec::new();
        seeds.push(tag);
        seeds.push(mint);
        seeds.push(version);
        seeds.push(bump);
        assert(seeds@.map_values(|s: Vec<u8>| s@) =~= seq![
            distributor_tag(),
            self.mint@,
            le64(self.version),
            seq![self.bump],
        ]);
        seeds
    }
}

/// Runs the checks that come before a claim's transfer, without changing
/// anything, and returns the transfer to make.
pub fn prepare_claim(
    distributor: &MerkleDistributor,
    ledger: &ClaimLedger,
    distributor_key: &[u8; 32],
    program_id: &[u8; 32],
    claimant: &[u8; 32],
    amount_unlocked: u64,
    amount_locked: u64,
    proof: Vec<[u8; 32]>,
) -> (r: Result<TransferRequest, ErrorCode>)
    ensures
        r == (match gate_error(
            *distributor,
            ledger@,
            *claimant,
            amount_unlocked,
            amount_locked,
            proof_view(proof@),
            claim_address(claimant@, distributor_key@, program_id@),
        ) {
            Some(e) => Err(e),
            None => Ok(
                TransferRequest {
                    vault: distributor.token_vault,
                    mint: distributor.mint,
                    version: distributor.version,
                    bump: distributor.bump,
                    amount: amount_unlocked,
                },
            ),
        }),
{
    if distributor.clawed_back {
        return Err(ErrorCode::ClaimExpired);
    }
    let nodes = match distributor.num_nodes_claimed.checked_add(1) {
        Some(n) => n,
        None => return Err(ErrorCode::ArithmeticError),
    };
    if nodes > distributor.max_num_nodes {
        return Err(ErrorCode::MaxNodesExceeded);
    }
    let leaf = leaf_hash(claimant, amount_unlocked, amount_locked);
    if !verify(proof, distributor.root, leaf) {
        return Err(ErrorCode::InvalidProof);
    }
    let address = match derive_claim_address(claimant, distributor_key, program_id) {
        Some(a) => a,
        None => return Err(ErrorCode::InvalidProof),
    };
    if ledger.contains(&address) {
        return Err(ErrorCode::AlreadyClaimed);
    }
    Ok(
        TransferRequest {
            vault: distributor.token_vault,
            mint: distributor.mint,
            version: distributor.version,
            bump: distributor.bump,
            amount: amount_unlocked,
        },
    )
}

/// Decides a claim of `claimant` for `amount_unlocked` unlocked and
/// `amount_locked` locked tokens, given how its transfer went. On success
/// the claim record is created and both counters advance together; on any
/// error neither the distribution nor the ledger changes.
///
/// The lockup and clawback timestamps are not consulted: whether a claim
/// falls inside a time window is left to the caller; here only the clawback
/// flag closes a distribution.
pub fn handle_new_claim(
    distributor: &mut MerkleDistributor,
    ledger: &mut ClaimLedger,
    distributor_key: &[u8; 32],
    program_id: &[u8; 32],
    claimant: &[u8; 32],
    amount_unlocked: u64,
    amount_locked: u64,
    proof: Vec<[u8; 32]>,
    transfer: Result<(), TransferError>,
) -> (r: Result<(), ErrorCode>)
    ensures
        ({
            let address = claim_address(claimant@, distributor_key@, program_id@);
            let err = claim_error(
                *old(distributor),
                old(ledger)@,
                *claimant,
                amount_unlocked,
                amount_locked,
                proof_view(proof@),
                address,
                transfer,
            );
            &&& r == (match err {
                Some(e) => Err(e),
                None => Ok(()),
            })
            &&& err is Some ==> *final(distributor) == *old(distributor) && final(ledger)@ == old(ledger)@
            &&& err is None ==> {
                &&& *final(distributor) == after_claim(*old(distributor), amount_unlocked)
                &&& final(ledger)@ == old(ledger)@.insert(
                    address->0,
                    claim_record(*claimant, amount_unlocked, amount_locked),
                )
                &&& final(distributor).wf()
            }
        }),
{
    if distributor.clawed_back {
        return Err(ErrorCode::ClaimExpired);
    }
    let nodes = match distributor.num_nodes_claimed.checked_add(1) {
        Some(n) => n,
        None => return Err(ErrorCode::ArithmeticError),
    };
    if nodes > distributor.max_num_nodes {
        return Err(ErrorCode::MaxNodesExceeded);
    }
    let leaf = leaf_hash(claimant, amount_unlocked, amount_locked);
    if !verify(proof, distributor.root, leaf) {
        return Err(ErrorCode::InvalidProof);
    }
    let address = match derive_claim_address(claimant, distributor_key, program_id) {
        Some(a) => a,
        None => return Err(ErrorCode::InvalidProof),
    };
    if ledger.contains(&address) {
        return Err(ErrorCode::AlreadyClaimed);
    }
    match transfer {
        Err(TransferError::InsufficientFunds) => return Err(ErrorCode::InsufficientFunds),
        Err(TransferError::Unauthorized) => return Err(ErrorCode::Unauthorized),
        Ok(()) => {},
    }
    let total = match distributor.total_amount_claimed.checked_add(amount_unlocked) {
        Some(t) => t,
        None => return Err(ErrorCode::ArithmeticError),
    };
    if total > distributor.max_total_claim {
        return Err(ErrorCode::ExceededMaxClaim);
    }
    let status = ClaimStatus {
        claimant: *claimant,
        locked_amount: amount_locked,
        unlocked_amount: amount_unlocked,
        locked_amount_withdrawn: 0,
    };
    if !ledger.create_if_absent(&address, status) {
        return Err(ErrorCode::AlreadyClaimed);
    }
    distributor.num_nodes_claimed = nodes;
    distributor.total_amount_claimed = total;
    Ok(())
}

} // verus!

verus! {

/// A claim that succeeded, repeated with the same arguments on the state it
/// left, is refused as already claimed, whatever its transfer would do,
/// as long as the claim-count cap leaves room for one more claim.
pub proof fn lemma_claim_idempotent(
    d: MerkleDistributor,
    ledger: Map<Seq<u8>, ClaimStatus>,
    claimant: [u8; 32],
    unlocked: u64,
    locked: u64,
    proof: Seq<Seq<u8>>,
    address: Option<Seq<u8>>,
    transfer: Result<(), TransferError>,
    again: Result<(), TransferError>,
)
    requires
        claim_error(d, ledger, claimant, unlocked, locked, proof, address, transfer) is None,
        d.num_nodes_claimed + 2 <= d.max_num_nodes,
    ensures
        claim_error(
            after_claim(d, unlocked),
            ledger.insert(address->0, claim_record(claimant, unlocked, locked)),
            claimant,
            unlocked,
            locked,
            proof,
            address,
            again,
        ) == Some(ErrorCode::AlreadyClaimed),
{
}

/// Once the claim count has reached its cap, every claim on a distribution
/// that is not clawed back is refused for the cap.
pub proof fn lemma_node_cap(
    d: MerkleDistributor,
    ledger: Map<Seq<u8>, ClaimStatus>,
    claimant: [u8; 32],
    unlocked: u64,
    locked: u64,
    proof: Seq<Seq<u8>>,
    address: Option<Seq<u8>>,
    transfer: Result<(), TransferError>,
)
    requires
        !d.clawed_back,
        d.num_nodes_claimed >= d.max_num_nodes,
        d.num_nodes_claimed < u64::MAX,
    ensures
        claim_error(d, ledger, claimant, unlocked, locked, proof, address, transfer)
            == Some(ErrorCode::MaxNodesExceeded),
{
}

/// A claim that passes its checks and its transfer but would lift the total
/// above its cap is refused for the cap.
pub proof fn lemma_total_cap(
    d: MerkleDistributor,
    ledger: Map<Seq<u8>, ClaimStatus>,
    claimant: [u8; 32],
    unlocked: u64,
    locked: u64,
    proof: Seq<Seq<u8>>,
    address: Option<Seq<u8>>,
)
    requires
        gate_error(d, ledger, claimant, unlocked, locked, proof, address) is None,
        d.total_amount_claimed + unlocked > d.max_total_claim,
        d.total_amount_claimed + unlocked <= u64::MAX,
    ensures
        claim_error(d, ledger, claimant, unlocked, locked, proof, address, Ok(()))
            == Some(ErrorCode::ExceededMaxClaim),
{
}

/// On a clawed-back distribution every claim is refused as expired, whatever
/// its proof.
pub proof fn lemma_clawback_gate(
    d: MerkleDistributor,
    ledger: Map<Seq<u8>, ClaimStatus>,
    claimant: [u8; 32],
    unlocked: u64,
    locked: u64,
    proof: Seq<Seq<u8>>,
    address: Option<Seq<u8>>,
    transfer: Result<(), TransferError>,
)
    requires
        d.clawed_back,
    ensures
        claim_error(d, ledger, claimant, unlocked, locked, proof, address, transfer)
            == Some(ErrorCode::ClaimExpired),
{
}

/// A successful claim keeps the counters within their bounds and never
/// lowers them, and leaves the clawback flag and the root as they were.
pub proof fn lemma_claim_preserves_bounds(
    d: MerkleDistributor,
    ledger: Map<Seq<u8>, ClaimStatus>,
    claimant: [u8; 32],
    unlocked: u64,
    locked: u64,
    proof: Seq<Seq<u8>>,
    address: Option<Seq<u8>>,
    transfer: Result<(), TransferError>,
)
    requires
        claim_error(d, ledger, claimant, unlocked, locked, proof, address, transfer) is None,
    ensures
        after_claim(d, unlocked).wf(),
        after_claim(d, unlocked).num_nodes_claimed == d.num_nodes_claimed + 1,
        after_claim(d, unlocked).total_amount_claimed == d.total_amount_claimed + unlocked,
        after_claim(d, unlocked).clawed_back == d.clawed_back,
        after_claim(d, unlocked).root == d.root,
{
}

} // verus!
