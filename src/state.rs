use vstd::prelude::*;

verus! {

/// State of one distribution: its committed root, its bounds and counters.
#[derive(Clone, Copy)]
pub struct MerkleDistributor {
    /// Generation of the distribution; part of the transfer authority's seeds.
    pub version: u64,
    /// The committed Merkle root.
    pub root: [u8; 32],
    /// Token type that is distributed.
    pub mint: [u8; 32],
    /// Custodial pool the tokens leave from.
    pub token_vault: [u8; 32],
    /// Most tokens that can ever be claimed.
    pub max_total_claim: u64,
    /// Most claims that can ever be made.
    pub max_num_nodes: u64,
    /// Tokens claimed so far.
    pub total_amount_claimed: u64,
    /// Claims made so far.
    pub num_nodes_claimed: u64,
    /// Lockup start (Unix timestamp).
    pub start_ts: i64,
    /// Lockup end (Unix timestamp).
    pub end_ts: i64,
    /// Clawback start (Unix timestamp).
    pub clawback_start_ts: i64,
    /// Receiver of what is clawed back.
    pub clawback_receiver: [u8; 32],
    /// Administrator of the distribution.
    pub admin: [u8; 32],
    /// Set once the distribution has been clawed back; no claim passes after.
    pub clawed_back: bool,
    /// Bump seed of the distribution's own address.
    pub bump: u8,
}

impl MerkleDistributor {
    /// The counters stay within their bounds.
    pub open spec fn wf(&self) -> bool {
        &&& self.num_nodes_claimed <= self.max_num_nodes
        &&& self.total_amount_claimed <= self.max_total_claim
    }

    /// A fresh distribution with zero counters, not clawed back.
    pub fn new(
        version: u64,
        root: [u8; 32],
        mint: [u8; 32],
        token_vault: [u8; 32],
        max_total_claim: u64,
        max_num_nodes: u64,
        start_ts: i64,
        end_ts: i64,
        clawback_start_ts: i64,
        clawback_receiver: [u8; 32],
        admin: [u8; 32],
        bump: u8,
    ) -> (r: MerkleDistributor)
        ensures
            r.wf(),
            r.version == version,
            r.root == root,
            r.mint == mint,
            r.token_vault == token_vault,
            r.max_total_claim == max_total_claim,
            r.max_num_nodes == max_num_nodes,
            r.total_amount_claimed == 0,
            r.num_nodes_claimed == 0,
            r.start_ts == start_ts,
            r.end_ts == end_ts,
            r.clawback_start_ts == clawback_start_ts,
            r.clawback_receiver == clawback_receiver,
            r.admin == admin,
            !r.clawed_back,
            r.bump == bump,
    {
        MerkleDistributor {
            version,
            root,
            mint,
            token_vault,
            max_total_claim,
            max_num_nodes,
            total_amount_claimed: 0,
            num_nodes_claimed: 0,
            start_ts,
            end_ts,
            clawback_start_ts,
            clawback_receiver,
            admin,
            clawed_back: false,
            bump,
        }
    }
}

} // verus!
