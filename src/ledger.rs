use vstd::prelude::*;
use crate::hash_domain::{le64, push_le64, bytes_eq};

verus! {

/// Length of an encoded claim record.
pub const CLAIM_STATUS_LEN: usize = 56;

/// The record of one claim; its existence shows that the claim was made.
#[derive(Clone, Copy)]
pub struct ClaimStatus {
    /// Who claimed.
    pub claimant: [u8; 32],
    /// Locked tokens of the entry.
    pub locked_amount: u64,
    /// Unlocked tokens of the entry, transferred at claim time.
    pub unlocked_amount: u64,
    /// Locked tokens withdrawn so far.
    pub locked_amount_withdrawn: u64,
}

/// The fixed layout of a record: claimant, locked, unlocked, withdrawn.
pub open spec fn claim_status_bytes(s: ClaimStatus) -> Seq<u8> {
    s.claimant@ + le64(s.locked_amount) + le64(s.unlocked_amount) + le64(s.locked_amount_withdrawn)
}

impl ClaimStatus {
    /// Encodes the record in its fixed layout.
    pub fn to_bytes(&self) -> (r: Vec<u8>)
        ensures
            r@ == claim_status_bytes(*self),
            r@.len() == CLAIM_STATUS_LEN,
    {
        let mut out: Vec<u8> = Vec::new();
        let mut i: usize = 0;
        while i < 32
            invariant
                0 <= i <= 32,
                self.claimant@.len() == 32,
                out@ == self.claimant@.subrange(0, i as int),
            decreases 32 - i,
        {
            out.push(self.claimant[i]);
            i = i + 1;
            assert(out@ =~= self.claimant@.subrange(0, i as int));
        }
        assert(self.claimant@.subrange(0, 32) =~= self.claimant@);
        push_le64(&mut out, self.locked_amount);
        push_le64(&mut out, self.unlocked_amount);
        push_le64(&mut out, self.locked_amount_withdrawn);
        proof {
            reveal_with_fuel(crate::hash_domain::le_bytes, 9);
        }
        out
    }
}

/// One stored record under its address.
#[derive(Clone, Copy)]
pub struct LedgerEntry {
    pub address: [u8; 32],
    pub status: ClaimStatus,
}

/// The records held by a sequence of entries, by address; a later entry
/// under an address already present replaces it.
pub open spec fn entries_map(s: Seq<LedgerEntry>) -> Map<Seq<u8>, ClaimStatus>
    decreases s.len(),
{
    if s.len() == 0 {
        Map::empty()
    } else {
        entries_map(s.drop_last()).insert(s.last().address@, s.last().status)
    }
}

/// Claim records by address; a record is created once and never changed.
pub struct ClaimLedger {
    entries: Vec<LedgerEntry>,
}

proof fn lemma_entries_map_domain(s: Seq<LedgerEntry>, k: Seq<u8>)
    ensures
        entries_map(s).contains_key(k) <==> exists|i: int| 0 <= i < s.len() && (#[trigger] s[i]).address@ == k,
    decreases s.len(),
{
    if s.len() > 0 {
        lemma_entries_map_domain(s.drop_last(), k);
        if entries_map(s.drop_last()).contains_key(k) {
            let i = choose|i: int| 0 <= i < s.drop_last().len() && (#[trigger] s.drop_last()[i]).address@ == k;
            assert(s[i] == s.drop_last()[i]);
        }
        if exists|i: int| 0 <= i < s.len() && (#[trigger] s[i]).address@ == k {
            let i = choose|i: int| 0 <= i < s.len() && (#[trigger] s[i]).address@ == k;
            if i < s.len() - 1 {
                assert(s.drop_last()[i] == s[i]);
            }
        }
    }
}

impl View for ClaimLedger {
    type V = Map<Seq<u8>, ClaimStatus>;

    closed spec fn view(&self) -> Map<Seq<u8>, ClaimStatus> {
        entries_map(self.entries@)
    }
}

impl ClaimLedger {
    /// An empty ledger.
    pub fn new() -> (r: ClaimLedger)
        ensures
            r@ == Map::<Seq<u8>, ClaimStatus>::empty(),
    {
        ClaimLedger { entries: Vec::new() }
    }

    /// Whether a record is stored under `address`.
    pub fn contains(&self, address: &[u8; 32]) -> (r: bool)
        ensures
            r == self@.contains_key(address@),
    {
        let mut i: usize = 0;
        while i < self.entries.len()
            invariant
                0 <= i <= self.entries@.len(),
                forall|j: int| 0 <= j < i ==> (#[trigger] self.entries@[j]).address@ != address@,
            decreases self.entries@.len() - i,
        {
            if bytes_eq(&self.entries[i].address, address) {
                proof {
                    lemma_entries_map_domain(self.entries@, address@);
                }
                return true;
            }
            i = i + 1;
        }
        proof {
            lemma_entries_map_domain(self.entries@, address@);
        }
        false
    }

    /// The record stored under `address`, if any.
    pub fn get(&self, address: &[u8; 32]) -> (r: Option<ClaimStatus>)
        ensures
            r == (if self@.contains_key(address@) {
                Some(self@[address@])
            } else {
                None
            }),
    {
        let mut found: Option<ClaimStatus> = None;
        let mut i: usize = 0;
        while i < self.entries.len()
            invariant
                0 <= i <= self.entries@.len(),
                found == (if entries_map(self.entries@.subrange(0, i as int)).contains_key(address@) {
                    Some(entries_map(self.entries@.subrange(0, i as int))[address@])
                } else {
                    None
                }),
            decreases self.entries@.len() - i,
        {
            assert(self.entries@.subrange(0, i + 1).drop_last() =~= self.entries@.subrange(0, i as int));
            if bytes_eq(&self.entries[i].address, address) {
                found = Some(self.entries[i].status);
            }
            i = i + 1;
        }
        assert(self.entries@.subrange(0, self.entries@.len() as int) =~= self.entries@);
        found
    }

    /// Stores `status` under `address` unless a record is there already;
    /// returns whether it was stored.
    pub fn create_if_absent(&mut self, address: &[u8; 32], status: ClaimStatus) -> (r: bool)
        ensures
            r == !old(self)@.contains_key(address@),
            final(self)@ == (if r {
                old(self)@.insert(address@, status)
            } else {
                old(self)@
            }),
    {
        if self.contains(address) {
            false
        } else {
            self.entries.push(LedgerEntry { address: *address, status });
            assert(self.entries@.drop_last() =~= old(self).entries@);
            true
        }
    }
}

} // verus!
