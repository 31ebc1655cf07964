use vstd::prelude::*;
use crate::hash_domain::{leaf_hash_of, node_hash_of, node_hash, bytes_eq, lemma_node_hash_symmetric};

verus! {

/// The hash reached from `leaf` by combining it with each proof step in turn.
pub open spec fn fold_path(leaf: Seq<u8>, proof: Seq<Seq<u8>>) -> Seq<u8>
    decreases proof.len(),
{
    if proof.len() == 0 {
        leaf
    } else {
        node_hash_of(fold_path(leaf, proof.drop_last()), proof.last())
    }
}

/// A proof as a sequence of byte strings.
pub open spec fn proof_view(proof: Seq<[u8; 32]>) -> Seq<Seq<u8>> {
    proof.map_values(|h: [u8; 32]| h@)
}

/// Whether `proof` leads from `leaf` to `root`.
pub fn verify(proof: Vec<[u8; 32]>, root: [u8; 32], leaf: [u8; 32]) -> (r: bool)
    ensures
        r == (fold_path(leaf@, proof_view(proof@)) == root@),
{
    let mut computed: [u8; 32] = leaf;
    let mut i: usize = 0;
    while i < proof.len()
        invariant
            0 <= i <= proof@.len(),
            computed@ == fold_path(leaf@, proof_view(proof@).subrange(0, i as int)),
        decreases proof@.len() - i,
    {
        let ghost prev = proof_view(proof@).subrange(0, i as int);
        let ghost next = proof_view(proof@).subrange(0, i + 1);
        assert(next.drop_last() =~= prev);
        assert(next.last() == proof@[i as int]@);
        computed = node_hash(&computed, &proof[i]);
        i = i + 1;
    }
    assert(proof_view(proof@).subrange(0, proof@.len() as int) =~= proof_view(proof@));
    bytes_eq(&computed, &root)
}

/// An entry of the committed list: claimant and the two amounts.
pub struct Entry {
    pub claimant: Seq<u8>,
    pub unlocked: u64,
    pub locked: u64,
}

/// A binary hash tree over entries, of any shape.
pub enum HashTree {
    Leaf { entry: Entry },
    Node { left: Box<HashTree>, right: Box<HashTree> },
}

/// The root of a tree: leaf hashes at the leaves, node hashes above.
pub open spec fn tree_root(t: HashTree) -> Seq<u8>
    decreases t,
{
    match t {
        HashTree::Leaf { entry } => leaf_hash_of(entry.claimant, entry.unlocked, entry.locked),
        HashTree::Node { left, right } => node_hash_of(tree_root(*left), tree_root(*right)),
    }
}

/// Whether `path` (false: left, true: right) leads from the root to a leaf.
pub open spec fn is_leaf_path(t: HashTree, path: Seq<bool>) -> bool
    decreases path.len(),
{
    match t {
        HashTree::Leaf { .. } => path.len() == 0,
        HashTree::Node { left, right } => path.len() > 0 && if path[0] {
            is_leaf_path(*right, path.drop_first())
        } else {
            is_leaf_path(*left, path.drop_first())
        },
    }
}

/// The entry at the end of `path`.
pub open spec fn entry_at(t: HashTree, path: Seq<bool>) -> Entry
    decreases path.len(),
{
    match t {
        HashTree::Leaf { entry } => entry,
        HashTree::Node { left, right } => if path.len() == 0 {
            Entry { claimant: Seq::empty(), unlocked: 0, locked: 0 }
        } else if path[0] {
            entry_at(*right, path.drop_first())
        } else {
            entry_at(*left, path.drop_first())
        },
    }
}

/// The sibling hashes on the way from the leaf at `path` up to the root,
/// nearest the leaf first.
pub open spec fn proof_at(t: HashTree, path: Seq<bool>) -> Seq<Seq<u8>>
    decreases path.len(),
{
    match t {
        HashTree::Leaf { .. } => Seq::empty(),
        HashTree::Node { left, right } => if path.len() == 0 {
            Seq::empty()
        } else if path[0] {
            proof_at(*right, path.drop_first()).push(tree_root(*left))
        } else {
            proof_at(*left, path.drop_first()).push(tree_root(*right))
        },
    }
}

/// For every tree built with the leaf and node hashing and every leaf of it,
/// the sibling path of that leaf leads from its leaf hash to the tree's root,
/// so `verify` accepts it against that root.
pub proof fn lemma_tree_proof_verifies(t: HashTree, path: Seq<bool>)
    requires
        is_leaf_path(t, path),
    ensures
        fold_path(
            leaf_hash_of(entry_at(t, path).claimant, entry_at(t, path).unlocked, entry_at(t, path).locked),
            proof_at(t, path),
        ) == tree_root(t),
    decreases path.len(),
{
    match t {
        HashTree::Leaf { .. } => {},
        HashTree::Node { left, right } => {
            if path[0] {
                lemma_tree_proof_verifies(*right, path.drop_first());
                let p = proof_at(t, path);
                assert(p.drop_last() =~= proof_at(*right, path.drop_first()));
                lemma_node_hash_symmetric(tree_root(*right), tree_root(*left));
            } else {
                lemma_tree_proof_verifies(*left, path.drop_first());
                let p = proof_at(t, path);
                assert(p.drop_last() =~= proof_at(*left, path.drop_first()));
            }
        },
    }
}

} // verus!
