use vstd::prelude::*;

verus! {

/// Tag byte that opens the preimage of every leaf hash.
pub const LEAF_PREFIX: u8 = 0;

/// Tag byte that opens the preimage of every internal-node hash.
pub const NODE_PREFIX: u8 = 1;

/// The SHA-256 digest of a byte string.
pub uninterp spec fn sha256_of(data: Seq<u8>) -> Seq<u8>;

/// Relies on solana_program::hash::hashv: the SHA-256 digest of the
/// concatenation of its parts, here a single part.
#[verifier::external_body]
fn sha256(data: &Vec<u8>) -> (r: [u8; 32])
    ensures
        r@ == sha256_of(data@),
{
    solana_program::hash::hashv(&[data.as_slice()]).to_bytes()
}

/// The `n` least significant base-256 digits of `v`, least significant first.
pub open spec fn le_bytes(v: nat, n: nat) -> Seq<u8>
    decreases n,
{
    if n == 0 {
        Seq::empty()
    } else {
        seq![(v % 256) as u8] + le_bytes(v / 256, (n - 1) as nat)
    }
}

/// Little-endian encoding of a `u64` in eight bytes.
pub open spec fn le64(v: u64) -> Seq<u8> {
    le_bytes(v as nat, 8)
}

/// Unsigned lexicographic order on byte strings (a prefix comes first).
pub open spec fn lex_le(a: Seq<u8>, b: Seq<u8>) -> bool
    decreases a.len(),
{
    if a.len() == 0 {
        true
    } else if b.len() == 0 {
        false
    } else if a[0] != b[0] {
        a[0] < b[0]
    } else {
        lex_le(a.drop_first(), b.drop_first())
    }
}

/// The bytes that bind one entry: claimant, unlocked amount, locked amount.
pub open spec fn entry_bytes(claimant: Seq<u8>, unlocked: u64, locked: u64) -> Seq<u8> {
    claimant + le64(unlocked) + le64(locked)
}

/// The preimage of a leaf hash: the leaf tag, then the digest of the entry.
pub open spec fn leaf_preimage(claimant: Seq<u8>, unlocked: u64, locked: u64) -> Seq<u8> {
    seq![LEAF_PREFIX] + sha256_of(entry_bytes(claimant, unlocked, locked))
}

pub open spec fn leaf_hash_of(claimant: Seq<u8>, unlocked: u64, locked: u64) -> Seq<u8> {
    sha256_of(leaf_preimage(claimant, unlocked, locked))
}

/// The preimage of an internal-node hash: the node tag, then the two
/// children, smaller first.
pub open spec fn node_preimage(a: Seq<u8>, b: Seq<u8>) -> Seq<u8> {
    if lex_le(a, b) {
        seq![NODE_PREFIX] + a + b
    } else {
        seq![NODE_PREFIX] + b + a
    }
}

pub open spec fn node_hash_of(a: Seq<u8>, b: Seq<u8>) -> Seq<u8> {
    sha256_of(node_preimage(a, b))
}

/// Appends the bytes of `src` to `out`.
pub(crate) fn push_bytes(out: &mut Vec<u8>, src: &[u8; 32])
    ensures
        final(out)@ == old(out)@ + src@,
{
    let mut i: usize = 0;
    while i < 32
        invariant
            0 <= i <= 32,
            src@.len() == 32,
            out@ == old(out)@ + src@.subrange(0, i as int),
        decreases 32 - i,
    {
        out.push(src[i]);
        i = i + 1;
        assert(out@ =~= old(out)@ + src@.subrange(0, i as int));
    }
    assert(src@.subrange(0, 32) =~= src@);
}

/// Appends the little-endian encoding of `v` to `out`.
pub fn push_le64(out: &mut Vec<u8>, v: u64)
    ensures
        final(out)@ == old(out)@ + le64(v),
{
    let mut x: u64 = v;
    let mut i: usize = 0;
    while i < 8
        invariant
            0 <= i <= 8,
            out@ + le_bytes(x as nat, (8 - i) as nat) == old(out)@ + le64(v),
        decreases 8 - i,
    {
        let ghost before = out@;
        assert(le_bytes(x as nat, (8 - i) as nat) == seq![(x % 256) as u8] + le_bytes(
            (x / 256) as nat,
            (8 - i - 1) as nat,
        ));
        out.push((x % 256) as u8);
        x = x / 256;
        i = i + 1;
        assert(out@ + le_bytes(x as nat, (8 - i) as nat) =~= before + (seq![
            (out@.last())
        ] + le_bytes(x as nat, (8 - i) as nat)));
    }
    assert(le_bytes(x as nat, 0) =~= Seq::<u8>::empty());
    assert(out@ =~= out@ + le_bytes(x as nat, 0));
}

/// Whether `a` comes no later than `b` in unsigned lexicographic order.
pub fn bytes_le(a: &[u8; 32], b: &[u8; 32]) -> (r: bool)
    ensures
        r == lex_le(a@, b@),
{
    let mut i: usize = 0;
    assert(a@.subrange(0, 32) =~= a@);
    assert(b@.subrange(0, 32) =~= b@);
    while i < 32
        invariant
            0 <= i <= 32,
            a@.len() == 32,
            b@.len() == 32,
            lex_le(a@, b@) == lex_le(a@.subrange(i as int, 32), b@.subrange(i as int, 32)),
        decreases 32 - i,
    {
        let ghost sa = a@.subrange(i as int, 32);
        let ghost sb = b@.subrange(i as int, 32);
        assert(sa[0] == a@[i as int] && sb[0] == b@[i as int]);
        if a[i] != b[i] {
            return a[i] < b[i];
        }
        assert(sa.drop_first() =~= a@.subrange(i + 1, 32));
        assert(sb.drop_first() =~= b@.subrange(i + 1, 32));
        i = i + 1;
    }
    true
}

/// Whether `a` and `b` hold the same bytes.
pub fn bytes_eq(a: &[u8; 32], b: &[u8; 32]) -> (r: bool)
    ensures
        r == (a@ == b@),
{
    let mut i: usize = 0;
    while i < 32
        invariant
            0 <= i <= 32,
            a@.len() == 32,
            b@.len() == 32,
            forall|j: int| 0 <= j < i ==> a@[j] == b@[j],
        decreases 32 - i,
    {
        if a[i] != b[i] {
            return false;
        }
        i = i + 1;
    }
    assert(a@ =~= b@);
    true
}

/// The leaf hash of an entry: `H(0x00 ‖ H(claimant ‖ le64(unlocked) ‖ le64(locked)))`.
pub fn leaf_hash(claimant: &[u8; 32], unlocked: u64, locked: u64) -> (r: [u8; 32])
    ensures
        r@ == leaf_hash_of(claimant@, unlocked, locked),
{
    let mut entry: Vec<u8> = Vec::new();
    push_bytes(&mut entry, claimant);
    push_le64(&mut entry, unlocked);
    push_le64(&mut entry, locked);
    let inner = sha256(&entry);
    let mut outer: Vec<u8> = Vec::new();
    outer.push(LEAF_PREFIX);
    push_bytes(&mut outer, &inner);
    assert(outer@ =~= leaf_preimage(claimant@, unlocked, locked));
    sha256(&outer)
}

/// The hash of an internal node: `H(0x01 ‖ min(a, b) ‖ max(a, b))`.
pub fn node_hash(a: &[u8; 32], b: &[u8; 32]) -> (r: [u8; 32])
    ensures
        r@ == node_hash_of(a@, b@),
{
    let mut pre: Vec<u8> = Vec::new();
    pre.push(NODE_PREFIX);
    if bytes_le(a, b) {
        push_bytes(&mut pre, a);
        push_bytes(&mut pre, b);
    } else {
        push_bytes(&mut pre, b);
        push_bytes(&mut pre, a);
    }
    assert(pre@ =~= node_preimage(a@, b@));
    sha256(&pre)
}

/// Leaf and internal-node preimages never coincide: the first byte of a leaf
/// preimage is the leaf tag and that of a node preimage is the node tag.
pub proof fn lemma_domain_separation(
    claimant: Seq<u8>,
    unlocked: u64,
    locked: u64,
    a: Seq<u8>,
    b: Seq<u8>,
)
    ensures
        leaf_preimage(claimant, unlocked, locked)[0] == LEAF_PREFIX,
        node_preimage(a, b)[0] == NODE_PREFIX,
        leaf_preimage(claimant, unlocked, locked) != node_preimage(a, b),
{
    assert(leaf_preimage(claimant, unlocked, locked)[0] == LEAF_PREFIX);
    assert(node_preimage(a, b)[0] == NODE_PREFIX);
}

/// Lexicographic order is total.
pub proof fn lemma_lex_total(a: Seq<u8>, b: Seq<u8>)
    ensures
        lex_le(a, b) || lex_le(b, a),
    decreases a.len(),
{
    if a.len() > 0 && b.len() > 0 && a[0] == b[0] {
        lemma_lex_total(a.drop_first(), b.drop_first());
    }
}

/// Lexicographic order is antisymmetric.
pub proof fn lemma_lex_antisymmetric(a: Seq<u8>, b: Seq<u8>)
    requires
        lex_le(a, b),
        lex_le(b, a),
    ensures
        a == b,
    decreases a.len(),
{
    if a.len() > 0 && b.len() > 0 {
        lemma_lex_antisymmetric(a.drop_first(), b.drop_first());
        assert(a =~= seq![a[0]] + a.drop_first());
        assert(b =~= seq![b[0]] + b.drop_first());
    }
}

/// Node hashing does not depend on the order of the two children.
pub proof fn lemma_node_hash_symmetric(a: Seq<u8>, b: Seq<u8>)
    ensures
        node_hash_of(a, b) == node_hash_of(b, a),
{
    lemma_lex_total(a, b);
    if lex_le(a, b) && lex_le(b, a) {
        lemma_lex_antisymmetric(a, b);
    }
    assert(node_preimage(a, b) == node_preimage(b, a));
}

} // verus!
