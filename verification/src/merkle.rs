//! Merkle membership proofs over binary BLAKE2b hash trees. A proof is
//! the ordered list of sibling hashes from the leaf up; the leaf's index
//! says, level by level, whether the running hash is the left or the
//! right child.

use vstd::prelude::*;
use crate::hashing::{blake2_256, blake2_256_of};

verus! {

/// The root obtained by folding `proof` over `leaf_hash`, with `index`
/// giving the leaf's position: at each level the running hash is the left
/// child when the index is even, the right child when it is odd.
pub open spec fn spec_merkle_fold(leaf_hash: Seq<u8>, proof: Seq<Seq<u8>>, index: nat) -> Seq<u8>
    decreases proof.len(),
{
    if proof.len() == 0 {
        leaf_hash
    } else {
        let combined = if index % 2 == 0 {
            leaf_hash + proof.first()
        } else {
            proof.first() + leaf_hash
        };
        spec_merkle_fold(blake2_256_of(combined), proof.drop_first(), index / 2)
    }
}

/// The hashes of a proof slice, as byte strings.
pub open spec fn spec_proof_seq(proof: Seq<[u8; 32]>) -> Seq<Seq<u8>> {
    proof.map_values(|p: [u8; 32]| p@)
}

/// Compare two 32-byte hashes.
pub fn hash32_eq(a: &[u8; 32], b: &[u8; 32]) -> (r: bool)
    ensures
        r == (a@ == b@),
{
    let mut i: usize = 0;
    while i < 32
        invariant
            i <= 32,
            forall|j: int| 0 <= j < i ==> a@[j] == b@[j],
        decreases 32 - i,
    {
        if a[i] != b[i] {
            return false;
        }
        i = i + 1;
    }
    proof {
        assert(a@ =~= b@);
    }
    true
}

/// Concatenate two 32-byte hashes.
fn concat32(left: &[u8; 32], right: &[u8; 32]) -> (r: Vec<u8>)
    ensures
        r@ == left@ + right@,
{
    let mut r: Vec<u8> = Vec::new();
    r.extend_from_slice(left.as_slice());
    r.extend_from_slice(right.as_slice());
    proof {
        assert(r@ =~= left@ + right@);
    }
    r
}

/// Check a Merkle membership proof against `root` when the leaf's hash is
/// already computed. Returns whether folding the proof over the leaf hash
/// reproduces the root — and nothing else decides the outcome.
pub fn verify_merkle_proof_hashed(
    root: [u8; 32],
    leaf_hash: [u8; 32],
    proof: &[[u8; 32]],
    index: u32,
) -> (r: bool)
    ensures
        r == (spec_merkle_fold(leaf_hash@, spec_proof_seq(proof@), index as nat) == root@),
{
    let ghost full = spec_proof_seq(proof@);
    proof {
        assert(full.skip(0) =~= full);
    }
    let mut computed: [u8; 32] = leaf_hash;
    let mut current_index: u32 = index;
    let n = proof.len();
    let mut i: usize = 0;
    while i < n
        invariant
            i <= n,
            n == proof@.len(),
            full == spec_proof_seq(proof@),
            spec_merkle_fold(computed@, full.skip(i as int), current_index as nat)
                == spec_merkle_fold(leaf_hash@, full, index as nat),
        decreases n - i,
    {
        let ghost pre = computed@;
        let ghost pre_index = current_index as nat;
        let sibling = vstd::slice::slice_index_get(proof, i);
        let combined = if current_index % 2 == 0 {
            concat32(&computed, sibling)
        } else {
            concat32(sibling, &computed)
        };
        computed = blake2_256(combined.as_slice());
        current_index = current_index / 2;
        i = i + 1;
        proof {
            let rest = full.skip(i as int - 1);
            assert(rest.first() == full[i as int - 1]);
            assert(rest.drop_first() =~= full.skip(i as int));
            assert(full[i as int - 1] == proof@[i as int - 1]@);
            assert(combined@ == if pre_index % 2 == 0 {
                pre + rest.first()
            } else {
                rest.first() + pre
            });
            assert(current_index as nat == pre_index / 2);
            assert(spec_merkle_fold(pre, rest, pre_index)
                == spec_merkle_fold(computed@, full.skip(i as int), current_index as nat));
        }
    }
    proof {
        assert(full.skip(n as int) =~= Seq::<Seq<u8>>::empty());
    }
    hash32_eq(&computed, &root)
}

/// Check a Merkle membership proof for a raw leaf: the leaf is hashed
/// first, then folded as in [`verify_merkle_proof_hashed`].
pub fn verify_merkle_proof(root: [u8; 32], leaf: &[u8], proof: &[[u8; 32]], index: u32) -> (r:
    bool)
    ensures
        r == (spec_merkle_fold(blake2_256_of(leaf@), spec_proof_seq(proof@), index as nat)
            == root@),
{
    let leaf_hash = blake2_256(leaf);
    verify_merkle_proof_hashed(root, leaf_hash, proof, index)
}

} // verus!
