//! The two cryptographic collaborators of block assembly: the keccak-256
//! digest and the ordered Merkle-trie root. Both are pure functions of their
//! input bytes; their values are named, not restated.

use vstd::prelude::*;

use crate::encoding::byte_views;
use crate::types::B256;

verus! {

/// The keccak-256 digest of a byte string.
pub uninterp spec fn keccak256_spec(bytes: Seq<u8>) -> Seq<u8>;

/// The root of the ordered Merkle trie built over a sequence of encoded
/// items, item `i` keyed by its position.
pub uninterp spec fn trie_root_spec(items: Seq<Seq<u8>>) -> Seq<u8>;

/// Relies on `revm::primitives::keccak256`: the 32-byte digest depends on
/// the input bytes alone.
#[verifier::external_body]
pub fn keccak256(data: &Vec<u8>) -> (r: B256)
    ensures
        r@ == keccak256_spec(data@),
        r.wf(),
{
    B256 { bytes: revm::primitives::keccak256(data.as_slice()).to_vec() }
}

/// Relies on `triehash::ordered_trie_root` with the keccak-256 hasher of
/// `keccak_hasher`: the 32-byte root depends on the item sequence alone.
#[verifier::external_body]
pub fn ordered_trie_root(items: &Vec<Vec<u8>>) -> (r: B256)
    ensures
        r@ == trie_root_spec(byte_views(items@)),
        r.wf(),
{
    let root = triehash::ordered_trie_root::<keccak_hasher::KeccakHasher, _>(items);
    B256 { bytes: root.to_vec() }
}

} // verus!
