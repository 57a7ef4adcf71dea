//! The block header: a partial form as execution hands it over, and the
//! finalized form that carries the roots computed during assembly.

use vstd::prelude::*;

use crate::encoding::{
    append_bytes, pow256, rlp_encode_bytes, rlp_encode_u64, rlp_list, rlp_str, rlp_u64,
    rlp_wrap_in_list,
};
use crate::hashing::{keccak256, keccak256_spec};
use crate::types::B256;

verus! {

/// A header under construction: everything a finalized header holds except
/// the ommers root and the transactions root, which assembly computes.
///
/// The fields that block assembly neither reads nor writes (parent hash,
/// beneficiary, state root, gas fields, ...) are owned by the execution
/// layer; they are carried opaquely as `base_payload`, the concatenation of
/// their canonical (RLP) encodings in header order.
#[derive(Clone, Debug, PartialEq, Eq)]
pub struct PartialHeader {
    /// The block number.
    pub number: u64,
    /// The withdrawals root, if the caller or assembly has set one.
    pub withdrawals_root: Option<B256>,
    /// The encoded fields owned by the execution layer.
    pub base_payload: Vec<u8>,
}

impl PartialHeader {
    /// A withdrawals root already present on the partial header is a
    /// 256-bit digest.
    pub open spec fn wf(self) -> bool {
        match self.withdrawals_root {
            Some(root) => root.wf(),
            None => true,
        }
    }
}

/// A finalized header.
#[derive(Clone, Debug, PartialEq, Eq)]
pub struct Header {
    /// The block number.
    pub number: u64,
    /// The hash of the canonical encoding of the block's ommers.
    pub ommers_root: B256,
    /// The ordered-trie root of the block's encoded transactions.
    pub transactions_root: B256,
    /// The ordered-trie root of the block's encoded withdrawals, when the
    /// block has withdrawals.
    pub withdrawals_root: Option<B256>,
    /// The encoded fields owned by the execution layer.
    pub base_payload: Vec<u8>,
}

impl Header {
    /// The payload of the header's canonical encoding: the opaque base
    /// fields, then the two roots, the number, and the withdrawals root when
    /// present.
    pub open spec fn payload(self) -> Seq<u8> {
        self.base_payload@ + rlp_str(self.ommers_root@) + rlp_str(self.transactions_root@)
            + rlp_u64(self.number) + (match self.withdrawals_root {
            Some(root) => rlp_str(root@),
            None => Seq::empty(),
        })
    }

    /// The header's canonical encoding: its payload framed as an RLP list.
    pub open spec fn encoding(self) -> Seq<u8> {
        rlp_list(self.payload())
    }

    /// The header's hash: the keccak-256 digest of its canonical encoding.
    pub open spec fn hash_spec(self) -> Seq<u8> {
        keccak256_spec(self.encoding())
    }

    /// Finalizes a header from its partial form and the two computed roots.
    pub fn new(partial: PartialHeader, ommers_root: B256, transactions_root: B256) -> (r: Header)
        ensures
            r.number == partial.number,
            r.ommers_root == ommers_root,
            r.transactions_root == transactions_root,
            r.withdrawals_root == partial.withdrawals_root,
            r.base_payload == partial.base_payload,
    {
        Header {
            number: partial.number,
            ommers_root,
            transactions_root,
            withdrawals_root: partial.withdrawals_root,
            base_payload: partial.base_payload,
        }
    }

    /// The header's payload is short enough for the RLP writer, whose long
    /// length prefixes carry at most four bytes.
    pub open spec fn encodable(self) -> bool {
        self.payload().len() < pow256(4)
    }

    /// Produces the header's canonical encoding.
    pub fn encode(&self) -> (r: Vec<u8>)
        requires
            self.encodable(),
        ensures
            r@ == self.encoding(),
    {
        proof {
            assert(rlp_str(self.ommers_root@).len() >= self.ommers_root@.len());
            assert(rlp_str(self.transactions_root@).len() >= self.transactions_root@.len());
            if self.withdrawals_root is Some {
                assert(rlp_str(self.withdrawals_root->Some_0@).len()
                    >= self.withdrawals_root->Some_0@.len());
            }
        }
        let mut payload: Vec<u8> = Vec::new();
        append_bytes(&mut payload, &self.base_payload);
        let ommers_root_enc = rlp_encode_bytes(&self.ommers_root.bytes);
        append_bytes(&mut payload, &ommers_root_enc);
        let transactions_root_enc = rlp_encode_bytes(&self.transactions_root.bytes);
        append_bytes(&mut payload, &transactions_root_enc);
        let number_enc = rlp_encode_u64(self.number);
        append_bytes(&mut payload, &number_enc);
        match &self.withdrawals_root {
            Some(root) => {
                let root_enc = rlp_encode_bytes(&root.bytes);
                append_bytes(&mut payload, &root_enc);
            },
            None => {},
        }
        proof {
            assert(payload@ =~= self.payload());
        }
        rlp_wrap_in_list(&payload)
    }

    /// Derives the header's hash from its canonical encoding.
    pub fn hash(&self) -> (r: B256)
        requires
            self.encodable(),
        ensures
            r@ == self.hash_spec(),
            r.wf(),
    {
        let encoded = self.encode();
        keccak256(&encoded)
    }
}

} // verus!
