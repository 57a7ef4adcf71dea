//! The locally mined block: assembly, the read-only view, and the canonical
//! wire form.

use std::sync::Arc;

use vstd::prelude::*;

use crate::encoding::{append_bytes, byte_views, concat_encodings, copy_bytes, encode_as_list,
    lemma_concat_element_len, lemma_rlp_list_injective, lemma_rlp_list_prefix_free,
    lemma_rlp_u64_len, pow256, rlp_list, rlp_list_of, rlp_str, rlp_wrap_in_list};
use crate::hashing::{keccak256, keccak256_spec, ordered_trie_root, trie_root_spec};
use crate::header::{Header, PartialHeader};
use crate::receipt::{flat_log_indices, lemma_enriched_bound, lemma_log_indices_contiguous,
    logs_before, receipt_bound_to_block, receipt_enriched, transaction_to_block_receipts,
    BlockReceipt, TransactionReceipt};
use crate::types::{Address, SignedTransaction, Withdrawal, B256};

verus! {

/// The canonical encoding of each transaction, in block order.
pub open spec fn tx_encodings(transactions: Seq<SignedTransaction>) -> Seq<Seq<u8>> {
    transactions.map_values(|t: SignedTransaction| t@)
}

/// The canonical encoding of each header, in order.
pub open spec fn header_encodings(headers: Seq<Header>) -> Seq<Seq<u8>> {
    headers.map_values(|h: Header| h.encoding())
}

/// The canonical encoding of each withdrawal, in order.
pub open spec fn withdrawal_encodings(withdrawals: Seq<Withdrawal>) -> Seq<Seq<u8>> {
    withdrawals.map_values(|w: Withdrawal| w@)
}

/// A transaction of an assembled block together with its caller and its
/// block-scoped receipt, borrowed from the block at one position.
pub struct DetailedTransaction<'a> {
    /// The signed transaction.
    pub transaction: &'a SignedTransaction,
    /// The address the transaction was sent from.
    pub caller: &'a Address,
    /// The transaction's block-scoped receipt.
    pub receipt: &'a Arc<BlockReceipt>,
}

/// `s` zips the block's transactions, callers and receipts positionally.
pub open spec fn zips_block<'a>(b: LocalBlock, s: Seq<DetailedTransaction<'a>>) -> bool {
    &&& s.len() == b.spec_transactions().len()
    &&& forall|i: int|
        0 <= i < s.len() ==> {
            &&& (#[trigger] s[i]).transaction == b.spec_transactions()[i]
            &&& s[i].caller == b.spec_transaction_callers()[i]
            &&& *s[i].receipt == b.spec_transaction_receipts()[i]
        }
}

/// A locally mined block: immutable once assembled, with its header roots,
/// its hash and its receipts all derived from its contents.
#[derive(Clone, Debug, PartialEq, Eq)]
pub struct LocalBlock {
    header: Header,
    transactions: Vec<SignedTransaction>,
    transaction_callers: Vec<Address>,
    transaction_receipts: Vec<Arc<BlockReceipt>>,
    ommers: Vec<Header>,
    ommer_hashes: Vec<B256>,
    withdrawals: Option<Vec<Withdrawal>>,
    hash: B256,
}

impl LocalBlock {
    /// The finalized header.
    pub closed spec fn spec_header(self) -> Header {
        self.header
    }

    /// The block's transactions, in order.
    pub closed spec fn spec_transactions(self) -> Seq<SignedTransaction> {
        self.transactions@
    }

    /// The caller of each transaction, positionally aligned.
    pub closed spec fn spec_transaction_callers(self) -> Seq<Address> {
        self.transaction_callers@
    }

    /// The block-scoped receipt of each transaction, positionally aligned.
    pub closed spec fn spec_transaction_receipts(self) -> Seq<BlockReceipt> {
        self.transaction_receipts@.map_values(|r: Arc<BlockReceipt>| *r)
    }

    /// The block's ommer headers.
    pub closed spec fn spec_ommers(self) -> Seq<Header> {
        self.ommers@
    }

    /// The hash of each ommer, positionally aligned.
    pub closed spec fn spec_ommer_hashes(self) -> Seq<B256> {
        self.ommer_hashes@
    }

    /// The block's withdrawals, when it has any.
    pub closed spec fn spec_withdrawals(self) -> Option<Seq<Withdrawal>> {
        match self.withdrawals {
            Some(ws) => Some(ws@),
            None => None,
        }
    }

    /// The block's hash.
    pub closed spec fn spec_hash(self) -> B256 {
        self.hash
    }

    /// What assembly guarantees of every block it returns: parallel
    /// sequences, roots derived from the contents, the hash derived from the
    /// finalized header, and receipts carrying consistent block context and
    /// contiguous block-wide log indices.
    pub open spec fn wf(self) -> bool {
        &&& self.spec_transactions().len() == self.spec_transaction_callers().len()
        &&& self.spec_transactions().len() == self.spec_transaction_receipts().len()
        &&& self.spec_ommer_hashes().len() == self.spec_ommers().len()
        &&& forall|i: int|
            0 <= i < self.spec_ommers().len() ==> ((#[trigger] self.spec_ommer_hashes()[i])@
                == self.spec_ommers()[i].hash_spec() && self.spec_ommer_hashes()[i].wf())
        &&& self.spec_header().ommers_root@ == keccak256_spec(
            rlp_list_of(header_encodings(self.spec_ommers())),
        )
        &&& self.spec_header().transactions_root@ == trie_root_spec(
            tx_encodings(self.spec_transactions()),
        )
        &&& match self.spec_withdrawals() {
            Some(ws) => match self.spec_header().withdrawals_root {
                Some(root) => root@ == trie_root_spec(withdrawal_encodings(ws)),
                None => false,
            },
            None => true,
        }
        &&& self.spec_hash().wf()
        &&& self.spec_hash()@ == self.spec_header().hash_spec()
        &&& forall|i: int|
            0 <= i < self.spec_transaction_receipts().len() ==> receipt_bound_to_block(
                #[trigger] self.spec_transaction_receipts()[i],
                self.spec_hash()@,
                self.spec_header().number,
                i as u64,
            )
        &&& flat_log_indices(self.spec_transaction_receipts()) == Seq::new(
            flat_log_indices(self.spec_transaction_receipts()).len(),
            |k: int| k as u64,
        )
    }

    /// Assembles a block: computes the ommer hashes and the three roots,
    /// finalizes the header, derives the block hash from it, and enriches
    /// the receipts with block context.
    pub fn new(
        partial_header: PartialHeader,
        transactions: Vec<SignedTransaction>,
        transaction_callers: Vec<Address>,
        transaction_receipts: Vec<TransactionReceipt>,
        ommers: Vec<Header>,
        withdrawals: Option<Vec<Withdrawal>>,
    ) -> (r: LocalBlock)
        requires
            transactions@.len() == transaction_callers@.len(),
            transactions@.len() == transaction_receipts@.len(),
            transaction_receipts@.len() <= u64::MAX,
            logs_before(transaction_receipts@, transaction_receipts@.len() as int) <= u64::MAX,
            partial_header.wf(),
            partial_header.base_payload@.len() + 108 < pow256(4),
            forall|i: int| 0 <= i < ommers@.len() ==> (#[trigger] ommers@[i]).encodable(),
            concat_encodings(header_encodings(ommers@)).len() < pow256(4),
        ensures
            r.wf(),
            r.spec_transactions() == transactions@,
            r.spec_transaction_callers() == transaction_callers@,
            r.spec_ommers() == ommers@,
            r.spec_withdrawals() == (match withdrawals {
                Some(ws) => Some(ws@),
                None => None::<Seq<Withdrawal>>,
            }),
            r.spec_header().number == partial_header.number,
            r.spec_header().base_payload == partial_header.base_payload,
            withdrawals is None ==> r.spec_header().withdrawals_root
                == partial_header.withdrawals_root,
            r.spec_transaction_receipts().len() == transaction_receipts@.len(),
            forall|i: int|
                0 <= i < transaction_receipts@.len() ==> receipt_enriched(
                    transaction_receipts@[i],
                    #[trigger] r.spec_transaction_receipts()[i],
                    r.spec_hash()@,
                    partial_header.number,
                    logs_before(transaction_receipts@, i),
                    i as u64,
                ),
    {
        let mut partial_header = partial_header;

        let mut ommer_hashes: Vec<B256> = Vec::new();
        let mut i: usize = 0;
        while i < ommers.len()
            invariant
                i <= ommers@.len(),
                ommer_hashes@.len() == i,
                forall|k: int| 0 <= k < ommers@.len() ==> (#[trigger] ommers@[k]).encodable(),
                forall|k: int|
                    0 <= k < i ==> ((#[trigger] ommer_hashes@[k])@ == ommers@[k].hash_spec()
                        && ommer_hashes@[k].wf()),
            decreases ommers@.len() - i,
        {
            ommer_hashes.push(ommers[i].hash());
            i = i + 1;
        }

        let mut ommer_encodings: Vec<Vec<u8>> = Vec::new();
        let mut i: usize = 0;
        while i < ommers.len()
            invariant
                i <= ommers@.len(),
                ommer_encodings@.len() == i,
                forall|k: int| 0 <= k < ommers@.len() ==> (#[trigger] ommers@[k]).encodable(),
                byte_views(ommer_encodings@) == header_encodings(ommers@).take(i as int),
            decreases ommers@.len() - i,
        {
            ommer_encodings.push(ommers[i].encode());
            proof {
                assert(byte_views(ommer_encodings@) =~= header_encodings(ommers@).take(i + 1));
            }
            i = i + 1;
        }
        proof {
            assert(header_encodings(ommers@).take(ommers@.len() as int) =~= header_encodings(
                ommers@,
            ));
        }
        let ommers_encoded = encode_as_list(&ommer_encodings);
        let ommers_root = keccak256(&ommers_encoded);

        let mut tx_encodings_vec: Vec<Vec<u8>> = Vec::new();
        let mut i: usize = 0;
        while i < transactions.len()
            invariant
                i <= transactions@.len(),
                tx_encodings_vec@.len() == i,
                byte_views(tx_encodings_vec@) == tx_encodings(transactions@).take(i as int),
            decreases transactions@.len() - i,
        {
            tx_encodings_vec.push(copy_bytes(&transactions[i].rlp_encoding));
            proof {
                assert(byte_views(tx_encodings_vec@) =~= tx_encodings(transactions@).take(i + 1));
            }
            i = i + 1;
        }
        proof {
            assert(tx_encodings(transactions@).take(transactions@.len() as int) =~= tx_encodings(
                transactions@,
            ));
        }
        let transactions_root = ordered_trie_root(&tx_encodings_vec);

        match &withdrawals {
            Some(ws) => {
                let mut withdrawal_encodings_vec: Vec<Vec<u8>> = Vec::new();
                let mut i: usize = 0;
                while i < ws.len()
                    invariant
                        i <= ws@.len(),
                        withdrawal_encodings_vec@.len() == i,
                        byte_views(withdrawal_encodings_vec@) == withdrawal_encodings(
                            ws@,
                        ).take(i as int),
                    decreases ws@.len() - i,
                {
                    withdrawal_encodings_vec.push(copy_bytes(&ws[i].rlp_encoding));
                    proof {
                        assert(byte_views(withdrawal_encodings_vec@) =~= withdrawal_encodings(
                            ws@,
                        ).take(i + 1));
                    }
                    i = i + 1;
                }
                proof {
                    assert(withdrawal_encodings(ws@).take(ws@.len() as int) =~= withdrawal_encodings(
                        ws@,
                    ));
                }
                partial_header.withdrawals_root = Some(ordered_trie_root(&withdrawal_encodings_vec));
            },
            None => {},
        }

        let header = Header::new(partial_header, ommers_root, transactions_root);
        proof {
            lemma_rlp_u64_len(header.number);
            assert(rlp_str(header.ommers_root@).len() == 33);
            assert(rlp_str(header.transactions_root@).len() == 33);
            if header.withdrawals_root is Some {
                assert(header.withdrawals_root->Some_0.wf());
                assert(rlp_str(header.withdrawals_root->Some_0@).len() == 33);
            }
        }
        let hash = header.hash();
        let block_number = header.number;
        let enriched = transaction_to_block_receipts(&hash, block_number, transaction_receipts);

        let r = LocalBlock {
            header,
            transactions,
            transaction_callers,
            transaction_receipts: enriched,
            ommers,
            ommer_hashes,
            withdrawals,
            hash,
        };
        proof {
            let raw = transaction_receipts@;
            let receipts = r.spec_transaction_receipts();
            assert forall|i: int| 0 <= i < raw.len() implies receipt_enriched(
                raw[i],
                #[trigger] receipts[i],
                r.spec_hash()@,
                block_number,
                logs_before(raw, i),
                i as u64,
            ) by {
                assert(receipts[i] == *enriched@[i]);
            }
            assert forall|i: int| 0 <= i < receipts.len() implies receipt_bound_to_block(
                #[trigger] receipts[i],
                r.spec_hash()@,
                r.spec_header().number,
                i as u64,
            ) by {
                lemma_enriched_bound(
                    raw[i],
                    receipts[i],
                    r.spec_hash()@,
                    block_number,
                    logs_before(raw, i),
                    i as u64,
                );
            }
            lemma_log_indices_contiguous(raw, receipts, r.spec_hash()@, block_number);
        }
        r
    }

    /// Assembles an empty block: no transactions, no ommers, no withdrawals.
    pub fn empty(partial_header: PartialHeader) -> (r: LocalBlock)
        requires
            partial_header.wf(),
            partial_header.base_payload@.len() + 108 < pow256(4),
        ensures
            r.wf(),
            r.spec_transactions().len() == 0,
            r.spec_transaction_callers().len() == 0,
            r.spec_transaction_receipts().len() == 0,
            r.spec_ommers().len() == 0,
            r.spec_ommer_hashes().len() == 0,
            r.spec_withdrawals() is None,
            r.spec_header().number == partial_header.number,
            r.spec_header().base_payload == partial_header.base_payload,
            r.spec_header().withdrawals_root == partial_header.withdrawals_root,
            r.spec_header().transactions_root@ == trie_root_spec(Seq::empty()),
            r.spec_header().ommers_root@ == keccak256_spec(rlp_list(Seq::empty())),
    {
        proof {
            assert(header_encodings(Seq::empty()) =~= Seq::<Seq<u8>>::empty());
            assert(concat_encodings(Seq::<Seq<u8>>::empty()) =~= Seq::<u8>::empty());
        }
        let r = LocalBlock::new(partial_header, Vec::new(), Vec::new(), Vec::new(), Vec::new(), None);
        proof {
            assert(tx_encodings(Seq::empty()) =~= Seq::<Seq<u8>>::empty());
            assert(header_encodings(Seq::empty()) =~= Seq::<Seq<u8>>::empty());
        }
        r
    }

    /// The block's hash, derived once from the finalized header.
    pub fn hash(&self) -> (r: &B256)
        ensures
            *r == self.spec_hash(),
    {
        &self.hash
    }

    /// The finalized header.
    pub fn header(&self) -> (r: &Header)
        ensures
            *r == self.spec_header(),
    {
        &self.header
    }

    /// The block's transactions.
    pub fn transactions(&self) -> (r: &[SignedTransaction])
        ensures
            r@ == self.spec_transactions(),
    {
        self.transactions.as_slice()
    }

    /// The caller of each transaction.
    pub fn transaction_callers(&self) -> (r: &[Address])
        ensures
            r@ == self.spec_transaction_callers(),
    {
        self.transaction_callers.as_slice()
    }

    /// The receipts of the block's transactions.
    pub fn transaction_receipts(&self) -> (r: &[Arc<BlockReceipt>])
        ensures
            r@.len() == self.spec_transaction_receipts().len(),
            forall|i: int|
                0 <= i < r@.len() ==> *(#[trigger] r@[i]) == self.spec_transaction_receipts()[i],
    {
        self.transaction_receipts.as_slice()
    }

    /// A cloned sequence of the block's receipt handles: each clone is a new
    /// shared handle to the same receipt, not a copy of it.
    pub fn transaction_receipts_shared(&self) -> (r: Vec<Arc<BlockReceipt>>)
        ensures
            r@.len() == self.spec_transaction_receipts().len(),
            forall|i: int|
                0 <= i < r@.len() ==> *(#[trigger] r@[i]) == self.spec_transaction_receipts()[i],
    {
        let mut r: Vec<Arc<BlockReceipt>> = Vec::new();
        let mut i: usize = 0;
        while i < self.transaction_receipts.len()
            invariant
                i <= self.transaction_receipts@.len(),
                r@.len() == i,
                forall|k: int|
                    0 <= k < i ==> *(#[trigger] r@[k]) == self.spec_transaction_receipts()[k],
            decreases self.transaction_receipts@.len() - i,
        {
            r.push(clone_receipt_handle(&self.transaction_receipts[i]));
            i = i + 1;
        }
        r
    }

    /// The hash of each ommer.
    pub fn ommer_hashes(&self) -> (r: &[B256])
        ensures
            r@ == self.spec_ommer_hashes(),
    {
        self.ommer_hashes.as_slice()
    }

    /// The block's withdrawals, when it has any.
    pub fn withdrawals(&self) -> (r: Option<&[Withdrawal]>)
        ensures
            match self.spec_withdrawals() {
                Some(ws) => r matches Some(s) && s@ == ws,
                None => r is None,
            },
    {
        match &self.withdrawals {
            Some(ws) => Some(ws.as_slice()),
            None => None,
        }
    }

    /// The payload of the block's wire form: the encoded header, the
    /// transaction list, the ommer list, and the withdrawal list only when
    /// the block has withdrawals.
    pub open spec fn wire_payload(self) -> Seq<u8> {
        self.spec_header().encoding() + rlp_list_of(tx_encodings(self.spec_transactions()))
            + rlp_list_of(header_encodings(self.spec_ommers())) + (match self.spec_withdrawals() {
            Some(ws) => rlp_list_of(withdrawal_encodings(ws)),
            None => Seq::empty(),
        })
    }

    /// The block's canonical wire form: a list of three elements, or of four
    /// when the block has withdrawals.
    pub open spec fn wire_encoding(self) -> Seq<u8> {
        rlp_list(self.wire_payload())
    }

    /// Every payload handed to the RLP writer while encoding this block is
    /// short enough for its four length-prefix bytes.
    pub open spec fn encodable(self) -> bool {
        &&& self.spec_header().payload().len() < pow256(4)
        &&& concat_encodings(tx_encodings(self.spec_transactions())).len() < pow256(4)
        &&& concat_encodings(header_encodings(self.spec_ommers())).len() < pow256(4)
        &&& match self.spec_withdrawals() {
            Some(ws) => concat_encodings(withdrawal_encodings(ws)).len() < pow256(4),
            None => true,
        }
        &&& self.wire_payload().len() < pow256(4)
    }

    /// Produces the block's canonical wire form.
    pub fn rlp_encode(&self) -> (r: Vec<u8>)
        requires
            self.encodable(),
        ensures
            r@ == self.wire_encoding(),
    {
        let mut payload = self.header.encode();

        let mut tx_encodings_vec: Vec<Vec<u8>> = Vec::new();
        let mut i: usize = 0;
        while i < self.transactions.len()
            invariant
                i <= self.transactions@.len(),
                tx_encodings_vec@.len() == i,
                byte_views(tx_encodings_vec@) == tx_encodings(self.transactions@).take(i as int),
            decreases self.transactions@.len() - i,
        {
            tx_encodings_vec.push(copy_bytes(&self.transactions[i].rlp_encoding));
            proof {
                assert(byte_views(tx_encodings_vec@) =~= tx_encodings(self.transactions@).take(
                    i + 1,
                ));
            }
            i = i + 1;
        }
        proof {
            assert(tx_encodings(self.transactions@).take(self.transactions@.len() as int)
                =~= tx_encodings(self.transactions@));
        }
        let tx_list = encode_as_list(&tx_encodings_vec);
        append_bytes(&mut payload, &tx_list);

        let mut ommer_encodings: Vec<Vec<u8>> = Vec::new();
        let mut i: usize = 0;
        while i < self.ommers.len()
            invariant
                i <= self.ommers@.len(),
                ommer_encodings@.len() == i,
                self.encodable(),
                byte_views(ommer_encodings@) == header_encodings(self.ommers@).take(i as int),
            decreases self.ommers@.len() - i,
        {
            proof {
                lemma_concat_element_len(header_encodings(self.ommers@), i as int);
                assert(header_encodings(self.ommers@)[i as int]
                    == self.ommers@[i as int].encoding());
                assert(self.ommers@[i as int].encoding().len()
                    >= self.ommers@[i as int].payload().len());
            }
            ommer_encodings.push(self.ommers[i].encode());
            proof {
                assert(byte_views(ommer_encodings@) =~= header_encodings(self.ommers@).take(i + 1));
            }
            i = i + 1;
        }
        proof {
            assert(header_encodings(self.ommers@).take(self.ommers@.len() as int)
                =~= header_encodings(self.ommers@));
        }
        let ommer_list = encode_as_list(&ommer_encodings);
        append_bytes(&mut payload, &ommer_list);

        match &self.withdrawals {
            Some(ws) => {
                let mut withdrawal_encodings_vec: Vec<Vec<u8>> = Vec::new();
                let mut i: usize = 0;
                while i < ws.len()
                    invariant
                        i <= ws@.len(),
                        withdrawal_encodings_vec@.len() == i,
                        byte_views(withdrawal_encodings_vec@) == withdrawal_encodings(
                            ws@,
                        ).take(i as int),
                    decreases ws@.len() - i,
                {
                    withdrawal_encodings_vec.push(copy_bytes(&ws[i].rlp_encoding));
                    proof {
                        assert(byte_views(withdrawal_encodings_vec@) =~= withdrawal_encodings(
                            ws@,
                        ).take(i + 1));
                    }
                    i = i + 1;
                }
                proof {
                    assert(withdrawal_encodings(ws@).take(ws@.len() as int) =~= withdrawal_encodings(
                        ws@,
                    ));
                }
                let withdrawal_list = encode_as_list(&withdrawal_encodings_vec);
                append_bytes(&mut payload, &withdrawal_list);
            },
            None => {},
        }
        proof {
            assert(payload@ =~= self.wire_payload());
        }
        rlp_wrap_in_list(&payload)
    }

    /// The byte length of the block's canonical wire form, computed on
    /// demand.
    pub fn rlp_size(&self) -> (r: u64)
        requires
            self.encodable(),
        ensures
            r == self.wire_encoding().len(),
    {
        let encoded = self.rlp_encode();
        encoded.len() as u64
    }

    /// Zips the block's transactions, callers and receipts positionally into
    /// detail views; each call produces a fresh sequence over the unchanged
    /// block.
    pub fn detailed_transactions(&self) -> (r: Vec<DetailedTransaction<'_>>)
        requires
            self.spec_transactions().len() == self.spec_transaction_callers().len(),
            self.spec_transactions().len() == self.spec_transaction_receipts().len(),
        ensures
            zips_block(*self, r@),
    {
        let mut r: Vec<DetailedTransaction<'_>> = Vec::new();
        let mut i: usize = 0;
        while i < self.transactions.len()
            invariant
                i <= self.transactions@.len(),
                self.transactions@.len() == self.transaction_callers@.len(),
                self.transactions@.len() == self.transaction_receipts@.len(),
                r@.len() == i,
                forall|k: int|
                    0 <= k < i ==> {
                        &&& (#[trigger] r@[k]).transaction == self.spec_transactions()[k]
                        &&& r@[k].caller == self.spec_transaction_callers()[k]
                        &&& *r@[k].receipt == self.spec_transaction_receipts()[k]
                    },
            decreases self.transactions@.len() - i,
        {
            r.push(DetailedTransaction {
                transaction: &self.transactions[i],
                caller: &self.transaction_callers[i],
                receipt: &self.transaction_receipts[i],
            });
            i = i + 1;
        }
        r
    }
}

/// Relies on `Arc::clone`: the clone is a new handle to the same receipt.
#[verifier::external_body]
fn clone_receipt_handle(r: &Arc<BlockReceipt>) -> (c: Arc<BlockReceipt>)
    ensures
        *c == **r,
{
    Arc::clone(r)
}

/// The hash of every assembled block is the hash its finalized header
/// derives on its own.
pub proof fn lemma_hash_is_header_hash(b: LocalBlock)
    requires
        b.wf(),
    ensures
        b.spec_hash()@ == b.spec_header().hash_spec(),
{
}

/// Across all receipts of an assembled block, the flattened log indices are
/// exactly `0, 1, ..., total log count - 1`.
pub proof fn lemma_block_log_indices_contiguous(b: LocalBlock)
    requires
        b.wf(),
    ensures
        flat_log_indices(b.spec_transaction_receipts()) == Seq::new(
            flat_log_indices(b.spec_transaction_receipts()).len(),
            |k: int| k as u64,
        ),
{
}

/// No log of an assembled block is marked removed.
pub proof fn lemma_no_log_removed(b: LocalBlock)
    requires
        b.wf(),
    ensures
        forall|i: int, j: int|
            0 <= i < b.spec_transaction_receipts().len() && 0 <= j
                < b.spec_transaction_receipts()[i].logs@.len() ==> (#[trigger] b.spec_transaction_receipts()[i].logs@[j]).removed
                == false,
{
    assert forall|i: int, j: int|
        0 <= i < b.spec_transaction_receipts().len() && 0 <= j
            < b.spec_transaction_receipts()[i].logs@.len() implies (#[trigger] b.spec_transaction_receipts()[i].logs@[j]).removed
        == false by {
        assert(receipt_bound_to_block(
            b.spec_transaction_receipts()[i],
            b.spec_hash()@,
            b.spec_header().number,
            i as u64,
        ));
    }
}

/// Every payload that contributes to the block's wire form fits in eight
/// length bytes; true of every block a machine can hold.
pub open spec fn bounded_wire(b: LocalBlock) -> bool {
    &&& b.wire_payload().len() < pow256(8)
    &&& b.spec_header().payload().len() < pow256(8)
    &&& concat_encodings(tx_encodings(b.spec_transactions())).len() < pow256(8)
    &&& concat_encodings(header_encodings(b.spec_ommers())).len() < pow256(8)
    &&& match b.spec_withdrawals() {
        Some(ws) => concat_encodings(withdrawal_encodings(ws)).len() < pow256(8),
        None => true,
    }
}

/// The wire form is structurally invertible: two blocks with the same wire
/// form agree on the encoded header, the encoded transaction list, the
/// encoded ommer list, the presence of withdrawals, and the encoded
/// withdrawal list. Each element of the wire form carries its own length,
/// so a matching decoder can cut the four elements back out.
#[verifier::rlimit(100)]
pub proof fn lemma_wire_encoding_round_trip(b1: LocalBlock, b2: LocalBlock)
    requires
        b1.wire_encoding() == b2.wire_encoding(),
        bounded_wire(b1),
        bounded_wire(b2),
    ensures
        b1.spec_header().encoding() == b2.spec_header().encoding(),
        concat_encodings(tx_encodings(b1.spec_transactions())) == concat_encodings(
            tx_encodings(b2.spec_transactions()),
        ),
        concat_encodings(header_encodings(b1.spec_ommers())) == concat_encodings(
            header_encodings(b2.spec_ommers()),
        ),
        (b1.spec_withdrawals() is Some) == (b2.spec_withdrawals() is Some),
        b1.spec_withdrawals() matches Some(w1) ==> (b2.spec_withdrawals() matches Some(w2)
            && concat_encodings(withdrawal_encodings(w1)) == concat_encodings(
            withdrawal_encodings(w2),
        )),
{
    let header_payload_1 = b1.spec_header().payload();
    let header_payload_2 = b2.spec_header().payload();
    let txs_1 = concat_encodings(tx_encodings(b1.spec_transactions()));
    let txs_2 = concat_encodings(tx_encodings(b2.spec_transactions()));
    let ommers_1 = concat_encodings(header_encodings(b1.spec_ommers()));
    let ommers_2 = concat_encodings(header_encodings(b2.spec_ommers()));
    let tail_1 = match b1.spec_withdrawals() {
        Some(ws) => rlp_list(concat_encodings(withdrawal_encodings(ws))),
        None => Seq::<u8>::empty(),
    };
    let tail_2 = match b2.spec_withdrawals() {
        Some(ws) => rlp_list(concat_encodings(withdrawal_encodings(ws))),
        None => Seq::<u8>::empty(),
    };

    lemma_rlp_list_injective(b1.wire_payload(), b2.wire_payload());

    assert(b1.wire_payload() =~= rlp_list(header_payload_1) + (rlp_list(txs_1) + (rlp_list(
        ommers_1,
    ) + tail_1)));
    assert(b2.wire_payload() =~= rlp_list(header_payload_2) + (rlp_list(txs_2) + (rlp_list(
        ommers_2,
    ) + tail_2)));
    lemma_rlp_list_prefix_free(
        header_payload_1,
        rlp_list(txs_1) + (rlp_list(ommers_1) + tail_1),
        header_payload_2,
        rlp_list(txs_2) + (rlp_list(ommers_2) + tail_2),
    );
    lemma_rlp_list_prefix_free(
        txs_1,
        rlp_list(ommers_1) + tail_1,
        txs_2,
        rlp_list(ommers_2) + tail_2,
    );
    lemma_rlp_list_prefix_free(ommers_1, tail_1, ommers_2, tail_2);

    match b1.spec_withdrawals() {
        Some(w1) => {
            assert(tail_1.len() >= 1);
            match b2.spec_withdrawals() {
                Some(w2) => {
                    lemma_rlp_list_injective(
                        concat_encodings(withdrawal_encodings(w1)),
                        concat_encodings(withdrawal_encodings(w2)),
                    );
                },
                None => {
                    assert(tail_2.len() == 0);
                    assert(false);
                },
            }
        },
        None => {
            assert(tail_1.len() == 0);
            match b2.spec_withdrawals() {
                Some(_) => {
                    assert(tail_2.len() >= 1);
                    assert(false);
                },
                None => {},
            }
        },
    }
}

/// Two detail-view sequences of the same block have identical content: the
/// view is restartable and reads only the immutable block.
pub proof fn lemma_detailed_transactions_restartable<'a>(
    b: LocalBlock,
    first: Seq<DetailedTransaction<'a>>,
    second: Seq<DetailedTransaction<'a>>,
)
    requires
        zips_block(b, first),
        zips_block(b, second),
    ensures
        first == second,
{
    assert forall|i: int| 0 <= i < first.len() implies first[i] == second[i] by {
        assert(first[i].transaction == second[i].transaction);
        assert(first[i].caller == second[i].caller);
        assert(*first[i].receipt == *second[i].receipt);
    }
    assert(first =~= second);
}

} // verus!
