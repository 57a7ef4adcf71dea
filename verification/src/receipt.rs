//! Receipts, logs, and the enrichment that turns transaction-scoped receipts
//! into block-scoped receipts with globally consistent indices.

use std::sync::Arc;

use vstd::prelude::*;

use crate::types::{Address, B256};

verus! {

/// A log as a transaction emitted it: address, topics and data, with no
/// block context yet.
#[derive(Clone, Debug, PartialEq, Eq)]
pub struct Log {
    /// The address that emitted the log.
    pub address: Address,
    /// The log's topics.
    pub topics: Vec<B256>,
    /// The log's data.
    pub data: Vec<u8>,
}

/// A log annotated with the block it landed in: the encompassing transaction
/// hash, the block hash and number, the block-wide log index, the
/// transaction index, and the removal flag of filter queries.
#[derive(Clone, Debug, PartialEq, Eq)]
pub struct FilterLog {
    /// The log as the transaction emitted it.
    pub inner: Log,
    /// The hash of the transaction that emitted the log.
    pub transaction_hash: B256,
    /// The hash of the block the log landed in.
    pub block_hash: B256,
    /// The number of the block the log landed in.
    pub block_number: u64,
    /// The log's position among all logs of the block.
    pub log_index: u64,
    /// The position of the log's transaction within the block.
    pub transaction_index: u64,
    /// Whether a chain reorganization has removed the log. A locally
    /// assembled block is not subject to removal, so assembly always leaves
    /// this `false`.
    pub removed: bool,
}

/// A transaction's execution outcome, scoped to that transaction: what the
/// execution layer hands to block assembly.
#[derive(Clone, Debug, PartialEq, Eq)]
pub struct TransactionReceipt {
    /// Gas used by the block up to and including this transaction.
    pub cumulative_gas_used: u64,
    /// The bloom filter over the receipt's logs, carried opaquely.
    pub logs_bloom: Vec<u8>,
    /// The logs the transaction emitted, in emission order.
    pub logs: Vec<Log>,
    /// The status or post-state payload, carried opaquely.
    pub data: Vec<u8>,
    /// The hash of the transaction.
    pub transaction_hash: B256,
    /// The transaction's position, as far as the execution layer knew it;
    /// enrichment replaces it with the position in the block.
    pub transaction_index: u64,
    /// The sender.
    pub from: Address,
    /// The recipient, absent for a contract creation.
    pub to: Option<Address>,
    /// The created contract's address, for a contract creation.
    pub contract_address: Option<Address>,
    /// Gas used by this transaction alone.
    pub gas_used: u64,
    /// The price per gas unit actually charged.
    pub effective_gas_price: u128,
}

/// A receipt scoped to the block it landed in: the transaction-scoped fields
/// carried forward, the logs enriched with block context, and the block hash
/// and number added.
#[derive(Clone, Debug, PartialEq, Eq)]
pub struct BlockReceipt {
    /// Gas used by the block up to and including this transaction.
    pub cumulative_gas_used: u64,
    /// The bloom filter over the receipt's logs, carried opaquely.
    pub logs_bloom: Vec<u8>,
    /// The receipt's logs, enriched with block context.
    pub logs: Vec<FilterLog>,
    /// The status or post-state payload, carried opaquely.
    pub data: Vec<u8>,
    /// The hash of the transaction.
    pub transaction_hash: B256,
    /// The transaction's position within the block.
    pub transaction_index: u64,
    /// The sender.
    pub from: Address,
    /// The recipient, absent for a contract creation.
    pub to: Option<Address>,
    /// The created contract's address, for a contract creation.
    pub contract_address: Option<Address>,
    /// Gas used by this transaction alone.
    pub gas_used: u64,
    /// The price per gas unit actually charged.
    pub effective_gas_price: u128,
    /// The hash of the block.
    pub block_hash: B256,
    /// The number of the block.
    pub block_number: u64,
}

/// How many logs the first `i` receipts hold together: the block-wide log
/// index at which receipt `i`'s logs begin.
pub open spec fn logs_before(receipts: Seq<TransactionReceipt>, i: int) -> int
    decreases i,
{
    if i <= 0 {
        0
    } else {
        logs_before(receipts, i - 1) + receipts[i - 1].logs@.len()
    }
}

/// The log at position `j` of receipt `transaction_index` came out of `raw`
/// enriched with the given block context and indices.
pub open spec fn log_enriched(
    raw: Log,
    out: FilterLog,
    transaction_hash: Seq<u8>,
    block_hash: Seq<u8>,
    block_number: u64,
    log_index: u64,
    transaction_index: u64,
) -> bool {
    &&& out.inner == raw
    &&& out.transaction_hash@ == transaction_hash
    &&& out.block_hash@ == block_hash
    &&& out.block_number == block_number
    &&& out.log_index == log_index
    &&& out.transaction_index == transaction_index
    &&& out.removed == false
}

/// The receipt at position `transaction_index` came out of `raw`: every
/// transaction-scoped field carried forward, the block context added, and
/// the logs enriched in emission order starting at block-wide log index
/// `first_log_index`.
pub open spec fn receipt_enriched(
    raw: TransactionReceipt,
    out: BlockReceipt,
    block_hash: Seq<u8>,
    block_number: u64,
    first_log_index: int,
    transaction_index: u64,
) -> bool {
    &&& out.cumulative_gas_used == raw.cumulative_gas_used
    &&& out.logs_bloom == raw.logs_bloom
    &&& out.data == raw.data
    &&& out.transaction_hash == raw.transaction_hash
    &&& out.transaction_index == transaction_index
    &&& out.from == raw.from
    &&& out.to == raw.to
    &&& out.contract_address == raw.contract_address
    &&& out.gas_used == raw.gas_used
    &&& out.effective_gas_price == raw.effective_gas_price
    &&& out.block_hash@ == block_hash
    &&& out.block_number == block_number
    &&& out.logs@.len() == raw.logs@.len()
    &&& forall|j: int|
        0 <= j < raw.logs@.len() ==> log_enriched(
            raw.logs@[j],
            #[trigger] out.logs@[j],
            raw.transaction_hash@,
            block_hash,
            block_number,
            (first_log_index + j) as u64,
            transaction_index,
        )
}

/// The block context a log of an assembled block carries: the block's own
/// hash and number, the position of its transaction, and no removal mark.
pub open spec fn log_bound_to_block(
    l: FilterLog,
    block_hash: Seq<u8>,
    block_number: u64,
    transaction_index: u64,
) -> bool {
    &&& l.block_hash@ == block_hash
    &&& l.block_number == block_number
    &&& l.transaction_index == transaction_index
    &&& l.removed == false
}

/// The block context a receipt of an assembled block carries, on the
/// receipt itself and on each of its logs.
pub open spec fn receipt_bound_to_block(
    r: BlockReceipt,
    block_hash: Seq<u8>,
    block_number: u64,
    transaction_index: u64,
) -> bool {
    &&& r.block_hash@ == block_hash
    &&& r.block_number == block_number
    &&& r.transaction_index == transaction_index
    &&& forall|j: int|
        0 <= j < r.logs@.len() ==> log_bound_to_block(
            #[trigger] r.logs@[j],
            block_hash,
            block_number,
            transaction_index,
        )
}

/// An enriched receipt carries exactly the block context it was enriched
/// with.
pub proof fn lemma_enriched_bound(
    raw: TransactionReceipt,
    out: BlockReceipt,
    block_hash: Seq<u8>,
    block_number: u64,
    first_log_index: int,
    transaction_index: u64,
)
    requires
        receipt_enriched(raw, out, block_hash, block_number, first_log_index, transaction_index),
    ensures
        receipt_bound_to_block(out, block_hash, block_number, transaction_index),
{
    assert forall|j: int| 0 <= j < out.logs@.len() implies log_bound_to_block(
        #[trigger] out.logs@[j],
        block_hash,
        block_number,
        transaction_index,
    ) by {
        assert(log_enriched(
            raw.logs@[j],
            out.logs@[j],
            raw.transaction_hash@,
            block_hash,
            block_number,
            (first_log_index + j) as u64,
            transaction_index,
        ));
    }
}

/// `logs_before` never shrinks as more receipts are counted.
pub proof fn lemma_logs_before_monotone(receipts: Seq<TransactionReceipt>, i: int, k: int)
    requires
        0 <= i <= k,
    ensures
        0 <= logs_before(receipts, i) <= logs_before(receipts, k),
    decreases k,
{
    if k > 0 {
        if i <= k - 1 {
            lemma_logs_before_monotone(receipts, i, k - 1);
        } else {
            lemma_logs_before_monotone(receipts, 0, i - 1);
        }
    }
}

/// `logs_before` reads only the first `i` receipts.
pub proof fn lemma_logs_before_prefix(
    receipts: Seq<TransactionReceipt>,
    shorter: Seq<TransactionReceipt>,
    i: int,
)
    requires
        0 <= i <= shorter.len(),
        shorter.len() <= receipts.len(),
        forall|k: int| 0 <= k < shorter.len() ==> shorter[k] == receipts[k],
    ensures
        logs_before(shorter, i) == logs_before(receipts, i),
    decreases i,
{
    if i > 0 {
        lemma_logs_before_prefix(receipts, shorter, i - 1);
    }
}

/// The log indices of a sequence of block receipts, flattened in receipt
/// order and, within a receipt, in emission order.
pub open spec fn flat_log_indices(out: Seq<BlockReceipt>) -> Seq<u64>
    decreases out.len(),
{
    if out.len() == 0 {
        Seq::empty()
    } else {
        flat_log_indices(out.drop_last()) + out.last().logs@.map_values(|l: FilterLog| l.log_index)
    }
}

/// Across one block's enriched receipts, the flattened log indices are
/// exactly `0, 1, ..., total log count - 1`: one block-wide counter, no
/// gaps, no duplicates, no reset at a transaction boundary.
pub proof fn lemma_log_indices_contiguous(
    raw: Seq<TransactionReceipt>,
    out: Seq<BlockReceipt>,
    block_hash: Seq<u8>,
    block_number: u64,
)
    requires
        out.len() == raw.len(),
        logs_before(raw, raw.len() as int) <= u64::MAX,
        forall|i: int|
            0 <= i < raw.len() ==> receipt_enriched(
                raw[i],
                #[trigger] out[i],
                block_hash,
                block_number,
                logs_before(raw, i),
                i as u64,
            ),
    ensures
        flat_log_indices(out) == Seq::new(
            logs_before(raw, raw.len() as int) as nat,
            |k: int| k as u64,
        ),
    decreases raw.len(),
{
    let total = logs_before(raw, raw.len() as int);
    lemma_logs_before_monotone(raw, 0, raw.len() as int);
    if raw.len() == 0 {
        assert(flat_log_indices(out) =~= Seq::new(total as nat, |k: int| k as u64));
    } else {
        let n = raw.len() as int;
        let raw_prefix = raw.drop_last();
        let out_prefix = out.drop_last();
        let total_prefix = logs_before(raw, n - 1);
        lemma_logs_before_monotone(raw, n - 1, n);
        assert forall|i: int| 0 <= i < raw_prefix.len() implies receipt_enriched(
            raw_prefix[i],
            #[trigger] out_prefix[i],
            block_hash,
            block_number,
            logs_before(raw_prefix, i),
            i as u64,
        ) by {
            lemma_logs_before_prefix(raw, raw_prefix, i);
            assert(raw_prefix[i] == raw[i]);
            assert(out_prefix[i] == out[i]);
        }
        lemma_logs_before_prefix(raw, raw_prefix, n - 1);
        lemma_log_indices_contiguous(raw_prefix, out_prefix, block_hash, block_number);
        let last_indices = out.last().logs@.map_values(|l: FilterLog| l.log_index);
        assert(receipt_enriched(
            raw[n - 1],
            out[n - 1],
            block_hash,
            block_number,
            total_prefix,
            (n - 1) as u64,
        ));
        assert(last_indices.len() == raw[n - 1].logs@.len());
        assert(total == total_prefix + raw[n - 1].logs@.len());
        assert forall|k: int| 0 <= k < total implies flat_log_indices(out)[k] == k as u64 by {
            if k < total_prefix {
                assert(flat_log_indices(out)[k] == flat_log_indices(out_prefix)[k]);
            } else {
                let j = k - total_prefix;
                assert(log_enriched(
                    raw[n - 1].logs@[j],
                    out[n - 1].logs@[j],
                    raw[n - 1].transaction_hash@,
                    block_hash,
                    block_number,
                    (total_prefix + j) as u64,
                    (n - 1) as u64,
                ));
                assert(flat_log_indices(out)[k] == last_indices[j]);
                assert(last_indices[j] == out.last().logs@[j].log_index);
            }
        }
        assert(flat_log_indices(out) =~= Seq::new(total as nat, |k: int| k as u64));
    }
}

/// Converts the receipts of one block's transactions into block-scoped
/// receipts: receipt `i` gets transaction index `i`, and one counter,
/// running across the whole block in transaction order and then emission
/// order, assigns each log its block-wide log index.
pub fn transaction_to_block_receipts(
    block_hash: &B256,
    block_number: u64,
    receipts: Vec<TransactionReceipt>,
) -> (out: Vec<Arc<BlockReceipt>>)
    requires
        receipts@.len() <= u64::MAX,
        logs_before(receipts@, receipts@.len() as int) <= u64::MAX,
    ensures
        out@.len() == receipts@.len(),
        forall|i: int|
            0 <= i < receipts@.len() ==> receipt_enriched(
                receipts@[i],
                *(#[trigger] out@[i]),
                block_hash@,
                block_number,
                logs_before(receipts@, i),
                i as u64,
            ),
{
    let ghost all = receipts@;
    let mut remaining = receipts;
    let mut out: Vec<Arc<BlockReceipt>> = Vec::new();
    let mut log_index: u64 = 0;
    let mut transaction_index: u64 = 0;
    while remaining.len() > 0
        invariant
            all.len() <= u64::MAX,
            logs_before(all, all.len() as int) <= u64::MAX,
            transaction_index == out@.len(),
            out@.len() + remaining@.len() == all.len(),
            remaining@ == all.skip(out@.len() as int),
            log_index == logs_before(all, out@.len() as int),
            forall|i: int|
                0 <= i < out@.len() ==> receipt_enriched(
                    all[i],
                    *(#[trigger] out@[i]),
                    block_hash@,
                    block_number,
                    logs_before(all, i),
                    i as u64,
                ),
        decreases remaining@.len(),
    {
        let ghost i = out@.len() as int;
        proof {
            assert(remaining@[0] == all[i]);
            lemma_logs_before_monotone(all, i + 1, all.len() as int);
        }
        let receipt = remaining.remove(0);
        let enriched = enrich_receipt(
            receipt,
            block_hash,
            block_number,
            log_index,
            transaction_index,
        );
        let log_count = enriched.logs.len();
        out.push(Arc::new(enriched));
        log_index = log_index + (log_count as u64);
        transaction_index = transaction_index + 1;
        proof {
            assert(remaining@ =~= all.skip(out@.len() as int));
        }
    }
    out
}

/// Enriches one receipt: carries every transaction-scoped field forward,
/// adds the block context, and gives log `j` the block-wide index
/// `first_log_index + j`.
fn enrich_receipt(
    raw: TransactionReceipt,
    block_hash: &B256,
    block_number: u64,
    first_log_index: u64,
    transaction_index: u64,
) -> (out: BlockReceipt)
    requires
        first_log_index + raw.logs@.len() <= u64::MAX,
    ensures
        receipt_enriched(
            raw,
            out,
            block_hash@,
            block_number,
            first_log_index as int,
            transaction_index,
        ),
        out.logs@.len() == raw.logs@.len(),
{
    let TransactionReceipt {
        cumulative_gas_used,
        logs_bloom,
        logs,
        data,
        transaction_hash,
        transaction_index: _,
        from,
        to,
        contract_address,
        gas_used,
        effective_gas_price,
    } = raw;
    let ghost raw_logs = logs@;
    let mut remaining_logs = logs;
    let mut enriched_logs: Vec<FilterLog> = Vec::new();
    while remaining_logs.len() > 0
        invariant
            first_log_index + raw_logs.len() <= u64::MAX,
            enriched_logs@.len() + remaining_logs@.len() == raw_logs.len(),
            remaining_logs@ == raw_logs.skip(enriched_logs@.len() as int),
            forall|j: int|
                0 <= j < enriched_logs@.len() ==> log_enriched(
                    raw_logs[j],
                    #[trigger] enriched_logs@[j],
                    transaction_hash@,
                    block_hash@,
                    block_number,
                    (first_log_index + j) as u64,
                    transaction_index,
                ),
        decreases remaining_logs@.len(),
    {
        let ghost j = enriched_logs@.len() as int;
        proof {
            assert(remaining_logs@[0] == raw_logs[j]);
        }
        let log = remaining_logs.remove(0);
        let entry = FilterLog {
            inner: log,
            transaction_hash: transaction_hash.clone(),
            block_hash: block_hash.clone(),
            block_number,
            log_index: first_log_index + (enriched_logs.len() as u64),
            transaction_index,
            removed: false,
        };
        enriched_logs.push(entry);
        proof {
            assert(remaining_logs@ =~= raw_logs.skip(enriched_logs@.len() as int));
        }
    }
    BlockReceipt {
        cumulative_gas_used,
        logs_bloom,
        logs: enriched_logs,
        data,
        transaction_hash,
        transaction_index,
        from,
        to,
        contract_address,
        gas_used,
        effective_gas_price,
        block_hash: block_hash.clone(),
        block_number,
    }
}

} // verus!
