use local_block::block::LocalBlock;
use local_block::header::PartialHeader;
use local_block::receipt::{Log, TransactionReceipt};
use local_block::types::{Address, SignedTransaction, B256};

fn b256(byte: u8) -> B256 {
    B256 { bytes: vec![byte; 32] }
}

fn address(byte: u8) -> Address {
    Address { bytes: vec![byte; 20] }
}

fn log(tag: u8) -> Log {
    Log {
        address: address(tag),
        topics: vec![b256(tag)],
        data: vec![tag, tag],
    }
}

fn receipt_with_logs(tag: u8, logs: Vec<Log>) -> TransactionReceipt {
    TransactionReceipt {
        cumulative_gas_used: 21000 * (tag as u64),
        logs_bloom: vec![tag; 256],
        logs,
        data: vec![1],
        transaction_hash: b256(tag),
        transaction_index: 99,
        from: address(tag),
        to: None,
        contract_address: Some(address(tag.wrapping_add(7))),
        gas_used: 21000,
        effective_gas_price: 3,
    }
}

fn partial_header(number: u64) -> PartialHeader {
    PartialHeader {
        number,
        withdrawals_root: None,
        base_payload: rlp::encode(&vec![0x42u8; 32]).to_vec(),
    }
}

fn two_transaction_block() -> LocalBlock {
    let transactions = vec![
        SignedTransaction { rlp_encoding: rlp::encode(&vec![1u8, 1]).to_vec() },
        SignedTransaction { rlp_encoding: rlp::encode(&vec![2u8, 2]).to_vec() },
    ];
    let receipts = vec![
        receipt_with_logs(1, vec![log(0x10), log(0x11)]),
        receipt_with_logs(2, vec![log(0x20)]),
    ];
    LocalBlock::new(
        partial_header(42),
        transactions,
        vec![address(0xa1), address(0xa2)],
        receipts,
        Vec::new(),
        None,
    )
}

#[test]
fn two_transactions_log_indices() {
    let block = two_transaction_block();
    let receipts = block.transaction_receipts();
    assert_eq!(receipts.len(), 2);

    assert_eq!(receipts[0].transaction_index, 0);
    assert_eq!(receipts[1].transaction_index, 1);

    let first_indices: Vec<u64> = receipts[0].logs.iter().map(|l| l.log_index).collect();
    let second_indices: Vec<u64> = receipts[1].logs.iter().map(|l| l.log_index).collect();
    assert_eq!(first_indices, vec![0, 1]);
    assert_eq!(second_indices, vec![2]);

    let flattened: Vec<u64> =
        receipts.iter().flat_map(|r| r.logs.iter().map(|l| l.log_index)).collect();
    assert_eq!(flattened, vec![0, 1, 2]);
}

#[test]
fn no_log_is_marked_removed() {
    let block = two_transaction_block();
    for receipt in block.transaction_receipts() {
        for log in &receipt.logs {
            assert!(!log.removed);
        }
    }
}

#[test]
fn receipts_carry_block_context() {
    let block = two_transaction_block();
    for (i, receipt) in block.transaction_receipts().iter().enumerate() {
        assert_eq!(receipt.block_hash.bytes, block.hash().bytes);
        assert_eq!(receipt.block_number, 42);
        assert_eq!(receipt.transaction_index, i as u64);
        for log in &receipt.logs {
            assert_eq!(log.block_hash.bytes, block.hash().bytes);
            assert_eq!(log.block_number, 42);
            assert_eq!(log.transaction_index, i as u64);
            assert_eq!(log.transaction_hash.bytes, receipt.transaction_hash.bytes);
        }
    }
}

#[test]
fn transaction_fields_carry_forward() {
    let block = two_transaction_block();
    let receipts = block.transaction_receipts();
    assert_eq!(receipts[0].cumulative_gas_used, 21000);
    assert_eq!(receipts[0].logs_bloom, vec![1u8; 256]);
    assert_eq!(receipts[0].transaction_hash.bytes, vec![1u8; 32]);
    assert_eq!(receipts[0].from.bytes, vec![1u8; 20]);
    assert!(receipts[0].to.is_none());
    assert_eq!(
        receipts[0].contract_address.as_ref().map(|a| a.bytes.clone()),
        Some(vec![8u8; 20])
    );
    assert_eq!(receipts[0].gas_used, 21000);
    assert_eq!(receipts[0].effective_gas_price, 3);
    assert_eq!(receipts[0].logs[1].inner.data, vec![0x11, 0x11]);
    assert_eq!(receipts[1].logs[0].inner.address.bytes, vec![0x20u8; 20]);
}

#[test]
fn shared_receipts_point_at_the_same_data() {
    let block = two_transaction_block();
    let shared = block.transaction_receipts_shared();
    assert_eq!(shared.len(), 2);
    for (own, borrowed) in shared.iter().zip(block.transaction_receipts().iter()) {
        assert_eq!(own.transaction_hash.bytes, borrowed.transaction_hash.bytes);
        assert_eq!(own.logs.len(), borrowed.logs.len());
    }
}

#[test]
fn detailed_transactions_zip_and_restart() {
    let block = two_transaction_block();
    let details = block.detailed_transactions();
    assert_eq!(details.len(), 2);
    for (i, detail) in details.iter().enumerate() {
        assert_eq!(
            detail.transaction.rlp_encoding,
            block.transactions()[i].rlp_encoding
        );
        assert_eq!(detail.caller.bytes, block.transaction_callers()[i].bytes);
        assert_eq!(
            detail.receipt.transaction_hash.bytes,
            block.transaction_receipts()[i].transaction_hash.bytes
        );
        assert_eq!(detail.receipt.transaction_index, i as u64);
    }

    let again = block.detailed_transactions();
    assert_eq!(again.len(), details.len());
    for (first, second) in details.iter().zip(again.iter()) {
        assert_eq!(first.transaction.rlp_encoding, second.transaction.rlp_encoding);
        assert_eq!(first.caller.bytes, second.caller.bytes);
        assert_eq!(first.receipt.block_hash.bytes, second.receipt.block_hash.bytes);
        assert_eq!(first.receipt.transaction_index, second.receipt.transaction_index);
    }
}
