use local_block::block::LocalBlock;
use local_block::header::{Header, PartialHeader};
use local_block::receipt::TransactionReceipt;
use local_block::types::{Address, SignedTransaction, Withdrawal, B256};

fn b256(byte: u8) -> B256 {
    B256 { bytes: vec![byte; 32] }
}

fn address(byte: u8) -> Address {
    Address { bytes: vec![byte; 20] }
}

fn receipt_without_logs(tag: u8) -> TransactionReceipt {
    TransactionReceipt {
        cumulative_gas_used: 21000,
        logs_bloom: vec![0; 256],
        logs: Vec::new(),
        data: vec![1],
        transaction_hash: b256(tag),
        transaction_index: 0,
        from: address(tag),
        to: Some(address(tag.wrapping_add(1))),
        contract_address: None,
        gas_used: 21000,
        effective_gas_price: 7,
    }
}

/// The same canonical header encoding, rebuilt with the `rlp` crate alone.
fn manual_header_encoding(header: &Header) -> Vec<u8> {
    let mut payload = header.base_payload.clone();
    payload.extend_from_slice(&rlp::encode(&header.ommers_root.bytes));
    payload.extend_from_slice(&rlp::encode(&header.transactions_root.bytes));
    payload.extend_from_slice(&rlp::encode(&header.number));
    if let Some(root) = &header.withdrawals_root {
        payload.extend_from_slice(&rlp::encode(&root.bytes));
    }
    let mut stream = rlp::RlpStream::new_list(1);
    stream.append_raw(&payload, 1);
    stream.out().to_vec()
}

fn sample_base_payload() -> Vec<u8> {
    let mut base = Vec::new();
    base.extend_from_slice(&rlp::encode(&vec![0xaau8; 32]));
    base.extend_from_slice(&rlp::encode(&vec![0xbbu8; 20]));
    base
}

fn sample_partial_header(number: u64) -> PartialHeader {
    PartialHeader {
        number,
        withdrawals_root: None,
        base_payload: sample_base_payload(),
    }
}

fn sample_transactions() -> Vec<SignedTransaction> {
    vec![
        SignedTransaction { rlp_encoding: rlp::encode(&vec![1u8, 2, 3]).to_vec() },
        SignedTransaction { rlp_encoding: rlp::encode(&vec![4u8, 5]).to_vec() },
    ]
}

#[test]
fn transactions_root_matches_independent_recomputation() {
    let transactions = sample_transactions();
    let encodings: Vec<Vec<u8>> =
        transactions.iter().map(|t| t.rlp_encoding.clone()).collect();
    let block = LocalBlock::new(
        sample_partial_header(5),
        transactions,
        vec![address(1), address(2)],
        vec![receipt_without_logs(1), receipt_without_logs(2)],
        Vec::new(),
        None,
    );
    let expected = triehash::ordered_trie_root::<keccak_hasher::KeccakHasher, _>(&encodings);
    assert_eq!(block.header().transactions_root.bytes, expected.to_vec());
}

#[test]
fn ommers_root_and_ommer_hashes_match_keccak() {
    let ommer = Header {
        number: 3,
        ommers_root: b256(0x11),
        transactions_root: b256(0x22),
        withdrawals_root: None,
        base_payload: sample_base_payload(),
    };
    let ommer_encoding = manual_header_encoding(&ommer);
    let block = LocalBlock::new(
        sample_partial_header(9),
        Vec::new(),
        Vec::new(),
        Vec::new(),
        vec![ommer],
        None,
    );

    let mut list = rlp::RlpStream::new_list(1);
    list.append_raw(&ommer_encoding, 1);
    let expected_root = revm::primitives::keccak256(&list.out().to_vec());
    assert_eq!(block.header().ommers_root.bytes, expected_root.to_vec());

    let expected_hash = revm::primitives::keccak256(&ommer_encoding);
    assert_eq!(block.ommer_hashes().len(), 1);
    assert_eq!(block.ommer_hashes()[0].bytes, expected_hash.to_vec());
}

#[test]
fn withdrawals_root_matches_independent_recomputation() {
    let withdrawals = vec![
        Withdrawal { rlp_encoding: rlp::encode(&vec![9u8, 9]).to_vec() },
        Withdrawal { rlp_encoding: rlp::encode(&vec![8u8]).to_vec() },
    ];
    let encodings: Vec<Vec<u8>> =
        withdrawals.iter().map(|w| w.rlp_encoding.clone()).collect();
    let block = LocalBlock::new(
        sample_partial_header(7),
        Vec::new(),
        Vec::new(),
        Vec::new(),
        Vec::new(),
        Some(withdrawals),
    );
    let expected = triehash::ordered_trie_root::<keccak_hasher::KeccakHasher, _>(&encodings);
    match &block.header().withdrawals_root {
        Some(root) => assert_eq!(root.bytes, expected.to_vec()),
        None => panic!("withdrawals root missing"),
    }
    match block.withdrawals() {
        Some(ws) => assert_eq!(ws.len(), 2),
        None => panic!("withdrawals missing"),
    }
}

#[test]
fn absent_withdrawals_leave_root_unset() {
    let block = LocalBlock::new(
        sample_partial_header(7),
        Vec::new(),
        Vec::new(),
        Vec::new(),
        Vec::new(),
        None,
    );
    assert!(block.header().withdrawals_root.is_none());
    assert!(block.withdrawals().is_none());
}

#[test]
fn block_hash_is_header_hash() {
    let block = LocalBlock::new(
        sample_partial_header(12),
        sample_transactions(),
        vec![address(3), address(4)],
        vec![receipt_without_logs(3), receipt_without_logs(4)],
        Vec::new(),
        None,
    );
    let expected = revm::primitives::keccak256(&manual_header_encoding(block.header()));
    assert_eq!(block.hash().bytes, expected.to_vec());
    assert_eq!(block.hash().bytes, block.header().hash().bytes);
}

#[test]
fn empty_block_roots() {
    let block = LocalBlock::empty(sample_partial_header(0));
    assert_eq!(block.transactions().len(), 0);
    assert_eq!(block.transaction_callers().len(), 0);
    assert_eq!(block.transaction_receipts().len(), 0);
    assert_eq!(block.ommer_hashes().len(), 0);
    assert!(block.withdrawals().is_none());

    // The well-known digest of the canonical encoding of an empty list.
    let empty_list_hash = revm::primitives::keccak256(&[0xc0u8]);
    assert_eq!(block.header().ommers_root.bytes, empty_list_hash.to_vec());

    // The well-known root of the empty trie.
    let empty_trie_root =
        triehash::ordered_trie_root::<keccak_hasher::KeccakHasher, _>(Vec::<Vec<u8>>::new());
    assert_eq!(block.header().transactions_root.bytes, empty_trie_root.to_vec());
    let known_empty_trie_root = vec![
        0x56u8, 0xe8, 0x1f, 0x17, 0x1b, 0xcc, 0x55, 0xa6, 0xff, 0x83, 0x45, 0xe6, 0x92, 0xc0,
        0xf8, 0x6e, 0x5b, 0x48, 0xe0, 0x1b, 0x99, 0x6c, 0xad, 0xc0, 0x01, 0x62, 0x2f, 0xb5,
        0xe3, 0x63, 0xb4, 0x21,
    ];
    assert_eq!(block.header().transactions_root.bytes, known_empty_trie_root);
}
