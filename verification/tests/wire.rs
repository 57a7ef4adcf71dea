use local_block::block::LocalBlock;
use local_block::header::{Header, PartialHeader};
use local_block::receipt::TransactionReceipt;
use local_block::types::{Address, SignedTransaction, Withdrawal, B256};

fn b256(byte: u8) -> B256 {
    B256 { bytes: vec![byte; 32] }
}

fn address(byte: u8) -> Address {
    Address { bytes: vec![byte; 20] }
}

fn receipt(tag: u8) -> TransactionReceipt {
    TransactionReceipt {
        cumulative_gas_used: 100,
        logs_bloom: vec![0; 256],
        logs: Vec::new(),
        data: vec![1],
        transaction_hash: b256(tag),
        transaction_index: 0,
        from: address(tag),
        to: Some(address(tag)),
        contract_address: None,
        gas_used: 100,
        effective_gas_price: 1,
    }
}

fn partial_header(number: u64) -> PartialHeader {
    PartialHeader {
        number,
        withdrawals_root: None,
        base_payload: rlp::encode(&vec![0x33u8; 32]).to_vec(),
    }
}

fn tx_encodings() -> Vec<Vec<u8>> {
    vec![
        rlp::encode(&vec![0x01u8, 0x02]).to_vec(),
        rlp::encode(&vec![0x03u8]).to_vec(),
    ]
}

fn sample_block(withdrawals: Option<Vec<Withdrawal>>) -> LocalBlock {
    let transactions: Vec<SignedTransaction> = tx_encodings()
        .into_iter()
        .map(|rlp_encoding| SignedTransaction { rlp_encoding })
        .collect();
    LocalBlock::new(
        partial_header(8),
        transactions,
        vec![address(1), address(2)],
        vec![receipt(1), receipt(2)],
        Vec::new(),
        withdrawals,
    )
}

#[test]
fn wire_form_round_trips_without_withdrawals() {
    let block = sample_block(None);
    let encoded = block.rlp_encode();
    let decoder = rlp::Rlp::new(&encoded);

    assert!(decoder.is_list());
    assert_eq!(decoder.item_count().unwrap(), 3);

    // The header element reproduces the header's own canonical encoding.
    assert_eq!(decoder.at(0).unwrap().as_raw(), block.header().encode().as_slice());

    // The transaction list reproduces each transaction exactly.
    let tx_list = decoder.at(1).unwrap();
    assert!(tx_list.is_list());
    assert_eq!(tx_list.item_count().unwrap(), 2);
    for (i, expected) in tx_encodings().iter().enumerate() {
        assert_eq!(tx_list.at(i).unwrap().as_raw(), expected.as_slice());
    }

    // The ommer list is empty, and there is no fourth element.
    let ommer_list = decoder.at(2).unwrap();
    assert!(ommer_list.is_list());
    assert_eq!(ommer_list.item_count().unwrap(), 0);
}

#[test]
fn wire_form_round_trips_with_withdrawals() {
    let withdrawal_encodings = vec![
        rlp::encode(&vec![0x0au8, 0x0b]).to_vec(),
        rlp::encode(&vec![0x0cu8]).to_vec(),
    ];
    let withdrawals: Vec<Withdrawal> = withdrawal_encodings
        .iter()
        .map(|encoding| Withdrawal { rlp_encoding: encoding.clone() })
        .collect();
    let block = sample_block(Some(withdrawals));
    let encoded = block.rlp_encode();
    let decoder = rlp::Rlp::new(&encoded);

    assert!(decoder.is_list());
    assert_eq!(decoder.item_count().unwrap(), 4);
    assert_eq!(decoder.at(0).unwrap().as_raw(), block.header().encode().as_slice());

    let withdrawal_list = decoder.at(3).unwrap();
    assert!(withdrawal_list.is_list());
    assert_eq!(withdrawal_list.item_count().unwrap(), 2);
    for (i, expected) in withdrawal_encodings.iter().enumerate() {
        assert_eq!(withdrawal_list.at(i).unwrap().as_raw(), expected.as_slice());
    }
}

#[test]
fn wire_form_reproduces_ommers() {
    let ommer = Header {
        number: 2,
        ommers_root: b256(0x51),
        transactions_root: b256(0x52),
        withdrawals_root: None,
        base_payload: rlp::encode(&vec![0x44u8; 32]).to_vec(),
    };
    let ommer_encoding = ommer.encode();
    let block = LocalBlock::new(
        partial_header(3),
        Vec::new(),
        Vec::new(),
        Vec::new(),
        vec![ommer],
        None,
    );
    let encoded = block.rlp_encode();
    let decoder = rlp::Rlp::new(&encoded);
    assert_eq!(decoder.item_count().unwrap(), 3);
    let ommer_list = decoder.at(2).unwrap();
    assert_eq!(ommer_list.item_count().unwrap(), 1);
    assert_eq!(ommer_list.at(0).unwrap().as_raw(), ommer_encoding.as_slice());
}

#[test]
fn rlp_size_matches_encoding_length() {
    let block = sample_block(None);
    assert_eq!(block.rlp_size(), block.rlp_encode().len() as u64);

    let empty = LocalBlock::empty(partial_header(0));
    assert_eq!(empty.rlp_size(), empty.rlp_encode().len() as u64);
}

#[test]
fn header_encoding_matches_manual_rlp() {
    let block = sample_block(None);
    let header = block.header();

    let mut payload = header.base_payload.clone();
    payload.extend_from_slice(&rlp::encode(&header.ommers_root.bytes));
    payload.extend_from_slice(&rlp::encode(&header.transactions_root.bytes));
    payload.extend_from_slice(&rlp::encode(&header.number));
    let mut stream = rlp::RlpStream::new_list(1);
    stream.append_raw(&payload, 1);
    let expected = stream.out().to_vec();

    assert_eq!(header.encode(), expected);
    assert_eq!(
        block.hash().bytes,
        revm::primitives::keccak256(&expected).to_vec()
    );
}
