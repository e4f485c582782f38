use candid::Principal;
use deposit_vault::address::convert_to_subaccount;
use deposit_vault::codec::{key_to_memo, memo_to_key};
use deposit_vault::principal::StoredPrincipal;
use deposit_vault::types::{E8s, Mint, Operation, StoredTransactions, SweepStatus, Timestamp, Transaction};
use std::time::{SystemTime, UNIX_EPOCH};

fn static_principal() -> Principal {
    Principal::from_text("ryjl3-tyaaa-aaaaa-aaaba-cai").unwrap()
}

#[test]
fn create_stored_transactions() {
    let index = 1;
    let memo = 12345;
    let icrc1_memo = Some(vec![1, 2, 3, 4]);
    let operation = Some(Operation::Mint(Mint {
        to: vec![],
        amount: E8s { e8s: 1000 },
    }));
    let created_at_time = SystemTime::now()
        .duration_since(UNIX_EPOCH)
        .unwrap()
        .as_nanos() as u64;

    let transaction = Transaction {
        memo,
        icrc1_memo: icrc1_memo.clone(),
        operation: operation.clone(),
        created_at_time: Timestamp {
            timestamp_nanos: created_at_time,
        },
    };

    let stored_transaction = StoredTransactions::new(index, transaction);

    assert_eq!(stored_transaction.index, index);
    assert_eq!(stored_transaction.memo, memo);
    assert_eq!(stored_transaction.icrc1_memo, icrc1_memo);
    assert_eq!(stored_transaction.operation, operation);
    assert_eq!(
        stored_transaction.created_at_time,
        Timestamp {
            timestamp_nanos: created_at_time
        }
    );
    assert_eq!(stored_transaction.sweep_status, SweepStatus::NotSwept);
}

#[test]
fn create_and_retrieve_stored_principal() {
    let stored_principal = StoredPrincipal::new(static_principal());

    assert_eq!(stored_principal.get_principal(), Some(static_principal()));
}

#[test]
fn unset_stored_principal_holds_nothing() {
    assert_eq!(StoredPrincipal::unset().get_principal(), None);
}

#[test]
fn test_convert_to_subaccount() {
    let nonce = 1;
    let subaccount = convert_to_subaccount(nonce);
    assert_eq!(subaccount.0[28..32], [0, 0, 0, 1]);
}

#[test]
fn subaccount_is_big_endian_and_zero_padded() {
    let subaccount = convert_to_subaccount(0x0102_0304);
    assert_eq!(subaccount.0[..28], [0u8; 28]);
    assert_eq!(subaccount.0[28..32], [1, 2, 3, 4]);
    assert_eq!(convert_to_subaccount(7), convert_to_subaccount(7));
}

#[test]
fn memo_encodes_key_big_endian() {
    assert_eq!(key_to_memo(7), vec![0, 0, 0, 0, 0, 0, 0, 7]);
    assert_eq!(key_to_memo(0x0102_0304_0506_0708), vec![1, 2, 3, 4, 5, 6, 7, 8]);
    assert_eq!(key_to_memo(7), 7u64.to_be_bytes().to_vec());
}

#[test]
fn memo_round_trip_and_rejects_other_lengths() {
    for k in [0u64, 1, 7, 255, 256, u64::MAX] {
        assert_eq!(memo_to_key(&key_to_memo(k)), Some(k));
    }
    assert_eq!(memo_to_key(&vec![1, 2, 3]), None);
    assert_eq!(memo_to_key(&vec![]), None);
    assert_eq!(memo_to_key(&vec![0u8; 9]), None);
}
