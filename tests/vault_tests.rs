use candid::Principal;
use deposit_vault::address::convert_to_subaccount;
use deposit_vault::codec::memo_to_key;
use deposit_vault::types::{
    Approve, Block, Burn, E8s, Icrc1TransferRequest, Mint, Operation, StoredTransactions,
    SweepStatus, Timestamp, Transaction, Transfer, VaultError,
};
use deposit_vault::vault::Vault;

const STATIC_PRINCIPAL: &str = "ryjl3-tyaaa-aaaaa-aaaba-cai";

fn principal_bytes() -> Vec<u8> {
    Principal::from_text(STATIC_PRINCIPAL).unwrap().as_slice().to_vec()
}

fn configured_vault() -> Vault {
    Vault::configure(0, 0, STATIC_PRINCIPAL, STATIC_PRINCIPAL).unwrap()
}

/// The raw identifier of a freshly registered address.
fn register(vault: &mut Vault) -> Vec<u8> {
    let text = vault.register_address();
    hex::decode(text).unwrap()
}

fn block(operation: Option<Operation>, timestamp_nanos: u64) -> Block {
    Block {
        transaction: Transaction {
            memo: 0,
            icrc1_memo: None,
            operation,
            created_at_time: Timestamp { timestamp_nanos },
        },
    }
}

fn mint_to(to: &[u8]) -> Option<Operation> {
    Some(Operation::Mint(Mint {
        to: to.to_vec(),
        amount: E8s { e8s: 1000 },
    }))
}

fn transfer(to: &[u8], spender: Option<Vec<u8>>, amount: u64) -> Option<Operation> {
    Some(Operation::Transfer(Transfer {
        to: to.to_vec(),
        fee: E8s { e8s: 100 },
        from: vec![2u8; 32],
        amount: E8s { e8s: amount },
        spender,
    }))
}

/// Records `count` blocks under keys 1..=count, page by page as a sync would.
fn populate_transactions(vault: &mut Vault, to: &[u8], count: u64, timestamp_nanos: Option<u64>) {
    let timestamp_nanos = timestamp_nanos.unwrap_or(1000);
    let mut start = 1u64;
    while start <= count {
        let end = std::cmp::min(start + 100, count + 1);
        let blocks: Vec<Block> = (start..end).map(|_| block(mint_to(to), timestamp_nanos)).collect();
        vault.ingest_blocks(start, blocks);
        start = end;
    }
}

fn vault_with(count: u64, timestamp_nanos: Option<u64>) -> Vault {
    let mut vault = configured_vault();
    let to = register(&mut vault);
    populate_transactions(&mut vault, &to, count, timestamp_nanos);
    vault
}

fn status_of(vault: &Vault, key: u64) -> Option<SweepStatus> {
    vault
        .transactions()
        .iter()
        .find(|t| t.index == key)
        .map(|t| t.sweep_status)
}

#[test]
fn test_includes_hash_found() {
    let mut vault = configured_vault();
    let test_hash = register(&mut vault);
    assert!(
        vault.is_watched(&test_hash),
        "includes_hash should return true for a hash present in the list"
    );
}

#[test]
fn test_includes_hash_not_found() {
    let mut vault = configured_vault();
    register(&mut vault);
    let test_hash = vec![2u8; 32];
    assert!(
        !vault.is_watched(&test_hash),
        "includes_hash should return false for a hash not present in the list"
    );
}

#[test]
fn test_includes_hash_invalid_length() {
    let mut vault = configured_vault();
    let id = register(&mut vault);
    let test_hash = vec![1u8; 31];
    assert!(
        !vault.is_watched(&test_hash),
        "includes_hash should return false for a hash with an incorrect length"
    );
    assert!(!vault.is_watched(&id[..31].to_vec()));
}

#[test]
fn test_get_interval_initial_value() {
    let expected_seconds: u64 = 0;
    let vault = configured_vault();
    assert_eq!(
        vault.get_interval(),
        expected_seconds,
        "The interval should initially match the expected default or set value."
    );
}

#[test]
fn test_set_and_get_interval() {
    let mut vault = configured_vault();
    let new_seconds: u64 = 10;
    assert_eq!(vault.set_interval(new_seconds), new_seconds, "Setting the interval should succeed.");
    assert_eq!(
        vault.get_interval(),
        new_seconds,
        "The interval retrieved by get_interval should match the newly set value."
    );
}

#[test]
fn test_set_interval_clears_previous_timer() {
    let mut vault = configured_vault();
    let initial_seconds: u64 = 5;
    vault.set_interval(initial_seconds);
    let new_seconds: u64 = 10;
    vault.set_interval(new_seconds);
    assert_eq!(
        vault.get_interval(),
        new_seconds,
        "The interval should be updated to the new value."
    );
}

#[test]
fn list_transactions_with_less_than_100_transactions() {
    let vault = vault_with(50, None);
    let transactions = vault.list_transactions(None);
    assert_eq!(transactions.len(), 50);
}

#[test]
fn list_transactions_with_more_than_100_transactions() {
    let vault = vault_with(150, None);
    let transactions = vault.list_transactions(None);
    assert_eq!(transactions.len(), 100);
    assert_eq!(transactions[0].index, 51);
    assert_eq!(transactions[99].index, 150);
}

#[test]
fn list_transactions_with_specific_number_transactions() {
    let vault = vault_with(150, None);
    let transactions = vault.list_transactions(Some(80));
    assert_eq!(transactions.len(), 80);
    let transactions = vault.list_transactions(Some(150));
    assert_eq!(transactions.len(), 150);
    assert_eq!(vault.list_transactions(Some(500)).len(), 150);
    assert_eq!(vault.list_transactions(Some(0)).len(), 0);
}

#[test]
fn clear_transactions_with_specific_timestamp() {
    let nanos = 100000;
    let specific_timestamp = Timestamp::from_nanos(nanos);
    let mut vault = vault_with(100, None);
    let cleared = vault.clear_transactions(None, Some(specific_timestamp));
    assert_eq!(cleared.len(), 0);
}

#[test]
fn clear_transactions_with_similar_timestamp() {
    let nanos = 100000;
    let specific_timestamp = Timestamp::from_nanos(nanos);
    let mut vault = vault_with(100, Some(nanos));
    let cleared = vault.clear_transactions(None, Some(specific_timestamp));
    assert_eq!(cleared.len(), 0);
}

#[test]
fn clear_transactions_with_none_parameters() {
    let mut vault = vault_with(100, None);
    let cleared = vault.clear_transactions(None, None);
    assert_eq!(cleared.len(), 100);
    assert_eq!(vault.get_transactions_count(), 100);
}

#[test]
fn clear_transactions_with_specific_index() {
    let mut vault = vault_with(100, None);
    let cleared = vault.clear_transactions(Some(50), None);
    assert_eq!(
        cleared.len(),
        50,
        "Expected 50 transactions to remain after clearing up to index 50"
    );
    assert_eq!(cleared[0].index, 51);
    assert_eq!(vault.get_oldest_block(), Some(51));
}

#[test]
fn clear_transactions_with_multiple_criteria() {
    let mut vault = vault_with(100, Some(50000));
    let cleared = vault.clear_transactions(Some(80), Some(Timestamp::from_nanos(60000)));
    assert_eq!(
        cleared.len(),
        0,
        "Expected 0 transactions to remain after applying multiple clear criteria"
    );
}

#[test]
fn clear_transactions_at_exact_timestamp() {
    let mut vault = vault_with(100, Some(100000));
    let cleared = vault.clear_transactions(None, Some(Timestamp::from_nanos(100000)));
    assert!(
        cleared.is_empty(),
        "Expected all transactions to be cleared with a timestamp exactly matching the filter"
    );
}

#[test]
fn clear_transactions_edge_cases() {
    let mut vault = configured_vault();
    let to = register(&mut vault);
    populate_transactions(&mut vault, &to, 10, None);

    let cleared = vault.clear_transactions(Some(50), None);
    assert_eq!(cleared.len(), 0);

    let early_timestamp = Timestamp::from_nanos(1);
    populate_transactions(&mut vault, &to, 10, None);
    let cleared = vault.clear_transactions(None, Some(early_timestamp));
    assert_eq!(cleared.len(), 10);
}

#[test]
fn clear_transactions_with_zero_thresholds_removes_nothing() {
    let mut vault = vault_with(20, None);
    let cleared = vault.clear_transactions(Some(0), Some(Timestamp::from_nanos(0)));
    assert_eq!(cleared.len(), 20);
}

#[test]
fn stress_test_for_large_number_of_transactions() {
    let large_number = 10_000;
    let mut vault = vault_with(large_number, None);

    let transactions = vault.list_transactions(None);
    assert_eq!(
        transactions.len(),
        100,
        "Expected to list only the last 100 transactions from a large dataset"
    );

    let cleared = vault.clear_transactions(Some(large_number / 2), None);
    assert_eq!(
        cleared.len(),
        (large_number / 2) as usize,
        "Expected a maximum of 100 transactions to be returned after clearing a large number"
    );
}

/// A vault with one transfer recorded under key 1, to a watched address,
/// with the principal as spender.
fn refund_setup() -> (Vault, Vec<u8>) {
    let mut vault = configured_vault();
    let to = register(&mut vault);
    vault.ingest_blocks(1, vec![block(transfer(&to, Some(principal_bytes()), 1000), 0)]);
    (vault, to)
}

#[test]
fn test_refund_valid_transaction() {
    let (vault, to) = refund_setup();
    let result = vault.refund(1);
    assert!(result.is_ok(), "Refund should succeed for a valid transaction");
    let req = result.unwrap();
    assert_eq!(req.to_owner, principal_bytes());
    assert_eq!(req.from_subaccount, Some(to));
    assert_eq!(req.amount, 1000);
    assert_eq!(req.memo, None);
    assert_eq!(status_of(&vault, 1), Some(SweepStatus::NotSwept));
}

#[test]
fn test_refund_unset_principal() {
    let mut vault = Vault::new(0, 0, principal_bytes(), None, Some(principal_bytes()));
    let to = register(&mut vault);
    vault.ingest_blocks(1, vec![block(transfer(&to, Some(principal_bytes()), 1000), 0)]);
    let result = vault.refund(1);
    assert!(result.is_err(), "Refund should fail if the principal is not set");
    assert_eq!(result.unwrap_err(), VaultError::ConfigurationError);
}

#[test]
fn test_refund_nonexistent_transaction() {
    let (vault, _) = refund_setup();
    let result = vault.refund(999);
    assert!(result.is_err(), "Refund should fail for a non-existent transaction");
    assert_eq!(result.unwrap_err(), VaultError::NotFoundError);
}

#[test]
fn refund_without_spender_is_ineligible() {
    let mut vault = configured_vault();
    let to = register(&mut vault);
    vault.ingest_blocks(4, vec![block(transfer(&to, None, 1000), 0)]);
    assert_eq!(vault.refund(4).unwrap_err(), VaultError::IneligibleError);
}

#[test]
fn refund_of_a_mint_is_ineligible() {
    let mut vault = configured_vault();
    let to = register(&mut vault);
    vault.ingest_blocks(0, vec![block(mint_to(&to), 0)]);
    assert_eq!(vault.refund(0).unwrap_err(), VaultError::IneligibleError);
}

/// Ledger and custodian set; key 1 a transfer to a watched address; key 2
/// a block without an operation, which is never recorded.
fn setup_sweep_environment() -> (Vault, Vec<u8>) {
    let mut vault = configured_vault();
    let to = register(&mut vault);
    vault.ingest_blocks(
        1,
        vec![
            block(transfer(&to, Some(principal_bytes()), 1000), 0),
            block(None, 0),
        ],
    );
    (vault, to)
}

#[test]
fn test_sweep_user_vault_successful_sweep() {
    let (mut vault, to) = setup_sweep_environment();
    let result = vault.sweep();
    assert!(result.is_ok(), "Sweeping should be successful.");
    assert!(
        vault.transactions().iter().all(|tx| tx.sweep_status == SweepStatus::Swept),
        "All transactions should be marked as Swept."
    );
    let reqs = result.unwrap();
    assert_eq!(reqs.len(), 1);
    assert_eq!(reqs[0].to_owner, principal_bytes());
    assert_eq!(reqs[0].memo, Some(1u64.to_be_bytes().to_vec()));
    assert_eq!(reqs[0].from_subaccount, Some(to));
    assert_eq!(reqs[0].amount, 1000);
    assert_eq!(vault.sweep().unwrap().len(), 0);
}

#[test]
fn test_sweep_user_vault_no_principal_set() {
    let mut vault = Vault::new(0, 0, principal_bytes(), None, Some(principal_bytes()));
    let result = vault.sweep();
    assert!(result.is_err(), "Sweeping should fail without a set principal.");
}

#[test]
fn test_sweep_user_vault_no_custodian_principal_set() {
    let mut vault = Vault::new(0, 0, principal_bytes(), Some(principal_bytes()), None);
    let to = register(&mut vault);
    vault.ingest_blocks(1, vec![block(transfer(&to, None, 1000), 0)]);
    let result = vault.sweep();
    assert!(result.is_err(), "Sweeping should fail without a set custodian principal.");
    assert_eq!(result.unwrap_err(), VaultError::ConfigurationError);
    assert_eq!(status_of(&vault, 1), Some(SweepStatus::NotSwept));
}

#[test]
fn test_sweep_user_vault_no_transactions_to_sweep() {
    let mut vault = configured_vault();
    let result = vault.sweep();
    assert!(result.is_ok(), "Sweeping should succeed even with no transactions to sweep.");
    assert!(result.unwrap().is_empty());
}

#[test]
fn test_icrc1_transfer_error_handling() {
    let (mut vault, to) = setup_sweep_environment();
    vault.ingest_blocks(3, vec![block(transfer(&to, Some(principal_bytes()), 500), 0)]);

    let test_memo = 3_u64.to_be_bytes().to_vec();
    let key = memo_to_key(&test_memo).unwrap();

    let request = Icrc1TransferRequest {
        to_owner: principal_bytes(),
        to_subaccount: None,
        fee: None,
        memo: Some(test_memo),
        from_subaccount: None,
        created_at_time: None,
        amount: 500,
    };

    vault.transfer_failed(&request);

    assert_eq!(
        status_of(&vault, key),
        Some(SweepStatus::FailedToSweep),
        "The transaction should be marked as FailedToSweep."
    );
}

#[test]
fn failure_overrides_optimistic_sweep_and_ignores_bad_memos() {
    let mut vault = configured_vault();
    let to = register(&mut vault);
    vault.ingest_blocks(5, vec![block(transfer(&to, None, 10), 0), block(None, 0), block(transfer(&to, None, 20), 0)]);
    let reqs = vault.sweep().unwrap();
    assert_eq!(reqs.len(), 2);
    assert_eq!(status_of(&vault, 5), Some(SweepStatus::Swept));

    let mut bad = reqs[0].clone();
    bad.memo = None;
    vault.transfer_failed(&bad);
    bad.memo = Some(vec![1, 2, 3]);
    vault.transfer_failed(&bad);
    bad.memo = Some(99u64.to_be_bytes().to_vec());
    vault.transfer_failed(&bad);
    assert_eq!(status_of(&vault, 5), Some(SweepStatus::Swept));
    assert_eq!(status_of(&vault, 7), Some(SweepStatus::Swept));

    vault.transfer_failed(&reqs[1]);
    assert_eq!(status_of(&vault, 7), Some(SweepStatus::FailedToSweep));
    assert_eq!(status_of(&vault, 5), Some(SweepStatus::Swept));
}

#[test]
fn failed_transfer_marks_key_seven() {
    let mut vault = configured_vault();
    let to = register(&mut vault);
    vault.ingest_blocks(6, vec![block(transfer(&to, None, 1), 0), block(transfer(&to, None, 2), 0)]);
    let mut req = vault.refund(6).unwrap_or(Icrc1TransferRequest {
        to_owner: vec![],
        to_subaccount: None,
        fee: None,
        memo: None,
        from_subaccount: None,
        created_at_time: None,
        amount: 0,
    });
    vault.transfer_failed(&req);
    assert_eq!(status_of(&vault, 6), Some(SweepStatus::NotSwept));
    req.memo = Some(7u64.to_be_bytes().to_vec());
    vault.transfer_failed(&req);
    assert_eq!(status_of(&vault, 7), Some(SweepStatus::FailedToSweep));
    assert_eq!(status_of(&vault, 6), Some(SweepStatus::NotSwept));
}

#[test]
fn register_sync_and_sweep_scenario() {
    let mut vault = configured_vault();
    let _a0 = register(&mut vault);
    let a1 = register(&mut vault);
    let _a2 = register(&mut vault);
    assert_eq!(vault.get_address_count(), 3);

    let req = vault.sync_request().unwrap();
    assert_eq!(req.start, 0);
    assert_eq!(req.length, 100);
    vault.ingest_blocks(req.start, vec![block(mint_to(&a1), 0)]);
    assert_eq!(vault.get_transactions_count(), 1);
    assert_eq!(vault.get_next_block(), 1);
    assert_eq!(status_of(&vault, 0), Some(SweepStatus::NotSwept));

    let reqs = vault.sweep().unwrap();
    assert!(reqs.is_empty());
    assert_eq!(status_of(&vault, 0), Some(SweepStatus::NotSwept));
}

#[test]
fn sync_records_each_block_once_and_advances_cursor() {
    let mut vault = configured_vault();
    let a = register(&mut vault);
    vault.set_next_block(10);
    let start = vault.sync_request().unwrap().start;
    let blocks = vec![block(mint_to(&a), 0), block(mint_to(&[9u8; 32]), 0), block(None, 0), block(mint_to(&a), 0)];
    vault.ingest_blocks(start, blocks.clone());
    assert_eq!(vault.get_next_block(), 14);
    let keys: Vec<u64> = vault.transactions().iter().map(|t| t.index).collect();
    assert_eq!(keys, vec![10, 13]);
    vault.ingest_blocks(start, blocks);
    assert_eq!(vault.get_transactions_count(), 2);
    vault.ingest_blocks(14, vec![]);
    assert_eq!(vault.get_next_block(), 14);
}

#[test]
fn sync_without_ledger_asks_nothing() {
    let vault = Vault::new(0, 0, principal_bytes(), None, None);
    assert!(vault.sync_request().is_none());
}

#[test]
fn matching_rules_per_operation_kind() {
    let mut vault = configured_vault();
    let a = register(&mut vault);
    let other = vec![9u8; 32];
    let approve = |from: &[u8], spender: &[u8]| {
        Operation::Approve(Approve {
            from: from.to_vec(),
            spender: spender.to_vec(),
            allowance: E8s { e8s: 1 },
            expected_allowance: None,
            fee: E8s { e8s: 0 },
            expires_at: None,
        })
    };
    let burn = |from: &[u8], spender: Option<Vec<u8>>| {
        Operation::Burn(Burn { from: from.to_vec(), spender, amount: E8s { e8s: 1 } })
    };
    assert!(vault.operation_matches(&approve(&a, &other)));
    assert!(vault.operation_matches(&approve(&other, &a)));
    assert!(!vault.operation_matches(&approve(&other, &other)));
    assert!(vault.operation_matches(&burn(&a, None)));
    assert!(vault.operation_matches(&burn(&other, Some(a.clone()))));
    assert!(!vault.operation_matches(&burn(&other, None)));
    assert!(vault.operation_matches(&transfer(&other, Some(a.clone()), 1).unwrap()));
    assert!(!vault.operation_matches(&transfer(&other, None, 1).unwrap()));
    assert!(!vault.operation_matches(&mint_to(&other).unwrap()));
    // a transfer from a watched address alone does not count
    let from_watched = Operation::Transfer(Transfer {
        to: other.clone(),
        fee: E8s { e8s: 0 },
        from: a.clone(),
        amount: E8s { e8s: 1 },
        spender: None,
    });
    assert!(!vault.operation_matches(&from_watched));
}

#[test]
fn addresses_are_derived_by_the_ledger_rule() {
    let mut vault = configured_vault();
    let principal = Principal::from_text(STATIC_PRINCIPAL).unwrap();
    for n in 0..3u32 {
        let text = vault.register_address();
        let expected = ic_ledger_types::AccountIdentifier::new(
            &principal,
            &ic_ledger_types::Subaccount(convert_to_subaccount(n).0),
        );
        assert_eq!(text, expected.to_hex());
        assert_eq!(text.len(), 64);
        assert_eq!(vault.get_address_by_nonce(n).unwrap(), text);
    }
    assert_eq!(vault.get_address_by_nonce(3).unwrap_err(), VaultError::NotFoundError);
    assert_ne!(vault.get_address_by_nonce(0), vault.get_address_by_nonce(1));
}

#[test]
fn rebuild_gives_back_the_same_addresses() {
    let mut vault = Vault::new(0, 4, principal_bytes(), None, None);
    let before: Vec<String> = (0..4).map(|n| vault.get_address_by_nonce(n).unwrap()).collect();
    let a = hex::decode(&before[2]).unwrap();
    vault.rebuild_index();
    let after: Vec<String> = (0..4).map(|n| vault.get_address_by_nonce(n).unwrap()).collect();
    assert_eq!(before, after);
    assert!(vault.is_watched(&a));
    assert_eq!(vault.get_address_count(), 4);
}

#[test]
fn configure_rejects_invalid_principal_text() {
    assert_eq!(
        Vault::configure(1, 0, "not a principal", STATIC_PRINCIPAL).err(),
        Some(VaultError::ConfigurationError)
    );
    assert_eq!(
        Vault::configure(1, 0, STATIC_PRINCIPAL, "").err(),
        Some(VaultError::ConfigurationError)
    );
    let vault = Vault::configure(30, 2, STATIC_PRINCIPAL, STATIC_PRINCIPAL).unwrap();
    assert_eq!(vault.get_interval(), 30);
    assert_eq!(vault.get_address_count(), 2);
    assert_eq!(vault.ledger_principal(), Some(principal_bytes()));
}

#[test]
fn oldest_block_of_empty_log_is_none() {
    let vault = configured_vault();
    assert_eq!(vault.get_oldest_block(), None);
    assert_eq!(vault.get_transactions_count(), 0);
}

#[test]
fn listing_is_ascending() {
    let vault = vault_with(30, None);
    let listed: Vec<StoredTransactions> = vault.list_transactions(Some(10));
    let keys: Vec<u64> = listed.iter().map(|t| t.index).collect();
    assert_eq!(keys, (21..=30).collect::<Vec<u64>>());
}
