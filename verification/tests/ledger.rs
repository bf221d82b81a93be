use rand::Rng;
use std::collections::HashMap;
use wallet_ledger::balance::{compute_balance, compute_balance_checked};
use wallet_ledger::db_session_manager::DbSessionManager;
use wallet_ledger::error::StoreError;
use wallet_ledger::transaction::{
    distinct_wallets, DbTransaction, Transaction, TransactionRecord, TransactionType,
    WalletTransactionsRequest,
};

fn tx(wallet: &str, t: TransactionType, amount: i64) -> Transaction {
    Transaction {
        wallet_address: wallet.to_string(),
        transaction_type: t,
        amount,
    }
}

#[test]
fn test_calculate_wallet_balance() {
    let mut db = DbSessionManager::new();
    db.delete_transactions().unwrap();

    let mut rng = rand::thread_rng();
    let wallets = vec!["0x1", "0x2", "0x3"];
    let mut expected_balances = HashMap::new();

    // create test txs
    for wallet in &wallets {
        let mut balance = 0;
        for _ in 0..3 {
            let tx_type = if rng.gen_bool(0.5) {
                TransactionType::Deposit
            } else {
                TransactionType::Withdraw
            };

            let amount = rng.gen_range(10..100);
            balance += match tx_type {
                TransactionType::Deposit => amount.clone(),
                TransactionType::Withdraw => -amount.clone(),
            };

            let tx = Transaction {
                wallet_address: wallet.to_string(),
                transaction_type: tx_type,
                amount,
            };

            db.insert_transactions(vec![tx]).unwrap();
        }
        expected_balances.insert(wallet.to_string(), balance);
    }

    // assert
    for wallet in wallets {
        if let Ok(Some(balance)) = db.calculate_balance(wallet) {
            println!(
                "Wallet: {}, Expected: {}, Got: {}",
                wallet, expected_balances[wallet], balance
            );
            assert_eq!(balance, expected_balances[wallet]);
        }
    }
}

#[test]
fn test_empty_history_balance_is_zero() {
    let records: Vec<TransactionRecord> = Vec::new();
    assert_eq!(compute_balance(&records), 0);
    assert_eq!(compute_balance_checked(&records), Some(0));
}

#[test]
fn test_fold_is_order_independent() {
    let forward = vec![
        TransactionRecord {
            id: 1,
            wallet_address: "0x1".to_string(),
            transaction_type: TransactionType::Deposit,
            amount: 100,
        },
        TransactionRecord {
            id: 2,
            wallet_address: "0x1".to_string(),
            transaction_type: TransactionType::Withdraw,
            amount: 30,
        },
        TransactionRecord {
            id: 3,
            wallet_address: "0x1".to_string(),
            transaction_type: TransactionType::Deposit,
            amount: 7,
        },
    ];
    let mut backward = forward.clone();
    backward.reverse();
    assert_eq!(compute_balance(&forward), 77);
    assert_eq!(compute_balance(&backward), 77);
}

#[test]
fn test_insert_then_scan_round_trip() {
    let mut db = DbSessionManager::new();
    let batch = vec![
        tx("0x1", TransactionType::Deposit, 100),
        tx("0x1", TransactionType::Withdraw, 50),
        tx("0x1", TransactionType::Deposit, 369),
    ];
    db.insert_transactions(batch).unwrap();

    let records = db.scan_by_wallet("0x1").unwrap();
    assert_eq!(records.len(), 3);
    let mut pairs: Vec<(bool, i64)> = records
        .iter()
        .map(|r| (matches!(r.transaction_type, TransactionType::Deposit), r.amount))
        .collect();
    pairs.sort();
    assert_eq!(pairs, vec![(false, 50), (true, 100), (true, 369)]);
}

#[test]
fn test_scan_keeps_ids_fresh_and_increasing() {
    let mut db = DbSessionManager::new();
    db.insert_transactions(vec![
        tx("0x1", TransactionType::Deposit, 1),
        tx("0x1", TransactionType::Deposit, 2),
    ])
    .unwrap();
    let first = db.scan_by_wallet("0x1").unwrap();
    assert_eq!(first[0].id, 1);
    assert_eq!(first[1].id, 2);

    // A full clear does not rewind the key counter: ids are never reused.
    db.delete_transactions().unwrap();
    db.insert_transactions(vec![tx("0x1", TransactionType::Deposit, 3)])
        .unwrap();
    let second = db.scan_by_wallet("0x1").unwrap();
    assert_eq!(second.len(), 1);
    assert_eq!(second[0].id, 3);
}

#[test]
fn test_isolation_across_wallets() {
    let mut db = DbSessionManager::new();
    db.insert_transactions(vec![tx("0x2", TransactionType::Deposit, 40)])
        .unwrap();
    let before = db.calculate_balance("0x2").unwrap();

    db.insert_transactions(vec![
        tx("0x1", TransactionType::Deposit, 1000),
        tx("0x1", TransactionType::Withdraw, 999),
    ])
    .unwrap();
    let after = db.calculate_balance("0x2").unwrap();

    assert_eq!(before, Some(40));
    assert_eq!(after, Some(40));
    assert_eq!(db.scan_by_wallet("0x2").unwrap().len(), 1);
}

#[test]
fn test_idempotent_reset() {
    let mut db = DbSessionManager::new();
    db.insert_transactions(vec![
        tx("0x1", TransactionType::Deposit, 10),
        tx("0x2", TransactionType::Withdraw, 20),
        tx("0x3", TransactionType::Deposit, 30),
    ])
    .unwrap();

    db.delete_transactions().unwrap();

    for wallet in ["0x1", "0x2", "0x3", "anything-else"] {
        assert_eq!(db.scan_by_wallet(wallet).unwrap().len(), 0);
        assert_eq!(db.calculate_balance(wallet).unwrap(), Some(0));
    }
}

#[test]
fn test_deposit_withdraw_deposit_scenario() {
    let mut db = DbSessionManager::new();
    db.insert_transactions(vec![
        tx("0x1", TransactionType::Deposit, 100),
        tx("0x1", TransactionType::Withdraw, 50),
        tx("0x1", TransactionType::Deposit, 369),
    ])
    .unwrap();
    assert_eq!(db.calculate_balance("0x1").unwrap(), Some(419));
}

#[test]
fn test_unknown_wallet_reads_zero() {
    let mut db = DbSessionManager::new();
    // A wallet that never transacted has balance zero, indistinguishable
    // from one whose movements cancel out.
    assert_eq!(db.calculate_balance("never-seen").unwrap(), Some(0));
    db.insert_transactions(vec![tx("0x1", TransactionType::Deposit, 5)])
        .unwrap();
    assert_eq!(db.calculate_balance("never-seen").unwrap(), Some(0));
}

#[test]
fn test_balance_overflow_is_an_error() {
    let mut db = DbSessionManager::new();
    db.insert_transactions(vec![
        tx("0x1", TransactionType::Deposit, i64::MAX),
        tx("0x1", TransactionType::Deposit, 1),
    ])
    .unwrap();
    assert_eq!(
        db.calculate_balance("0x1"),
        Err(StoreError::BalanceOverflow)
    );
    // Withdrawing brings the exact balance back into range.
    db.insert_transactions(vec![tx("0x1", TransactionType::Withdraw, i64::MAX)])
        .unwrap();
    assert_eq!(db.calculate_balance("0x1").unwrap(), Some(1));
}

#[test]
fn test_parse_tag_accepts_only_canonical_tags() {
    assert_eq!(
        TransactionType::parse_tag(&"Deposit".to_string()),
        Ok(TransactionType::Deposit)
    );
    assert_eq!(
        TransactionType::parse_tag(&"Withdraw".to_string()),
        Ok(TransactionType::Withdraw)
    );
    assert_eq!(
        TransactionType::parse_tag(&"deposit".to_string()),
        Err(StoreError::DecodeFailed)
    );
    assert_eq!(
        TransactionType::parse_tag(&"Transfer".to_string()),
        Err(StoreError::DecodeFailed)
    );
}

#[test]
fn test_db_transaction_from_encodes_tag() {
    let row = DbTransaction::from(tx("0x9", TransactionType::Withdraw, 12));
    assert_eq!(row.wallet_address, "0x9");
    assert_eq!(row.transaction_type, "Withdraw");
    assert_eq!(row.amount, 12);
    assert_eq!(
        TransactionType::Deposit.to_tag_string(),
        "Deposit".to_string()
    );
}

#[test]
fn test_distinct_wallets_drops_duplicates() {
    let request = WalletTransactionsRequest {
        transactions: vec![
            tx("0x1", TransactionType::Deposit, 1),
            tx("0x2", TransactionType::Deposit, 2),
            tx("0x1", TransactionType::Withdraw, 3),
            tx("0x3", TransactionType::Deposit, 4),
            tx("0x2", TransactionType::Deposit, 5),
        ],
    };
    let wallets = distinct_wallets(&request.transactions);
    assert_eq!(wallets, vec!["0x1", "0x2", "0x3"]);
}

#[test]
fn test_balance_summary_reports_each_wallet() {
    let mut db = DbSessionManager::new();
    db.insert_transactions(vec![
        tx("0x1", TransactionType::Deposit, 100),
        tx("0x2", TransactionType::Withdraw, 25),
        tx("0x1", TransactionType::Withdraw, 40),
    ])
    .unwrap();
    let wallets = vec!["0x1".to_string(), "0x2".to_string(), "0x3".to_string()];
    let summary = db.balance_summary(&wallets).unwrap();
    assert_eq!(
        summary,
        vec![
            ("0x1".to_string(), 60),
            ("0x2".to_string(), -25),
            ("0x3".to_string(), 0),
        ]
    );
}

#[test]
fn test_balance_summary_propagates_an_overflow() {
    let mut db = DbSessionManager::new();
    db.insert_transactions(vec![
        tx("0x2", TransactionType::Deposit, 7),
        tx("0x1", TransactionType::Deposit, i64::MAX),
        tx("0x1", TransactionType::Deposit, i64::MAX),
    ])
    .unwrap();
    // One wallet's balance erroring fails the whole summary: no wallet is
    // silently skipped.
    let wallets = vec!["0x2".to_string(), "0x1".to_string()];
    assert_eq!(
        db.balance_summary(&wallets),
        Err(StoreError::BalanceOverflow)
    );
}

#[test]
fn test_withdrawals_may_drive_balance_negative() {
    let mut db = DbSessionManager::new();
    db.insert_transactions(vec![tx("0x1", TransactionType::Withdraw, 75)])
        .unwrap();
    assert_eq!(db.calculate_balance("0x1").unwrap(), Some(-75));
}

#[test]
fn test_insert_empty_batch_is_a_noop() {
    let mut db = DbSessionManager::new();
    db.insert_transactions(Vec::new()).unwrap();
    assert_eq!(db.scan_by_wallet("0x1").unwrap().len(), 0);
    assert_eq!(db.calculate_balance("0x1").unwrap(), Some(0));
}
