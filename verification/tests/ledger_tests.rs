use banker::ledger::{DataFile, LedgerError};
use banker::models::{Banking, Leveling, Member, Profile, Transaction, TransactionAction};
use banker::operation::Operation;
use banker::reconcile::update_transaction;
use banker::username::Username;

fn uname(s: &str) -> Username {
    Username::new(s.to_string())
}

fn tx(amount: i128, timestamp: u128, action: TransactionAction, who: &str) -> Transaction {
    Transaction {
        amount,
        timestamp,
        action,
        initiator_name: who.to_string(),
    }
}

fn profile_of(balance: i128, transactions: Vec<Transaction>) -> Profile {
    Profile {
        members: Vec::new(),
        banking: Banking {
            balance,
            transactions,
        },
    }
}

fn balance_in(db: &DataFile, who: &str) -> Option<i128> {
    db.users
        .iter()
        .find(|(u, _)| u.as_str() == who)
        .map(|(_, b)| *b)
}

#[test]
fn username_strips_formatting_prefix() {
    assert_eq!(uname("\u{a7}6Alice").as_str(), "Alice");
    assert_eq!(uname("Alice").as_str(), "Alice");
    assert_eq!(uname("\u{a7}b").as_str(), "");
    assert_eq!(uname("\u{a7}").as_str(), "\u{a7}");
}

#[test]
fn deposit_inserts_member_at_zero() {
    let mut db = DataFile::new(3);
    let op = Operation::PlayerPurse {
        amount: 40,
        username: uname("a"),
        repeat_count: 1,
    };
    assert!(db.apply_operation(7, op).is_ok());
    assert_eq!(balance_in(&db, "a"), Some(40));
    assert_eq!(db.last_transaction_timestamp, 7);
    assert_eq!(db.operations.len(), 1);
}

#[test]
fn interest_accumulates_in_shared_pool() {
    let mut db = DataFile::new(3);
    assert!(db
        .apply_operation(1, Operation::BankInterests { amount: 5 })
        .is_ok());
    assert!(db
        .apply_operation(2, Operation::BankInterests { amount: 7 })
        .is_ok());
    assert_eq!(db.bank_interests, 12);
    assert!(db.users.is_empty());
}

#[test]
fn anomaly_marker_has_no_financial_effect() {
    let mut db = DataFile::new(3);
    assert!(db.apply_operation(9, Operation::WeirdWaypoint).is_ok());
    assert!(db.users.is_empty());
    assert_eq!(db.bank_interests, 0);
    assert_eq!(db.operations.len(), 1);
    assert!(matches!(db.operations[0].1, Operation::WeirdWaypoint));
}

#[test]
fn transfer_conserves_combined_balance() {
    let mut db = DataFile::new(3);
    db.apply_operation(
        1,
        Operation::PlayerPurse {
            amount: 40,
            username: uname("a"),
            repeat_count: 1,
        },
    )
    .unwrap();
    db.apply_operation(
        2,
        Operation::PlayerPurse {
            amount: 10,
            username: uname("b"),
            repeat_count: 1,
        },
    )
    .unwrap();
    let before = balance_in(&db, "a").unwrap() + balance_in(&db, "b").unwrap();
    db.apply_operation(
        3,
        Operation::PlayerTransfer {
            amount: 15,
            receiver: uname("b"),
            sender: uname("a"),
            repeat_count: 1,
        },
    )
    .unwrap();
    assert_eq!(balance_in(&db, "a"), Some(25));
    assert_eq!(balance_in(&db, "b"), Some(25));
    let after = balance_in(&db, "a").unwrap() + balance_in(&db, "b").unwrap();
    assert_eq!(before, after);
}

#[test]
fn transfer_rejected_and_balances_untouched() {
    let mut db = DataFile::new(3);
    db.apply_operation(
        1,
        Operation::PlayerPurse {
            amount: 40,
            username: uname("a"),
            repeat_count: 1,
        },
    )
    .unwrap();
    // Sender equals receiver.
    let r = db.apply_operation(
        2,
        Operation::PlayerTransfer {
            amount: 5,
            receiver: uname("a"),
            sender: uname("a"),
            repeat_count: 1,
        },
    );
    assert_eq!(r, Err(LedgerError::InvalidTransfer));
    // Unknown sender.
    let r = db.apply_operation(
        2,
        Operation::PlayerTransfer {
            amount: 5,
            receiver: uname("a"),
            sender: uname("ghost"),
            repeat_count: 1,
        },
    );
    assert_eq!(r, Err(LedgerError::InvalidTransfer));
    // Unknown receiver.
    let r = db.apply_operation(
        2,
        Operation::PlayerTransfer {
            amount: 5,
            receiver: uname("ghost"),
            sender: uname("a"),
            repeat_count: 1,
        },
    );
    assert_eq!(r, Err(LedgerError::InvalidTransfer));
    assert_eq!(balance_in(&db, "a"), Some(40));
    assert_eq!(balance_in(&db, "ghost"), None);
    assert_eq!(db.operations.len(), 1);
    assert_eq!(db.last_transaction_timestamp, 1);
}

#[test]
fn batch_is_all_or_nothing() {
    let mut db = DataFile::new(3);
    let batch = vec![
        (
            1,
            Operation::PlayerPurse {
                amount: 40,
                username: uname("a"),
                repeat_count: 1,
            },
        ),
        (
            2,
            Operation::PlayerTransfer {
                amount: 5,
                receiver: uname("nobody"),
                sender: uname("a"),
                repeat_count: 1,
            },
        ),
    ];
    let r = db.apply_batch(&batch);
    assert_eq!(r, Err(LedgerError::InvalidTransfer));
    assert!(db.users.is_empty());
    assert!(db.operations.is_empty());
    assert_eq!(db.last_transaction_timestamp, 0);
}

#[test]
fn reconciliation_drift_formula() {
    // Amounts in tenths of a unit: balances {a: 10.0, b: -3.0}, interest 2.0,
    // authoritative balance 9.5 -> drift 0.5, that is 5 tenths.
    let mut db = DataFile::new(3);
    let feed = vec![
        tx(20, 3, TransactionAction::Deposit, "Bank Interest"),
        tx(30, 2, TransactionAction::Withdraw, "b"),
        tx(100, 1, TransactionAction::Deposit, "a"),
    ];
    let profile = profile_of(95, feed);
    update_transaction(&profile, &mut db, 1000);
    assert_eq!(balance_in(&db, "a"), Some(100));
    assert_eq!(balance_in(&db, "b"), Some(-30));
    assert_eq!(db.bank_interests, 20);
    assert_eq!(db.balance, 95);
    assert_eq!(db.drift, 5);
    assert_eq!(db.last_transaction_timestamp, 3);
    assert_eq!(db.operations.len(), 3);
}

#[test]
fn reconciliation_is_idempotent_without_new_entries() {
    let mut db = DataFile::new(3);
    let feed = vec![
        tx(20, 3, TransactionAction::Deposit, "Bank Interest"),
        tx(30, 2, TransactionAction::Withdraw, "b"),
        tx(100, 1, TransactionAction::Deposit, "a"),
    ];
    update_transaction(&profile_of(95, feed), &mut db, 1000);
    let users_before: Vec<(String, i128)> = db
        .users
        .iter()
        .map(|(u, b)| (u.as_str().to_string(), *b))
        .collect();
    let journal_before = db.operations.len();
    let cursor_before = db.last_transaction_timestamp;
    let interests_before = db.bank_interests;
    // The same feed again: nothing is newer than the cursor.
    let feed = vec![
        tx(20, 3, TransactionAction::Deposit, "Bank Interest"),
        tx(30, 2, TransactionAction::Withdraw, "b"),
        tx(100, 1, TransactionAction::Deposit, "a"),
    ];
    update_transaction(&profile_of(95, feed), &mut db, 2000);
    let users_after: Vec<(String, i128)> = db
        .users
        .iter()
        .map(|(u, b)| (u.as_str().to_string(), *b))
        .collect();
    assert_eq!(users_before, users_after);
    assert_eq!(db.operations.len(), journal_before);
    assert_eq!(db.last_transaction_timestamp, cursor_before);
    assert_eq!(db.bank_interests, interests_before);
}

#[test]
fn interest_label_with_prefix_counts_as_interest() {
    let mut db = DataFile::new(3);
    let feed = vec![tx(
        50,
        1,
        TransactionAction::Deposit,
        "\u{a7}bBank Interest (x2)",
    )];
    update_transaction(&profile_of(50, feed), &mut db, 10);
    assert_eq!(db.bank_interests, 50);
    assert!(db.users.is_empty());
    assert_eq!(db.drift, 0);
}

#[test]
fn anomaly_flagged_once_after_large_batch() {
    let mut db = DataFile::new(3);
    let mut feed = Vec::new();
    // 51 deposits by 51 members, newest first.
    for k in 0..51u32 {
        let ts = (51 - k) as u128;
        feed.push(tx(10, ts, TransactionAction::Deposit, &format!("m{ts}")));
    }
    update_transaction(&profile_of(510, feed), &mut db, 9999);
    assert_eq!(db.operations.len(), 52);
    let markers = db
        .operations
        .iter()
        .filter(|(_, op)| matches!(op, Operation::WeirdWaypoint))
        .count();
    assert_eq!(markers, 1);
    assert!(matches!(db.operations[51].1, Operation::WeirdWaypoint));
    assert_eq!(db.operations[51].0, 9999);
    for ts in 1..=51u128 {
        assert_eq!(balance_in(&db, &format!("m{ts}")), Some(10));
    }
    assert_eq!(db.last_transaction_timestamp, 9999);
}

#[test]
fn upgrade_cap_is_cross_member_max() {
    let member = |tasks: &[&str]| Member {
        leveling: Leveling {
            completed_tasks: tasks.iter().map(|t| t.to_string()).collect(),
        },
    };
    let profile = Profile {
        members: vec![
            member(&["BANK_UPGRADE_GOLD", "BANK_UPGRADE_STARTER"]),
            member(&["BANK_UPGRADE_DELUXE"]),
        ],
        banking: Banking {
            balance: 0,
            transactions: Vec::new(),
        },
    };
    assert_eq!(
        banker::helpers::get_max_balance(&profile),
        Some(250_000_000)
    );
}

#[test]
fn upgrade_cap_unresolved_without_data() {
    let no_members = profile_of(0, Vec::new());
    assert_eq!(banker::helpers::get_max_balance(&no_members), None);
    let unknown_tasks = Profile {
        members: vec![Member {
            leveling: Leveling {
                completed_tasks: vec!["SOMETHING_ELSE".to_string()],
            },
        }],
        banking: Banking {
            balance: 0,
            transactions: Vec::new(),
        },
    };
    assert_eq!(banker::helpers::get_max_balance(&unknown_tasks), None);
}

#[test]
fn upgrade_cap_recorded_on_ledger() {
    let mut db = DataFile::new(3);
    let profile = Profile {
        members: vec![Member {
            leveling: Leveling {
                completed_tasks: vec!["BANK_UPGRADE_PALATIAL".to_string()],
            },
        }],
        banking: Banking {
            balance: 0,
            transactions: Vec::new(),
        },
    };
    update_transaction(&profile, &mut db, 1);
    assert_eq!(db.max_balance, Some(60_000_000_000));
}

#[test]
fn window_delta_of_recent_entries() {
    let now: u128 = 100_000;
    let operations = vec![
        (
            now - 5_000,
            Operation::PlayerPurse {
                amount: 5,
                username: uname("u"),
                repeat_count: 1,
            },
        ),
        (
            now - 1_000,
            Operation::PlayerTransfer {
                amount: 2,
                receiver: uname("v"),
                sender: uname("u"),
                repeat_count: 1,
            },
        ),
    ];
    let deltas = banker::helpers::process_user_balance_evolution(&operations, now);
    let get = |who: &str| {
        deltas
            .iter()
            .find(|(u, _)| u.as_str() == who)
            .map(|(_, d)| *d)
    };
    assert_eq!(get("u"), Some(3));
    assert_eq!(get("v"), Some(2));
    assert_eq!(deltas.len(), 2);
}

#[test]
fn window_excludes_old_and_future_entries() {
    let now: u128 = 200_000_000;
    let operations = vec![
        (
            now - 86_400_001,
            Operation::PlayerPurse {
                amount: 100,
                username: uname("old"),
                repeat_count: 1,
            },
        ),
        (
            now - 86_400_000,
            Operation::PlayerPurse {
                amount: 7,
                username: uname("edge"),
                repeat_count: 1,
            },
        ),
        (
            now + 1,
            Operation::PlayerPurse {
                amount: 9,
                username: uname("future"),
                repeat_count: 1,
            },
        ),
        (
            now,
            Operation::BankInterests { amount: 3 },
        ),
    ];
    let deltas = banker::helpers::process_user_balance_evolution(&operations, now);
    let get = |who: &str| {
        deltas
            .iter()
            .find(|(u, _)| u.as_str() == who)
            .map(|(_, d)| *d)
    };
    assert_eq!(get("old"), None);
    assert_eq!(get("edge"), Some(7));
    assert_eq!(get("future"), None);
    assert_eq!(deltas.len(), 1);
}

#[test]
fn drift_warning_over_tolerance_only() {
    let mut db = DataFile::new(3);
    db.drift = 1;
    assert!(!db.drift_warning());
    db.drift = 2;
    assert!(db.drift_warning());
}

#[test]
fn ledger_total_sums_balances_and_interest() {
    let mut db = DataFile::new(3);
    db.apply_operation(
        1,
        Operation::PlayerPurse {
            amount: 40,
            username: uname("a"),
            repeat_count: 1,
        },
    )
    .unwrap();
    db.apply_operation(
        2,
        Operation::PlayerPurse {
            amount: -15,
            username: uname("b"),
            repeat_count: 1,
        },
    )
    .unwrap();
    db.apply_operation(3, Operation::BankInterests { amount: 4 }).unwrap();
    assert_eq!(db.ledger_total(), 29);
}

#[test]
fn balance_of_reads_single_member() {
    let mut db = DataFile::new(3);
    db.apply_operation(
        1,
        Operation::PlayerPurse {
            amount: 12,
            username: uname("a"),
            repeat_count: 1,
        },
    )
    .unwrap();
    assert_eq!(db.balance_of(&uname("a")), Some(12));
    assert_eq!(db.balance_of(&uname("b")), None);
}

#[test]
fn set_last_check_records_fetch_time() {
    let mut db = DataFile::new(3);
    db.set_last_check(12345);
    assert_eq!(db.last_check_timestamp, 12345);
}

#[test]
fn repeated_deposits_accumulate_on_one_member() {
    let mut db = DataFile::new(3);
    for ts in 1..=3u128 {
        db.apply_operation(
            ts,
            Operation::PlayerPurse {
                amount: 10,
                username: uname("a"),
                repeat_count: 1,
            },
        )
        .unwrap();
    }
    assert_eq!(balance_in(&db, "a"), Some(30));
    assert_eq!(db.users.len(), 1);
    assert_eq!(db.operations.len(), 3);
}

#[test]
fn journal_replay_reproduces_state() {
    let mut db = DataFile::new(3);
    let feed = vec![
        tx(20, 3, TransactionAction::Deposit, "Bank Interest"),
        tx(30, 2, TransactionAction::Withdraw, "b"),
        tx(100, 1, TransactionAction::Deposit, "a"),
    ];
    update_transaction(&profile_of(95, feed), &mut db, 1000);
    // Replaying the journal against a fresh ledger, as the snapshot loader
    // does, reproduces balances, interest and cursor exactly.
    let journal: Vec<(u128, Operation)> = db
        .operations
        .iter()
        .map(|(ts, op)| (*ts, op.clone()))
        .collect();
    let mut replayed = DataFile::new(db.version);
    replayed.apply_batch(&journal).unwrap();
    assert_eq!(balance_in(&replayed, "a"), balance_in(&db, "a"));
    assert_eq!(balance_in(&replayed, "b"), balance_in(&db, "b"));
    assert_eq!(replayed.users.len(), db.users.len());
    assert_eq!(replayed.bank_interests, db.bank_interests);
    assert_eq!(
        replayed.last_transaction_timestamp,
        db.last_transaction_timestamp
    );
    assert_eq!(replayed.operations.len(), db.operations.len());
}
