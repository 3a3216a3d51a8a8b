use txn_ledger::account::Account;
use txn_ledger::amount::{Amount, AMOUNT_LIMIT};
use txn_ledger::codec::{
    account_row, decode_account, decode_transaction, transaction_row, DecodeError, RecordLayout,
};
use txn_ledger::engine::Engine;
use txn_ledger::hmap::{ShardedRwLockMap, Shardable, NUM_SHARDS};
use txn_ledger::pipeline::{EngineSerDeserError, RowError};
use txn_ledger::text::{flag_to_text, unsigned_text};
use txn_ledger::transaction::{EngineError, Transaction, TransactionType};

fn amt(s: &str) -> Amount {
    Amount::parse(s).unwrap()
}

fn units(u: i128) -> Amount {
    Amount::from_units(u).unwrap()
}

fn errors_of(engine: &mut Engine, text: &str) -> Vec<RowError> {
    match engine.read_and_process_transactions(text) {
        Ok(()) => Vec::new(),
        Err(es) => es,
    }
}

fn rejections(errors: &[RowError]) -> Vec<EngineError> {
    errors
        .iter()
        .filter_map(|e| match e {
            RowError::Rejected(_, _, err) => Some(*err),
            _ => None,
        })
        .collect()
}

fn account(engine: &Engine, client: u16) -> Account {
    engine.accounts.get(client).expect("account should exist")
}

fn strings(v: &[&str]) -> Vec<String> {
    v.iter().map(|s| s.to_string()).collect()
}

fn layout() -> RecordLayout {
    RecordLayout::from_header(&strings(&["type", "client", "tx", "amount"])).unwrap()
}

#[test]
fn scenario_basic_deposit_withdrawal() {
    let mut engine = Engine::new();
    let errs = errors_of(&mut engine, "type,client,tx,amount\ndeposit,1,1,10.0000\nwithdrawal,1,2,5.0000\n");
    assert!(errs.is_empty());
    let a = account(&engine, 1);
    assert_eq!(a.available, amt("5.0000"));
    assert_eq!(a.held, amt("0.0000"));
    assert_eq!(a.total, amt("5.0000"));
    assert!(!a.locked);
}

#[test]
fn scenario_dispute_then_chargeback() {
    let mut engine = Engine::new();
    let errs = errors_of(&mut engine, "type,client,tx,amount\ndeposit,1,1,10.0000\ndispute,1,1,\nchargeback,1,1,\n");
    assert!(errs.is_empty());
    let a = account(&engine, 1);
    assert_eq!(a.available, amt("0"));
    assert_eq!(a.held, amt("0"));
    assert_eq!(a.total, amt("0"));
    assert!(a.locked);
    // the record stays disputed after the chargeback
    assert!(engine.transaction_log.get(1).unwrap().disputed);
}

#[test]
fn scenario_disputed_withdrawal_holds_negative() {
    let mut engine = Engine::new();
    let errs = errors_of(&mut engine, "type,client,tx,amount\ndeposit,1,1,10.0000\nwithdrawal,1,2,5.0000\ndispute,1,2,\n");
    assert!(errs.is_empty());
    let a = account(&engine, 1);
    assert_eq!(a.available, amt("10.0000"));
    assert_eq!(a.held, amt("-5.0000"));
    assert_eq!(a.total, amt("5.0000"));
    assert!(!a.locked);
}

#[test]
fn scenario_failed_withdrawal_is_not_logged() {
    let mut engine = Engine::new();
    let errs = errors_of(&mut engine, "type,client,tx,amount\ndeposit,9,20,100\nwithdrawal,9,21,200\ndispute,9,21,\n");
    assert_eq!(
        rejections(&errs),
        vec![EngineError::InsufficientFunds, EngineError::TransactionNotFound]
    );
    let a = account(&engine, 9);
    assert_eq!(a.available, amt("100.0000"));
    assert_eq!(a.total, amt("100.0000"));
}

#[test]
fn scenario_locked_account_rejects_activity() {
    let mut engine = Engine::new();
    let errs = errors_of(
        &mut engine,
        "type,client,tx,amount\ndeposit,7,15,10\ndispute,7,15,\nchargeback,7,15,\ndeposit,7,17,10\n",
    );
    assert_eq!(rejections(&errs), vec![EngineError::AccountLocked]);
    let a = account(&engine, 7);
    assert!(a.locked);
    assert_eq!(a.available, amt("0"));
    assert_eq!(a.held, amt("0"));
    assert_eq!(a.total, amt("0"));
    assert!(!engine.transaction_log.contains_key(17));
}

#[test]
fn balances_add_up_after_mixed_batch() {
    let mut engine = Engine::new();
    let _ = errors_of(
        &mut engine,
        "type,client,tx,amount\ndeposit,1,1,10\ndeposit,2,2,7.5\nwithdrawal,1,3,4\ndispute,1,3,\ndispute,2,2,\nresolve,2,2,\ndeposit,3,4,1\ndispute,3,4,\nchargeback,3,4,\nwithdrawal,2,5,100\n",
    );
    for (_, a) in engine.accounts.iter() {
        assert_eq!(a.available.units() + a.held.units(), a.total.units());
    }
    assert_eq!(engine.accounts.iter().len(), 3);
}

#[test]
fn disputed_flag_follows_dispute_and_resolve() {
    let mut engine = Engine::new();
    let _ = errors_of(&mut engine, "type,client,tx,amount\ndeposit,1,1,10\ndeposit,1,2,5\ndispute,1,1,\ndispute,1,2,\nresolve,1,2,\n");
    assert!(engine.transaction_log.get(1).unwrap().disputed);
    assert!(!engine.transaction_log.get(2).unwrap().disputed);
}

#[test]
fn dispute_then_resolve_restores_account() {
    let mut after_deposit = Engine::new();
    let _ = errors_of(&mut after_deposit, "type,client,tx,amount\ndeposit,4,1,12.3456\n");
    let mut engine = Engine::new();
    let errs = errors_of(&mut engine, "type,client,tx,amount\ndeposit,4,1,12.3456\ndispute,4,1,\nresolve,4,1,\n");
    assert!(errs.is_empty());
    assert_eq!(account(&engine, 4), account(&after_deposit, 4));
}

#[test]
fn resolved_deposit_can_be_withdrawn() {
    let mut engine = Engine::new();
    let errs = errors_of(
        &mut engine,
        "type,client,tx,amount\ndeposit,1,1,10\ndispute,1,1,\nresolve,1,1,\nwithdrawal,1,2,10\n",
    );
    assert!(errs.is_empty());
    let a = account(&engine, 1);
    assert_eq!(a, Account { available: amt("0"), held: amt("0"), total: amt("0"), locked: false });
}

#[test]
fn tx_id_reuse_rejected_after_resolve() {
    let mut engine = Engine::new();
    let errs = errors_of(
        &mut engine,
        "type,client,tx,amount\ndeposit,1,1,10\ndispute,1,1,\nresolve,1,1,\ndeposit,1,1,3\n",
    );
    assert_eq!(rejections(&errs), vec![EngineError::TransactionRepeated]);
    assert_eq!(account(&engine, 1).total, amt("10"));
    assert_eq!(account(&engine, 1).available, amt("10"));
}

#[test]
fn rounding_half_away_from_zero() {
    assert_eq!(amt("1.12345"), amt("1.1235"));
    assert_eq!(amt("1.12345").units(), 11235);
    assert_eq!(amt("-1.12345").units(), -11235);
    assert_eq!(amt("0.00004").units(), 0);
    assert_eq!(amt("0.00005").units(), 1);
    assert_eq!(amt("1.123449").units(), 11234);
    assert_eq!(amt(" 2.5 ".trim()).units(), 25000);
    assert_eq!(Amount::round4_half_away_from_zero(-5, 5).units(), -1);
    assert_eq!(Amount::round4_half_away_from_zero(7, 0).units(), 70000);
    assert!(Amount::parse("abc").is_none());
    let mut engine = Engine::new();
    let errs = errors_of(&mut engine, "type,client,tx,amount\ndeposit,1,1,1\nwithdrawal,1,2,0.00004\n");
    assert_eq!(rejections(&errs), vec![EngineError::WithdrawalAmountInvalid]);
}

#[test]
fn addition_overflow_at_the_limit() {
    let half = units(AMOUNT_LIMIT / 2);
    assert_eq!(half.to_text(), "39614081257132168796771975167.5000");
    let deposit = |tx: u32, a: Amount| Transaction {
        ty: TransactionType::Deposit,
        client: 1,
        tx,
        amount: Some(a),
        disputed: false,
    };
    let records = vec![deposit(1, half), deposit(2, half), deposit(3, units(1))];
    let mut engine = Engine::new();
    let errs = engine.process_transactions(&records);
    assert_eq!(errs, vec![(2, EngineError::AdditionOverflow)]);
    assert_eq!(account(&engine, 1).total.units(), AMOUNT_LIMIT);
    assert_eq!(account(&engine, 1).total.to_text(), "79228162514264337593543950335.0000");
}

#[test]
fn subtraction_overflow_after_corrupt_reload() {
    let min = units(-AMOUNT_LIMIT).to_text();
    let log = "type,client,tx,amount\ndeposit,3,3,100.0000\n";
    let accounts = format!("client,available,held,total,locked\n3,{},0,{},false\n", min, min);
    let mut engine = Engine::new();
    engine.load_from_previous_session_csvs(log, &accounts).unwrap();
    let errs = errors_of(&mut engine, "type,client,tx,amount\ndispute,3,3,\n");
    assert_eq!(rejections(&errs), vec![EngineError::SubtractionOverflow]);
}

#[test]
fn every_engine_error_has_an_input() {
    let mut engine = Engine::new();
    let log = "type,client,tx,amount\ndeposit,5,50,\n";
    let accounts = "client,available,held,total,locked\n5,1,0,1,false\n";
    engine.load_from_previous_session_csvs(log, accounts).unwrap();
    let errs = errors_of(
        &mut engine,
        "type,client,tx,amount\n\
         deposit,1,1,\n\
         deposit,1,1,0\n\
         withdrawal,1,1,-1\n\
         deposit,1,1,10\n\
         deposit,1,1,10\n\
         withdrawal,1,2,20\n\
         withdrawal,2,3,1\n\
         dispute,1,99,\n\
         dispute,2,1,\n\
         deposit,2,4,1\n\
         dispute,2,1,\n\
         resolve,1,1,\n\
         dispute,1,1,\n\
         dispute,1,1,\n\
         dispute,5,50,\n\
         chargeback,1,1,\n\
         deposit,1,5,1\n",
    );
    assert_eq!(
        rejections(&errs),
        vec![
            EngineError::NoAmount,
            EngineError::DepositAmountInvalid,
            EngineError::WithdrawalAmountInvalid,
            EngineError::TransactionRepeated,
            EngineError::InsufficientFunds,
            EngineError::AccountNotFound,
            EngineError::TransactionNotFound,
            EngineError::AccountNotFound,
            EngineError::DifferentClient,
            EngineError::TransactionNotDisputed,
            EngineError::TransactionAlreadyDisputed,
            EngineError::ReferredTransactionNoAmount,
            EngineError::AccountLocked,
        ]
    );
    assert_eq!(EngineError::AccountLocked.message(), "Account is locked");
}

#[test]
fn decode_errors_and_case_insensitive_kinds() {
    let l = layout();
    let ok = decode_transaction(&strings(&[" DePoSiT ", " 7 ", " 9 ", " 1.5 "]), &l).unwrap();
    assert_eq!(
        ok,
        Transaction { ty: TransactionType::Deposit, client: 7, tx: 9, amount: Some(amt("1.5")), disputed: false }
    );
    assert_eq!(decode_transaction(&strings(&["deposi", "1", "1", "1"]), &l), Err(DecodeError::UnknownTransactionType));
    assert_eq!(decode_transaction(&strings(&["deposit", "70000", "1", "1"]), &l), Err(DecodeError::InvalidClientId));
    assert_eq!(decode_transaction(&strings(&["deposit", "1", "-1", "1"]), &l), Err(DecodeError::InvalidTxId));
    assert_eq!(decode_transaction(&strings(&["deposit", "1", "1", "1x"]), &l), Err(DecodeError::InvalidDecimal));
    assert_eq!(decode_transaction(&strings(&["deposit", "1"]), &l), Err(DecodeError::MissingField));
    let with_flag = RecordLayout::from_header(&strings(&["type", "client", "tx", "amount", "disputed"])).unwrap();
    assert_eq!(
        decode_transaction(&strings(&["deposit", "1", "1", "1", "maybe"]), &with_flag),
        Err(DecodeError::InvalidBool)
    );
    assert!(decode_transaction(&strings(&["dispute", "1", "1", "", "true"]), &with_flag).unwrap().disputed);
    assert_eq!(RecordLayout::from_header(&strings(&["kind", "client", "tx"])), None);
    let mut engine = Engine::new();
    assert_eq!(errors_of(&mut engine, "kind,client,tx\ndeposit,1,1\n"), vec![RowError::MissingColumns]);
}

#[test]
fn unknown_kind_is_reported_and_batch_continues() {
    let mut engine = Engine::new();
    let errs = errors_of(&mut engine, "type,client,tx,amount\ndeposi,1,1,10\nDEPOSIT,1,2,10\nwitawal,1,3,1\n");
    assert_eq!(
        errs,
        vec![
            RowError::Undecodable(0, DecodeError::UnknownTransactionType),
            RowError::Undecodable(2, DecodeError::UnknownTransactionType),
        ]
    );
    assert_eq!(account(&engine, 1).total, amt("10"));
}

#[test]
fn account_rows_and_snapshot_round_trip() {
    let mut engine = Engine::new();
    let _ = errors_of(&mut engine, "type,client,tx,amount\ndeposit,1,1,10\nwithdrawal,1,2,2.5\ndispute,1,2,\ndeposit,2,3,0.0001\n");
    let a = account(&engine, 1);
    assert_eq!(account_row(1, &a), strings(&["1", "10.0000", "-2.5000", "7.5000", "false"]));
    let t = engine.transaction_log.get(2).unwrap();
    assert_eq!(transaction_row(&t), strings(&["withdrawal", "1", "2", "2.5000", "true"]));
    let mut accounts = String::from("client,available,held,total,locked\n");
    for (c, a) in engine.accounts.iter() {
        accounts.push_str(&account_row(c, &a).join(","));
        accounts.push('\n');
    }
    let mut log = String::from("type,client,tx,amount,disputed\n");
    for (_, t) in engine.transaction_log.iter() {
        log.push_str(&transaction_row(&t).join(","));
        log.push('\n');
    }
    let mut copy = Engine::new();
    copy.load_from_previous_session_csvs(&log, &accounts).unwrap();
    for (c, a) in engine.accounts.iter() {
        assert_eq!(copy.accounts.get(c), Some(a));
    }
    for (k, t) in engine.transaction_log.iter() {
        assert_eq!(copy.transaction_log.get(k), Some(t));
    }
    assert_eq!(copy.accounts.len(), engine.accounts.len());
}

#[test]
fn reload_errors() {
    let log = "type,client,tx,amount\n";
    let mut engine = Engine::new();
    assert_eq!(
        engine.load_from_previous_session_csvs(log, "client,available,held,total,locked\nx,1,1,1,false\n"),
        Err(EngineSerDeserError::InvalidClientId)
    );
    assert_eq!(
        engine.load_from_previous_session_csvs(log, "client,available,held,total,locked\n1,1,q,1,false\n"),
        Err(EngineSerDeserError::InvalidDecimal)
    );
    assert_eq!(
        engine.load_from_previous_session_csvs(log, "client,available,held,total,locked\n1,1,1,1,no\n"),
        Err(EngineSerDeserError::InvalidBool)
    );
    assert_eq!(
        engine.load_from_previous_session_csvs("kind\n", "client,available,held,total,locked\n"),
        Err(EngineSerDeserError::Csv)
    );
    assert!(engine.accounts.is_empty());
    let a = decode_account(&strings(&["1", "1", "2", "3", "true"])).unwrap();
    assert_eq!(a, (1, Account { available: amt("1"), held: amt("2"), total: amt("3"), locked: true }));
}

#[test]
fn text_of_numbers_and_flags() {
    assert_eq!(units(-50000).to_text(), "-5.0000");
    assert_eq!(units(5000).to_text(), "0.5000");
    assert_eq!(units(-1).to_text(), "-0.0001");
    assert_eq!(units(0).to_text(), "0.0000");
    assert_eq!(unsigned_text(65535), "65535");
    assert_eq!(unsigned_text(0), "0");
    assert_eq!(flag_to_text(true), "true");
    assert_eq!(TransactionType::Chargeback.name(), "chargeback");
    assert_eq!(TransactionType::from_name("Resolve"), Some(TransactionType::Resolve));
    assert_eq!(TransactionType::from_name(" resolve"), None);
}

#[test]
fn sharded_map_operations() {
    let mut m: ShardedRwLockMap<u32, u64> = ShardedRwLockMap::new();
    assert!(m.is_empty());
    assert_eq!(m.insert(5, 50), None);
    assert_eq!(m.insert(5, 51), Some(50));
    assert_eq!(m.entry(6, 60), 60);
    assert_eq!(m.entry(6, 61), 60);
    assert_eq!(m.get(5), Some(51));
    assert!(m.contains_key(6));
    assert_eq!(m.len(), 2);
    for k in 100..300u32 {
        m.insert(k, k as u64);
    }
    assert_eq!(m.len(), 202);
    let mut keys: Vec<u32> = m.iter().into_iter().map(|(k, _)| k).collect();
    keys.sort();
    keys.dedup();
    assert_eq!(keys.len(), 202);
    assert_eq!(m.remove(5), Some(51));
    assert_eq!(m.remove(5), None);
    assert_eq!(m.get(5), None);
    assert_eq!(m.len(), 201);
    assert!(!m.is_empty());
}

#[test]
fn shard_indices_are_stable_and_in_range() {
    for k in 0..2000u32 {
        assert!(k.shard() < NUM_SHARDS);
        assert_eq!(k.shard(), k.shard());
        assert_eq!((k as u16).shard(), (k as u16 as u32).shard());
    }
    let wrapped = 3u64.wrapping_mul(0x517cc1b727220a95) & 63;
    assert_eq!(3u32.shard(), wrapped as usize);
    let spread: std::collections::HashSet<usize> = (0..1000u32).map(|k| k.shard()).collect();
    assert!(spread.len() > 32);
}

#[test]
fn batch_of_records_reports_positions() {
    let mut engine = Engine::new();
    let records = vec![
        Transaction { ty: TransactionType::Deposit, client: 1, tx: 1, amount: Some(amt("3")), disputed: false },
        Transaction { ty: TransactionType::Withdrawal, client: 1, tx: 2, amount: Some(amt("4")), disputed: false },
        Transaction { ty: TransactionType::Dispute, client: 2, tx: 1, amount: None, disputed: false },
    ];
    let errs = engine.process_transactions(&records);
    assert_eq!(errs, vec![(1, EngineError::InsufficientFunds), (2, EngineError::AccountNotFound)]);
    assert_eq!(account(&engine, 1).total, amt("3"));
}

/// A reproducible stream whose clients lie in `first_client..=last_client`
/// and whose new ids count up from `first_tx`.
fn stream(n: u32, first_tx: u32, first_client: u16, last_client: u16, seed: u64) -> Vec<Transaction> {
    let mut state = seed;
    let mut next = move || {
        state = state.wrapping_mul(6364136223846793005).wrapping_add(1442695040888963407);
        state >> 33
    };
    let span = (last_client - first_client) as u64 + 1;
    (0..n)
        .map(|i| {
            let client = first_client + (next() % span) as u16;
            let earlier = first_tx + (next() % (i as u64 + 1)) as u32;
            let cents = (next() % 1000 + 1) as i128 * 100;
            let (ty, tx, amount) = match next() % 5 {
                0 => (TransactionType::Deposit, first_tx + i, Some(units(cents))),
                1 => (TransactionType::Withdrawal, first_tx + i, Some(units(cents / 10))),
                2 => (TransactionType::Dispute, earlier, None),
                3 => (TransactionType::Resolve, earlier, None),
                _ => (TransactionType::Chargeback, earlier, None),
            };
            Transaction { ty, client, tx, amount, disputed: false }
        })
        .collect()
}

#[test]
fn reg_test_engine_consistency_with_concurrent_processing() {
    let streams = vec![
        stream(10000, 0, 1, 10, 1),
        stream(10000, 10001, 200, 300, 2),
        stream(10000, 20001, 400, 500, 3),
    ];
    let mut sequential = Engine::new();
    for s in &streams {
        sequential.process_transactions(s);
    }
    let mut interleaved = Engine::new();
    for i in 0..10000 {
        for s in streams.iter().rev() {
            let _ = interleaved.process_transaction(&s[i]);
        }
    }
    let accounts = sequential.accounts.iter();
    assert!(!accounts.is_empty());
    for (client, a) in accounts {
        let b = interleaved.accounts.get(client).expect("Account for client not found in engine2");
        assert_eq!(a.available, b.available, "Available balance mismatch for client {}", client);
        assert_eq!(a.held, b.held, "Held balance mismatch for client {}", client);
        assert_eq!(a.total, b.total, "Total balance mismatch for client {}", client);
        assert_eq!(a.locked, b.locked, "Locked status mismatch for client {}", client);
    }
    assert_eq!(sequential.accounts.len(), interleaved.accounts.len());
}

#[test]
fn single_rows_apply_in_order() {
    let l = layout();
    let mut engine = Engine::new();
    assert_eq!(engine.process_row(&l, 0, &Some(strings(&["deposit", "3", "1", "2"]))), None);
    assert_eq!(engine.process_row(&l, 1, &None), Some(RowError::Unreadable(1)));
    assert_eq!(
        engine.process_row(&l, 2, &Some(strings(&["refund", "3", "2", "1"]))),
        Some(RowError::Undecodable(2, DecodeError::UnknownTransactionType))
    );
    let over = Transaction { ty: TransactionType::Withdrawal, client: 3, tx: 3, amount: Some(amt("5")), disputed: false };
    assert_eq!(
        engine.process_row(&l, 3, &Some(strings(&["withdrawal", "3", "3", "5"]))),
        Some(RowError::Rejected(3, over, EngineError::InsufficientFunds))
    );
    assert_eq!(account(&engine, 3).available, amt("2"));
}

#[test]
fn reload_fails_on_a_bad_log_row() {
    let accounts = "client,available,held,total,locked\n1,5,0,5,false\n";
    let mut engine = Engine::new();
    assert_eq!(
        engine.load_from_previous_session_csvs("type,client,tx,amount\ndeposit,1,1,10\nrefund,1,2,3\n", accounts),
        Err(EngineSerDeserError::Csv)
    );
    assert_eq!(
        engine.load_from_previous_session_csvs("type,client,tx,amount\ndeposit,x,1,10\n", accounts),
        Err(EngineSerDeserError::InvalidClientId)
    );
    assert_eq!(
        engine.load_from_previous_session_csvs("type,client,tx,amount\ndeposit,1,1,10\ndeposit,1,2\n", accounts),
        Err(EngineSerDeserError::Csv)
    );
    assert!(engine.accounts.is_empty());
    assert!(engine.transaction_log.is_empty());
    assert_eq!(
        engine.load_from_previous_session_csvs("type,client,tx,amount\ndeposit,1,1,10\n", accounts),
        Ok(())
    );
    assert_eq!(engine.transaction_log.len(), 1);
}

#[test]
fn integer_fields_read_like_from_str() {
    let l = layout();
    let t = decode_transaction(&strings(&["deposit", "+65535", "4294967295", "1"]), &l).unwrap();
    assert_eq!((t.client, t.tx), (65535, 4294967295));
    assert_eq!(decode_transaction(&strings(&["deposit", "65536", "1", "1"]), &l), Err(DecodeError::InvalidClientId));
    assert_eq!(decode_transaction(&strings(&["deposit", "+", "1", "1"]), &l), Err(DecodeError::InvalidClientId));
    assert_eq!(decode_transaction(&strings(&["deposit", "-0", "1", "1"]), &l), Err(DecodeError::InvalidClientId));
    assert_eq!(decode_transaction(&strings(&["deposit", "1", "4294967296", "1"]), &l), Err(DecodeError::InvalidTxId));
    assert_eq!(decode_transaction(&strings(&["deposit", "1", "", "1"]), &l), Err(DecodeError::InvalidTxId));
    assert_eq!(decode_transaction(&strings(&["deposit", "007", "1", "1"]), &l).unwrap().client, 7);
}

#[test]
fn error_messages_name_each_error() {
    assert_eq!(EngineError::InsufficientFunds.message(), "Insufficient funds");
    assert_eq!(EngineError::AdditionOverflow.message(), "Addition overflow");
    assert_eq!(
        EngineError::TransactionRepeated.message(),
        "Transaction id already processed in this session - cannot be repeated."
    );
}
