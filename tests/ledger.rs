use rust_decimal::Decimal;
use txn_ledger::account::Account;
use txn_ledger::amount::Amount;
use txn_ledger::codec::DecodeError;
use txn_ledger::engine::Engine;
use txn_ledger::pipeline::RowError;
use txn_ledger::transaction::{EngineError, Transaction, TransactionType};

fn amt(s: &str) -> Amount {
    Amount::parse(s).unwrap()
}

fn describe(e: &RowError) -> String {
    match e {
        RowError::MissingColumns => "Missing columns".to_string(),
        RowError::Unreadable(i) => format!("Error reading transaction record {}", i),
        RowError::Undecodable(_, DecodeError::UnknownTransactionType) => {
            "Error reading transaction record: Unknown transaction type".to_string()
        }
        RowError::Undecodable(_, d) => format!("Error reading transaction record: {:?}", d),
        RowError::Rejected(_, t, err) => format!("Error processing {:?}: {}", t, err.message()),
    }
}

fn run(engine: &mut Engine, text: &str) -> Result<(), Vec<String>> {
    engine
        .read_and_process_transactions(text)
        .map_err(|es| es.iter().map(describe).collect())
}

fn account(engine: &Engine, client: u16) -> Account {
    engine.accounts.get(client).expect("account should exist")
}

#[test]
fn unit_test_deposit_and_withdrawal() {
    let csv_content = r#"type,client,tx,amount,\n
                                deposit,1, 1, 10.0000,\n
                                withdrawal, 1, 2, 5.0000,\n"#;
    let mut engine = Engine::default();
    let _ = run(&mut engine, csv_content);
    assert_eq!(engine.accounts.len(), 1, "There should be one account");
    let account = account(&engine, 1);
    assert_eq!(account.total, amt("5.0000"), "Total should be 5 after deposit and withdrawal");
    assert_eq!(account.available, amt("5.0000"), "Available should match total since no disputes");
    assert_eq!(account.held, amt("0.0000"), "Held should be 0");
}

#[test]
fn unit_test_deposit_and_dispute() {
    let csv_content = r#"type,client,tx,amount,\n
                                deposit,1,1,10.0000,\n
                                dispute,1,1,,\n"#;
    let mut engine = Engine::default();
    let _ = run(&mut engine, csv_content);
    assert_eq!(engine.accounts.len(), 1, "There should be one account");
    let account = account(&engine, 1);
    assert_eq!(account.total, amt("10.0000"), "Total should remain 10 after dispute");
    assert_eq!(account.available, amt("0.0000"), "Available should be 0 after dispute");
    assert_eq!(account.held, amt("10.0000"), "Held should be 10 after dispute");
}

#[test]
fn unit_test_dispute_deposit_after_withdrawal() {
    let csv_content = r#"type,client,tx,amount,\n
                                deposit,1,1,10.0000,\n
                                deposit,1,2,20.0000,\n
                                withdrawal,1,3,20.0000,\n;
                                dispute,1,2,,\n"#;
    let mut engine = Engine::default();
    let _ = run(&mut engine, csv_content);
    assert_eq!(engine.accounts.len(), 1, "Account should exist even if zero balance");
    let account = account(&engine, 1);
    assert_eq!(account.total, amt("10.0000"), "Total should be 10 after failed withdrawal");
    assert_eq!(
        account.available,
        amt("-10.0000"),
        "Available should be -10 after failed withdrawal and dispute"
    );
    assert_eq!(account.held, amt("20.0000"), "Held should be 20 after dispute");
}

#[test]
fn unit_test_double_dispute() {
    let csv_content = r#"type,client,tx,amount,\n
                                deposit,1,1,10.0000,\n
                                deposit,1,2,20.0000,\n
                                withdrawal,1,3,5.0000,\n;
                                dispute,1,3,,\n
                                dispute,1,2,,\n"#;
    let mut engine = Engine::default();
    let _ = run(&mut engine, csv_content);
    assert_eq!(engine.accounts.len(), 1, "There should be one account");
    let account = account(&engine, 1);
    assert_eq!(account.total, amt("25.0000"), "Total should remain 25 after dispute");
    assert_eq!(account.available, amt("10.0000"), "Available should be 10 after dispute");
    assert_eq!(account.held, amt("15.0000"), "Held should be 15 after dispute");
}

#[test]
fn unit_test_txid_reused_after_dispute_and_resolve() {
    let csv_content = r#"type,client,tx,amount,\n
                                deposit,1,1,10.0000,\n
                                deposit,1,2,20.0000,\n
                                dispute,1,2,,\n#
                                resolve,1,2,,\n
                                deposit,1,2,20.0000,\n"#;
    let mut engine = Engine::default();
    match engine.read_and_process_transactions(csv_content) {
        Ok(()) => panic!("a repeated transaction id is expected to fail"),
        Err(es) => {
            assert_eq!(es.len(), 1);
            let repeated = Transaction {
                ty: TransactionType::Deposit,
                client: 1,
                tx: 2,
                amount: Some(amt("20.0000")),
                disputed: false,
            };
            assert_eq!(es[0], RowError::Rejected(4, repeated, EngineError::TransactionRepeated));
            assert!(describe(&es[0])
                .contains("Transaction id already processed in this session - cannot be repeated"));
        }
    }
    assert_eq!(engine.accounts.len(), 1, "Account should exist even if zero balance");
    let account = account(&engine, 1);
    assert_eq!(account.total, amt("30.0000"), "Total should be 30");
    assert_eq!(account.available, amt("30.0000"), "Available should be 30");
    assert_eq!(account.held, amt("0.0000"), "Held should be 0");
}

#[test]
fn unit_test_deposit_and_dispute_resolve() {
    let csv_content = r#"type,client,tx,amount,\n
                                deposit,1,1,10.0000,\n
                                dispute,1,1,,\n
                                resolve,1,1,,\n"#;
    let mut engine = Engine::default();
    let _ = run(&mut engine, csv_content);
    assert_eq!(engine.accounts.len(), 1, "There should be one account");
    let account = account(&engine, 1);
    assert_eq!(account.total, amt("10.0000"), "Total should remain 10 after dispute");
    assert_eq!(account.available, amt("10.0000"), "Available should be 10 after resolve");
    assert_eq!(account.held, amt("0.0000"), "Held should be 0 after resolve");
}

#[test]
fn unit_test_deposit_and_dispute_chargeback() {
    let csv_content = r#"type,client,tx,amount,\n
                                deposit,1,1,10.0000,\n
                                dispute,1,1,,\n
                                chargeback,1,1,,\n"#;
    let mut engine = Engine::default();
    let _ = run(&mut engine, csv_content);
    assert_eq!(engine.accounts.len(), 1, "There should be one account");
    let account = account(&engine, 1);
    assert_eq!(account.total, amt("0.0000"), "Total should be 0 after chargeback");
    assert_eq!(account.available, amt("0.0000"), "Available should be 0 after chargeback");
    assert_eq!(account.held, amt("0.0000"), "Held should be 0 after chargeback");
    assert_eq!(account.locked, true, "Account must be locked after chargeback");
}

#[test]
fn unit_test_deposit_withdrawal_dispute_withdrawal() {
    let csv_content = r#"type,client,tx,amount,\n
                                deposit,1,1,10.0000,\n
                                withdrawal,1,2,5.0000,\n
                                dispute,1,2,,\n"#;
    let mut engine = Engine::default();
    let _ = run(&mut engine, csv_content);
    assert_eq!(engine.accounts.len(), 1, "There should be one account");
    let account = account(&engine, 1);
    assert_eq!(account.total, amt("5.0000"), "Total should be 5 after transactions");
    assert_eq!(account.available, amt("10.0000"), "Available should reflect disputed withdrawal");
    assert_eq!(account.held, amt("-5.0000"), "Held should be -5 for disputed withdrawal");
}

#[test]
fn unit_test_deposit_withdrawal_too_much() {
    let csv_content = r#"type,client,tx,amount,\n
                                deposit,1,1,10.0000,\n
                                withdrawal,1,2,15.0000,\n"#;
    let mut engine = Engine::default();
    match run(&mut engine, csv_content) {
        Ok(()) => panic!("an overdrawing withdrawal is expected to fail"),
        Err(e) => assert!(
            e.iter().any(|m| m.contains("Insufficient funds")),
            "Expected `Insufficient funds` error"
        ),
    }
    assert_eq!(engine.accounts.len(), 1, "There should be one account");
    let account = account(&engine, 1);
    assert_eq!(account.total, amt("10.0000"), "Total should remain 10 after failed withdrawal");
    assert_eq!(account.available, amt("10.0000"), "Available should remain 10 after failed withdrawal");
    assert_eq!(account.held, amt("0.0000"), "Held should be 0");
}

#[test]
fn unit_test_deposit_negative() {
    let csv_content = r#"type,client,tx,amount,\n
                                deposit,1,1,10.0000,\n
                                deposit,1,2,-15.0000,\n"#;
    let mut engine = Engine::default();
    match run(&mut engine, csv_content) {
        Ok(()) => panic!("a negative deposit is expected to fail"),
        Err(e) => assert!(
            e.iter().any(|m| m.contains("Deposit amount must be greater than 0")),
            "Expected `Deposit amount must be greater than 0` error."
        ),
    }
    assert_eq!(engine.accounts.len(), 1, "There should be one account");
    let account = account(&engine, 1);
    assert_eq!(account.total, amt("10.0000"), "Total should remain 10 after failed withdrawal");
    assert_eq!(account.available, amt("10.0000"), "Available should remain 10 after failed withdrawal");
    assert_eq!(account.held, amt("0.0000"), "Held should be 0");
}

#[test]
fn unit_test_withdrawal_negative() {
    let csv_content = r#"type,client,tx,amount,\n
                                deposit,1,1,10.0000,\n
                                withdrawal,1,2,-15.0000,\n"#;
    let mut engine = Engine::default();
    match run(&mut engine, csv_content) {
        Ok(()) => panic!("a negative withdrawal is expected to fail"),
        Err(e) => assert!(
            e.iter().any(|m| m.contains("Withdrawal amount must be greater than 0")),
            "Expected `Withdrawal amount must be greater than 0` error."
        ),
    }
    assert_eq!(engine.accounts.len(), 1, "There should be one account");
    let account = account(&engine, 1);
    assert_eq!(account.total, amt("10.0000"), "Total should remain 10 after failed withdrawal");
    assert_eq!(account.available, amt("10.0000"), "Available should remain 10 after failed withdrawal");
    assert_eq!(account.held, amt("0.0000"), "Held should be 0");
}

#[test]
fn unit_test_withdrawal_from_zero() {
    let csv_content = r#"type,client,tx,amount,\n
                                deposit,1,1,10.0000,\n
                                withdrawal,1,2,50.0000,\n"#;
    let mut engine = Engine::default();
    match run(&mut engine, csv_content) {
        Ok(()) => panic!("an overdrawing withdrawal is expected to fail"),
        Err(e) => assert!(
            e.iter().any(|m| m.contains("Insufficient funds")),
            "Expected insufficient funds error"
        ),
    }
    assert_eq!(engine.accounts.len(), 1, "Account should exist even if zero balance");
    let account = account(&engine, 1);
    assert_eq!(account.total, amt("10.0000"), "Total should be 0 after failed withdrawal attempt");
    assert_eq!(account.available, amt("10.0000"), "Available should be 0 after failed withdrawal attempt");
    assert_eq!(account.held, amt("0.0000"), "Held should be 0");
}

#[test]
fn unit_test_addition_overflow() {
    let large_amount = (Decimal::MAX / Decimal::from(2)).to_string();
    let csv_content = format!(
        r#"type,client,tx,amount,\n
                                deposit,1,1,{},\n
                                deposit,1,2,{},\n
                                withdrawal,1,3,{},\n"#,
        large_amount, large_amount, large_amount
    );
    let mut engine = Engine::default();
    match run(&mut engine, &csv_content) {
        Ok(()) => panic!("processing should fail due to overflow"),
        Err(e) => assert!(
            e.iter().any(|m| m.contains("Addition overflow")),
            "Expected `Addition overflow` error"
        ),
    }
    assert_eq!(engine.accounts.len(), 1, "There should be one account");
}

#[test]
fn unit_test_decimal_precision() {
    let csv_content = r#"type,client,tx,amount,\n
                                deposit,1,1,1.123456,\n
                                deposit,1,2,1.12345,\n
                                deposit,1,3,1.1234,\n
                                deposit,1,4,1.123,\n
                                deposit,1,5,1.12,\n
                                deposit,1,6,1.1,\n
                                deposit,1,7,1,\n
                                withdrawal,1,8,0.00045,\n
                                withdrawal,1,9,0.000045,\n
                                withdrawal,1,10,0.0000045,"#;
    let mut engine = Engine::default();
    match run(&mut engine, csv_content) {
        Ok(()) => panic!("withdrawals that round to zero are expected to fail"),
        Err(e) => assert!(
            e.iter().any(|m| m.contains("Withdrawal amount must be greater than 0")),
            "Expected `Withdrawal amount must be greater than 0`error"
        ),
    }
    let account = account(&engine, 1);
    assert_eq!(account.total, amt("7.7129"));
    assert_eq!(account.available, amt("7.7129"));
    assert_eq!(account.held, amt("0.0000"));
}

#[test]
fn unit_test_subrtaction_overflow() {
    let transactions = "type,client,tx,amount\n
                                        deposit,1,1,10.0000\n
                                        deposit,2,2,5.0000\n
                                        deposit,3,3,100.0000\n
                                        withdrawal,1,4,5.0000";
    let large_neg_amount = (Decimal::MIN + Decimal::from(1)).to_string();
    let accounts = format!(
        r#"client,available,held,total,locked,\n
        1,5.0000,0.0000,5.0000,false,\n
        2,5.0000,0.0000,5.0000,false,\n
        3,{},{},{},false,\n"#,
        large_neg_amount, large_neg_amount, large_neg_amount
    );
    let mut engine = Engine::new();
    engine
        .load_from_previous_session_csvs(transactions, &accounts)
        .expect("Failed to load from CSV");
    let csv_content = r#"type,client,tx,amount,\n
           dispute,3,3,,\n"#;
    match run(&mut engine, csv_content) {
        Ok(()) => panic!("processing should fail due to overflow"),
        Err(e) => assert!(
            e.iter().any(|m| m.contains("Subtraction overflow")),
            "Expected `Subtraction overflow` error"
        ),
    }
}

#[test]
fn reg_test_load_from_previous_session_csv() {
    let transactions = "type,client,tx,amount\n
                                        deposit,1,1,10.0000\n
                                        deposit,2,2,5.0000\n
                                        withdrawal,1,3,5.0000";
    let accounts = "client,available,held,total,locked\n
                                   1,5.0000,0.0000,5.0000,false\n
                                   2,5.0000,0.0000,5.0000,false";
    let mut engine = Engine::new();
    engine
        .load_from_previous_session_csvs(transactions, accounts)
        .expect("Failed to load from CSV");

    assert_eq!(engine.transaction_log.len(), 3);
    let tx1 = engine.transaction_log.get(1).unwrap();
    assert_eq!(tx1.ty, TransactionType::Deposit);
    assert_eq!(tx1.client, 1);
    assert_eq!(tx1.tx, 1);
    assert_eq!(tx1.amount, Amount::from_units(10_0000));

    let tx2 = engine.transaction_log.get(3).unwrap();
    assert_eq!(tx2.ty, TransactionType::Withdrawal);
    assert_eq!(tx2.client, 1);
    assert_eq!(tx2.tx, 3);
    assert_eq!(tx2.amount, Amount::from_units(5_0000));

    assert_eq!(engine.accounts.len(), 2);
    let account = engine.accounts.get(1).unwrap();
    assert_eq!(Some(account.available), Amount::from_units(5_0000));
    assert_eq!(Some(account.held), Amount::from_units(0));
    assert_eq!(Some(account.total), Amount::from_units(5_0000));
    assert!(!account.locked);
}
