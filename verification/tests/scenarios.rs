use pay::domain::amount::FixedPoint;
use pay::domain::transaction::Transaction;
use pay::engine::processor::TransactionProcessor;
use pay::io::csv_writer::write_snapshot;
use pay::io::error::IoError;
use pay::io::parse::RawTransactionRecord;
use pay::storage::concurrent::ConcurrentAccountManager;
use pay::storage::concurrent_transaction_store::ConcurrentTransactionStore;
use pay::streaming::error::SilentSkip;
use pay::streaming::single::ProcessingSession;

/// Reads CSV text as the event source does: header `type,client,tx,amount`,
/// fields trimmed, short rows allowed, an empty amount read as no amount.
fn read_events(input: &str) -> Vec<Result<Transaction<FixedPoint>, IoError>> {
    let mut reader = csv::ReaderBuilder::new()
        .trim(csv::Trim::All)
        .flexible(true)
        .from_reader(input.as_bytes());
    let mut events = Vec::new();
    for row in reader.records() {
        let event = match row {
            Err(e) => Err(IoError::from(e)),
            Ok(row) => {
                let field = |i: usize| row.get(i).unwrap_or("").to_string();
                RawTransactionRecord {
                    tx_type: field(0),
                    client: field(1).parse().unwrap(),
                    tx: field(2).parse().unwrap(),
                    amount: Some(field(3)).filter(|text| !text.is_empty()),
                }
                .parse::<FixedPoint>()
            }
        };
        events.push(event);
    }
    events
}

/// Processes CSV text and returns the snapshot.
fn process_csv(input: &str) -> String {
    let processor = TransactionProcessor::new(
        ConcurrentAccountManager::<FixedPoint>::new(),
        ConcurrentTransactionStore::new(),
    );
    let mut session = ProcessingSession::new(processor, SilentSkip);
    session.process_stream(read_events(input));

    let mut output = String::new();
    write_snapshot(session.account_manager(), &mut output).expect("Failed to write snapshot");
    output
}

/// The lines of a snapshot after the header, sorted.
fn rows(output: &str) -> Vec<String> {
    let mut lines = output.lines();
    assert_eq!(lines.next(), Some("client,available,held,total,locked"));
    let mut rows: Vec<String> = lines.map(|line| line.to_string()).collect();
    rows.sort();
    assert!(output.ends_with('\n'));
    rows
}

#[test]
fn simple_deposits_and_withdrawals() {
    let input = "\
type,client,tx,amount
deposit,1,1,1.0
deposit,2,2,2.0
deposit,1,3,2.0
withdrawal,1,4,1.5
withdrawal,2,5,3.0
";

    let output = process_csv(input);

    // Parse output
    assert!(output.contains("client,available,held,total,locked"));

    // Client 1: deposits 1.0 + 2.0 = 3.0, withdraws 1.5 = 1.5 available
    assert!(output.contains("1,1.5000,0.0000,1.5000,false"));

    // Client 2: deposits 2.0, tries to withdraw 3.0 (should fail) = 2.0 available
    assert!(output.contains("2,2.0000,0.0000,2.0000,false"));

    assert_eq!(
        rows(&output),
        vec!["1,1.5000,0.0000,1.5000,false", "2,2.0000,0.0000,2.0000,false"]
    );
}

#[test]
fn dispute_and_resolve() {
    let input = "\
type,client,tx,amount
deposit,1,1,10.0
deposit,1,2,5.0
dispute,1,1,
resolve,1,1,
";

    let output = process_csv(input);

    assert!(output.contains("1,15.0000,0.0000,15.0000,false"));
    assert_eq!(rows(&output), vec!["1,15.0000,0.0000,15.0000,false"]);
}

#[test]
fn dispute_and_chargeback() {
    let input = "\
type,client,tx,amount
deposit,1,1,10.0
deposit,1,2,5.0
dispute,1,1,
chargeback,1,1,
";

    let output = process_csv(input);

    assert!(output.contains("1,5.0000,0.0000,5.0000,true"));
    assert_eq!(rows(&output), vec!["1,5.0000,0.0000,5.0000,true"]);
}

#[test]
fn multiple_clients() {
    let input = "\
type,client,tx,amount
deposit,1,1,100.0
deposit,2,2,200.0
deposit,3,3,300.0
withdrawal,2,4,50.0
";

    let output = process_csv(input);

    assert!(output.contains("1,100.0000,0.0000,100.0000,false"));
    assert!(output.contains("2,150.0000,0.0000,150.0000,false"));
    assert!(output.contains("3,300.0000,0.0000,300.0000,false"));
}

#[test]
fn insufficient_funds_ignored() {
    let input = "\
type,client,tx,amount
deposit,1,1,50.0
withdrawal,1,2,100.0
deposit,1,3,25.0
";

    let output = process_csv(input);

    assert!(output.contains("1,75.0000,0.0000,75.0000,false"));
}

#[test]
fn dispute_nonexistent_transaction_ignored() {
    let input = "\
type,client,tx,amount
deposit,1,1,100.0
dispute,1,999,
";

    let output = process_csv(input);

    assert!(output.contains("1,100.0000,0.0000,100.0000,false"));
}

#[test]
fn decimal_precision() {
    let input = "\
type,client,tx,amount
deposit,1,1,1.2345
deposit,1,2,2.6789
";

    let output = process_csv(input);

    assert!(output.contains("1,3.9134,0.0000,3.9134,false"));
    assert_eq!(rows(&output), vec!["1,3.9134,0.0000,3.9134,false"]);
}

#[test]
fn empty_csv() {
    let input = "\
type,client,tx,amount
";

    let output = process_csv(input);

    assert_eq!(output.trim(), "client,available,held,total,locked");
}

#[test]
fn transactions_on_locked_account() {
    let input = "\
type,client,tx,amount
deposit,1,1,100.0
dispute,1,1,
chargeback,1,1,
deposit,1,2,50.0
withdrawal,1,3,10.0
";

    let output = process_csv(input);

    assert!(output.contains("1,0.0000,0.0000,0.0000,true"));
    assert_eq!(rows(&output), vec!["1,0.0000,0.0000,0.0000,true"]);
}

#[test]
fn held_funds_calculation() {
    let input = "\
type,client,tx,amount
deposit,1,1,50.0
deposit,1,2,30.0
dispute,1,1,
";

    let output = process_csv(input);

    assert!(output.contains("1,30.0000,50.0000,80.0000,false"));
    assert_eq!(rows(&output), vec!["1,30.0000,50.0000,80.0000,false"]);
}

#[test]
fn reads_valid_csv_stream() {
    let csv_data = "\
type,client,tx,amount
deposit,1,1,1.0
deposit,2,2,2.0
withdrawal,1,3,0.5
dispute,1,1,
resolve,1,1,
";
    let mut stream = read_events(csv_data).into_iter();

    // First transaction: deposit
    let tx1 = stream.next().unwrap().unwrap();
    match tx1 {
        Transaction::Deposit {
            client_id,
            tx_id,
            amount,
        } => {
            assert_eq!(client_id, 1);
            assert_eq!(tx_id, 1);
            assert_eq!(amount, FixedPoint::from_raw(10_000));
        }
        _ => panic!("Expected Deposit"),
    }

    // Second transaction: deposit
    let tx2 = stream.next().unwrap().unwrap();
    match tx2 {
        Transaction::Deposit {
            client_id,
            tx_id,
            amount,
        } => {
            assert_eq!(client_id, 2);
            assert_eq!(tx_id, 2);
            assert_eq!(amount, FixedPoint::from_raw(20_000));
        }
        _ => panic!("Expected Deposit"),
    }

    // Third transaction: withdrawal
    let tx3 = stream.next().unwrap().unwrap();
    match tx3 {
        Transaction::Withdrawal {
            client_id,
            tx_id,
            amount,
        } => {
            assert_eq!(client_id, 1);
            assert_eq!(tx_id, 3);
            assert_eq!(amount, FixedPoint::from_raw(5_000));
        }
        _ => panic!("Expected Withdrawal"),
    }

    // Fourth transaction: dispute
    let tx4 = stream.next().unwrap().unwrap();
    assert!(matches!(
        tx4,
        Transaction::Dispute {
            client_id: 1,
            tx_id: 1
        }
    ));

    // Fifth transaction: resolve
    let tx5 = stream.next().unwrap().unwrap();
    assert!(matches!(
        tx5,
        Transaction::Resolve {
            client_id: 1,
            tx_id: 1
        }
    ));

    // End of stream
    assert!(stream.next().is_none());
}

#[test]
fn handles_whitespace() {
    let csv_data = "\
type,client,tx,amount
  deposit  ,  1  ,  1  ,  1.5000
";
    let mut stream = read_events(csv_data).into_iter();

    let tx = stream.next().unwrap().unwrap();
    match tx {
        Transaction::Deposit {
            client_id,
            tx_id,
            amount,
        } => {
            assert_eq!(client_id, 1);
            assert_eq!(tx_id, 1);
            assert_eq!(amount, FixedPoint::from_raw(15_000));
        }
        _ => panic!("Expected Deposit"),
    }
}

#[test]
fn handles_missing_amount_for_dispute() {
    let csv_data = "\
type,client,tx,amount
dispute,1,1,
";
    let mut stream = read_events(csv_data).into_iter();

    let tx = stream.next().unwrap().unwrap();
    assert!(matches!(tx, Transaction::Dispute { .. }));
}

#[test]
fn returns_error_for_invalid_transaction_type() {
    let csv_data = "\
type,client,tx,amount
invalid,1,1,1.0
";
    let mut stream = read_events(csv_data).into_iter();

    let result = stream.next().unwrap();
    assert!(matches!(result, Err(IoError::InvalidTransactionType(_))));
}

#[test]
fn returns_error_for_missing_required_amount() {
    let csv_data = "\
type,client,tx,amount
deposit,1,1,
";
    let mut stream = read_events(csv_data).into_iter();

    let result = stream.next().unwrap();
    assert!(matches!(result, Err(IoError::MissingField(_))));
}

#[test]
fn returns_error_for_invalid_amount() {
    let csv_data = "\
type,client,tx,amount
deposit,1,1,not_a_number
";
    let mut stream = read_events(csv_data).into_iter();

    let result = stream.next().unwrap();
    assert!(matches!(result, Err(IoError::InvalidAmount(_))));
}

#[test]
fn handles_empty_csv() {
    let csv_data = "\
type,client,tx,amount
";
    let mut stream = read_events(csv_data).into_iter();

    assert!(stream.next().is_none());
}

#[test]
fn handles_all_transaction_types() {
    let csv_data = "\
type,client,tx,amount
deposit,1,1,1.0
withdrawal,1,2,0.5
dispute,1,1,
resolve,1,1,
chargeback,1,1,
";
    let transactions = read_events(csv_data);
    assert_eq!(transactions.len(), 5);
    assert!(transactions.iter().all(|r| r.is_ok()));
}
