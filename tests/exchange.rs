use exchange::{ClientProfile, Currency, Exchange, Transaction, Type};
use std::collections::HashMap;

fn money(text: &str) -> Currency {
    Currency::parse(text).unwrap()
}

#[test]
fn it_should_handle_deposits_and_withdrawals_for_multiple_clients() {
    let mut exchange = Exchange::new();
    let tx91 = Transaction {
        tx_type: Type::Deposit,
        client: 1,
        tx: 91,
        amount: Some(money("123.0")),
        under_dispute: false,
    };
    let tx92 = Transaction {
        tx_type: Type::Deposit,
        client: 2,
        tx: 92,
        amount: Some(money("55.0")),
        under_dispute: false,
    };
    let tx93 = Transaction {
        tx_type: Type::Withdrawal,
        client: 2,
        tx: 93,
        amount: Some(money("44.0")),
        under_dispute: false,
    };
    let tx94 = Transaction {
        tx_type: Type::Withdrawal,
        client: 1,
        tx: 94,
        amount: Some(money("33.0")),
        under_dispute: false,
    };

    let _ = exchange.process_new_transaction(tx91.clone());
    let _ = exchange.process_new_transaction(tx92.clone());
    let _ = exchange.process_new_transaction(tx93.clone());
    let _ = exchange.process_new_transaction(tx94.clone());

    let client1 = ClientProfile::new(
        1,
        money("90.0"),
        money("0.0"),
        money("90.0"),
        false,
        HashMap::from([(tx91.tx, tx91), (tx94.tx, tx94)]),
    );

    let client2 = ClientProfile::new(
        2,
        money("11.0"),
        money("0.0"),
        money("11.0"),
        false,
        HashMap::from([(tx92.tx, tx92), (tx93.tx, tx93)]),
    );

    assert_eq!(HashMap::from([(1, client1), (2, client2)]), *exchange.clients());
}

#[test]
fn it_should_resolve_disputes() {
    let mut exchange = Exchange::new();
    let tx91 = Transaction {
        tx_type: Type::Deposit,
        client: 1,
        tx: 91,
        amount: Some(money("123.0")),
        under_dispute: false,
    };
    let tx92 = Transaction {
        tx_type: Type::Dispute,
        client: 1,
        tx: 91,
        amount: None,
        under_dispute: false,
    };

    let _ = exchange.process_new_transaction(tx91.clone());
    let _ = exchange.process_new_transaction(tx92.clone());

    let client_with_open_dispute = ClientProfile::new(
        1,
        money("00.0"),
        money("123.0"),
        money("123.0"),
        false,
        HashMap::from([(tx91.tx, Transaction { under_dispute: true, ..tx91 })]),
    );

    assert_eq!(HashMap::from([(1, client_with_open_dispute)]), *exchange.clients());

    let _ = exchange.process_new_transaction(Transaction {
        tx_type: Type::Resolve,
        client: 1,
        tx: 91,
        amount: None,
        under_dispute: false,
    });

    // the resolved transaction stays stored, no longer under dispute
    let client_with_resolved_disputed = ClientProfile::new(
        1,
        money("123.0"),
        money("00.0"),
        money("123.0"),
        false,
        HashMap::from([(tx91.tx, tx91)]),
    );

    assert_eq!(HashMap::from([(1, client_with_resolved_disputed)]), *exchange.clients());
}

#[test]
fn it_should_chargeback_disputes() {
    let mut exchange = Exchange::new();
    let tx91 = Transaction {
        tx_type: Type::Deposit,
        client: 1,
        tx: 91,
        amount: Some(money("123.0")),
        under_dispute: false,
    };
    let tx92 = Transaction {
        tx_type: Type::Dispute,
        client: 1,
        tx: 91,
        amount: None,
        under_dispute: false,
    };

    let _ = exchange.process_new_transaction(tx91.clone());
    let _ = exchange.process_new_transaction(tx92.clone());

    let client_with_open_dispute = ClientProfile::new(
        1,
        money("00.0"),
        money("123.0"),
        money("123.0"),
        false,
        HashMap::from([(tx91.tx, Transaction { under_dispute: true, ..tx91 })]),
    );

    assert_eq!(HashMap::from([(1, client_with_open_dispute)]), *exchange.clients());

    let _ = exchange.process_new_transaction(Transaction {
        tx_type: Type::Chargeback,
        client: 1,
        tx: 91,
        amount: None,
        under_dispute: false,
    });

    // the charged-back transaction stays stored, no longer under dispute
    let client_after_being_chargedback = ClientProfile::new(
        1,
        money("00.0"),
        money("00.0"),
        money("00.0"),
        true,
        HashMap::from([(tx91.tx, tx91)]),
    );

    assert_eq!(HashMap::from([(1, client_after_being_chargedback)]), *exchange.clients());
}

#[test]
fn mod_it_should_ignore_disputes_for_non_existing_transactions() {
    let mut exchange = Exchange::new();
    let tx91 = Transaction {
        tx_type: Type::Deposit,
        client: 1,
        tx: 91,
        amount: Some(money("123.0")),
        under_dispute: false,
    };
    let tx92 = Transaction {
        tx_type: Type::Dispute,
        client: 1,
        tx: 555,
        amount: None,
        under_dispute: false,
    };

    let _ = exchange.process_new_transaction(tx91.clone());
    let _ = exchange.process_new_transaction(tx92.clone());

    let client_with_no_disputes = ClientProfile::new(
        1,
        money("123.0"),
        money("00.0"),
        money("123.0"),
        false,
        HashMap::from([(tx91.tx, tx91)]),
    );

    assert_eq!(HashMap::from([(1, client_with_no_disputes)]), *exchange.clients());
}

#[test]
fn it_should_ignore_resolve_for_non_existing_disputes() {
    let mut exchange = Exchange::new();
    let deposit = Transaction {
        tx_type: Type::Deposit,
        client: 1,
        tx: 91,
        amount: Some(money("123.0")),
        under_dispute: false,
    };
    let resolve = Transaction {
        tx_type: Type::Resolve,
        client: 1,
        tx: 91,
        amount: None,
        under_dispute: false,
    };

    let _ = exchange.process_new_transaction(deposit.clone());
    let _ = exchange.process_new_transaction(resolve);

    let client_with_no_disputes = ClientProfile::new(
        1,
        money("123.0"),
        money("00.0"),
        money("123.0"),
        false,
        HashMap::from([(deposit.tx, deposit)]),
    );

    assert_eq!(HashMap::from([(1, client_with_no_disputes)]), *exchange.clients());
}

#[test]
fn it_should_ignore_chargeback_for_non_existing_disputes() {
    let mut exchange = Exchange::new();
    let deposit = Transaction {
        tx_type: Type::Deposit,
        client: 1,
        tx: 91,
        amount: Some(money("123.0")),
        under_dispute: false,
    };
    let resolve = Transaction {
        tx_type: Type::Chargeback,
        client: 1,
        tx: 91,
        amount: None,
        under_dispute: false,
    };

    let _ = exchange.process_new_transaction(deposit.clone());
    let _ = exchange.process_new_transaction(resolve);

    let client_with_no_disputes = ClientProfile::new(
        1,
        money("123.0"),
        money("00.0"),
        money("123.0"),
        false,
        HashMap::from([(deposit.tx, deposit)]),
    );

    assert_eq!(HashMap::from([(1, client_with_no_disputes)]), *exchange.clients());
}
