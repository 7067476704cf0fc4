use exchange::{ClientProfile, Currency, Transaction, Type};
use std::collections::HashMap;

fn amount(text: &str) -> Currency {
    Currency::parse(text).unwrap()
}

#[test]
fn it_should_add_funds_when_processing_deposits() {
    let mut client_profile = ClientProfile::new_with_defaults(1);

    client_profile
        .process_new_transaction(Transaction {
            tx_type: Type::Deposit,
            client: 1,
            tx: 1000,
            amount: Some(amount("0.0001")),
            under_dispute: false,
        })
        .unwrap_or_default();

    assert_eq!(amount("0.0001"), client_profile.available());
    assert_eq!(amount("0.0001"), client_profile.total());
    assert_eq!(amount("0.0000"), client_profile.held());
    assert_eq!(false, client_profile.locked());
    assert_eq!(1, client_profile.transactions().len());
}

#[test]
fn it_should_subtract_funds_when_processing_withdrawals() {
    let mut client_profile = ClientProfile::new(
        1,
        amount("0.0002"),
        amount("0.0"),
        amount("0.0002"),
        false,
        HashMap::new(),
    );

    client_profile
        .process_new_transaction(Transaction {
            tx_type: Type::Withdrawal,
            client: 1,
            tx: 1000,
            amount: Some(amount("0.0002")),
            under_dispute: false,
        })
        .unwrap_or_default();

    assert_eq!(amount("0.0000"), client_profile.available());
    assert_eq!(amount("0.0000"), client_profile.total());
    assert_eq!(amount("0.0000"), client_profile.held());
    assert_eq!(false, client_profile.locked());
    assert_eq!(1, client_profile.transactions().len());
}

#[test]
fn it_should_ignore_withdrawal_when_account_does_not_enough_funds() {
    let mut client_profile = ClientProfile::new(
        1,
        amount("0.0002"),
        amount("0.1000"),
        amount("0.1002"),
        false,
        HashMap::new(),
    );

    let result = client_profile
        .process_new_transaction(Transaction {
            tx_type: Type::Withdrawal,
            client: 1,
            tx: 1000,
            amount: Some(amount("0.0003")),
            under_dispute: false,
        })
        .err();

    assert_eq!(true, result.is_some());
    assert_eq!(amount("0.0002"), client_profile.available());
    assert_eq!(amount("0.1002"), client_profile.total());
    assert_eq!(amount("0.1000"), client_profile.held());
    assert_eq!(false, client_profile.locked());
    assert_eq!(0, client_profile.transactions().len());
}

#[test]
fn client_profile_it_should_ignore_disputes_for_non_existing_transactions() {
    let mut client_profile = ClientProfile::new(
        1,
        amount("0.0002"),
        amount("0.0"),
        amount("0.0002"),
        false,
        HashMap::from([(
            1000,
            Transaction {
                tx_type: Type::Deposit,
                client: 1,
                tx: 1000,
                amount: Some(amount("0.0002")),
                under_dispute: false,
            },
        )]),
    );

    // a dispute referencing a transaction the account does not hold
    client_profile
        .process_new_transaction(Transaction {
            tx_type: Type::Dispute,
            client: 1,
            tx: 1001,
            amount: None,
            under_dispute: false,
        })
        .unwrap_or_default();

    assert_eq!(amount("0.0002"), client_profile.available());
    assert_eq!(amount("0.0002"), client_profile.total());
    assert_eq!(amount("0.0000"), client_profile.held());
    assert_eq!(false, client_profile.locked());
    assert_eq!(1, client_profile.transactions().len());
    assert_eq!(
        false,
        client_profile.transactions().get(&1000).unwrap().under_dispute
    );
}

#[test]
fn it_should_dispute_existing_transactions() {
    let mut client_profile = ClientProfile::new(
        1,
        amount("0.0002"),
        amount("0.00"),
        amount("0.0002"),
        false,
        HashMap::from([(
            1000,
            Transaction {
                tx_type: Type::Deposit,
                client: 1,
                tx: 1000,
                amount: Some(amount("0.0002")),
                under_dispute: false,
            },
        )]),
    );

    client_profile
        .process_new_transaction(Transaction {
            tx_type: Type::Dispute,
            client: 1,
            tx: 1000,
            amount: None,
            under_dispute: false,
        })
        .unwrap_or_default();

    assert_eq!(amount("0.0000"), client_profile.available());
    assert_eq!(amount("0.0002"), client_profile.total());
    assert_eq!(amount("0.0002"), client_profile.held());
    assert_eq!(false, client_profile.locked());
    assert_eq!(1, client_profile.transactions().len());
    assert_eq!(
        true,
        client_profile.transactions().get(&1000).unwrap().under_dispute
    );
}

#[test]
fn it_should_resolve_existing_dispute() {
    let mut client_profile = ClientProfile::new(
        1,
        amount("0.0000"),
        amount("0.0002"),
        amount("0.0002"),
        false,
        HashMap::from([(
            1000,
            Transaction {
                tx_type: Type::Deposit,
                client: 1,
                tx: 1000,
                amount: Some(amount("0.0002")),
                under_dispute: true,
            },
        )]),
    );

    client_profile
        .process_new_transaction(Transaction {
            tx_type: Type::Resolve,
            client: 1,
            tx: 1000,
            amount: None,
            under_dispute: false,
        })
        .unwrap_or_default();

    assert_eq!(amount("0.0002"), client_profile.available());
    assert_eq!(amount("0.0002"), client_profile.total());
    assert_eq!(amount("0.0000"), client_profile.held());
    assert_eq!(false, client_profile.locked());
    assert_eq!(1, client_profile.transactions().len());
    assert_eq!(
        false,
        client_profile.transactions().get(&1000).unwrap().under_dispute
    );
}

#[test]
fn it_should_chargeback_existing_dispute() {
    let mut client_profile = ClientProfile::new(
        1,
        amount("0.0000"),
        amount("0.0002"),
        amount("0.0002"),
        false,
        HashMap::from([(
            1000,
            Transaction {
                tx_type: Type::Deposit,
                client: 1,
                tx: 1000,
                amount: Some(amount("0.0002")),
                under_dispute: true,
            },
        )]),
    );

    client_profile
        .process_new_transaction(Transaction {
            tx_type: Type::Chargeback,
            client: 1,
            tx: 1000,
            amount: None,
            under_dispute: false,
        })
        .unwrap_or_default();

    assert_eq!(amount("0.0000"), client_profile.available());
    assert_eq!(amount("0.0000"), client_profile.total());
    assert_eq!(amount("0.0000"), client_profile.held());
    assert_eq!(true, client_profile.locked());
    assert_eq!(1, client_profile.transactions().len());
    assert_eq!(
        false,
        client_profile.transactions().get(&1000).unwrap().under_dispute
    );
}

#[test]
fn it_should_be_able_to_dispute_multiple_transactions() {
    let mut client_profile = ClientProfile::new(
        1,
        amount("1.0011"),
        amount("0.00"),
        amount("1.0011"),
        false,
        HashMap::from([
            (
                333,
                Transaction {
                    tx_type: Type::Deposit,
                    client: 1,
                    tx: 333,
                    amount: Some(amount("0.0002")),
                    under_dispute: false,
                },
            ),
            (
                2222,
                Transaction {
                    tx_type: Type::Deposit,
                    client: 1,
                    tx: 2222,
                    amount: Some(amount("1.0009")),
                    under_dispute: false,
                },
            ),
        ]),
    );

    client_profile
        .process_new_transaction(Transaction {
            tx_type: Type::Dispute,
            client: 1,
            tx: 333,
            amount: None,
            under_dispute: false,
        })
        .unwrap_or_default();

    client_profile
        .process_new_transaction(Transaction {
            tx_type: Type::Dispute,
            client: 1,
            tx: 2222,
            amount: None,
            under_dispute: false,
        })
        .unwrap_or_default();

    assert_eq!(amount("0.0000"), client_profile.available());
    assert_eq!(amount("1.0011"), client_profile.total());
    assert_eq!(amount("1.0011"), client_profile.held());
    assert_eq!(false, client_profile.locked());
    assert_eq!(2, client_profile.transactions().len());
    assert_eq!(
        true,
        client_profile.transactions().get(&333).unwrap().under_dispute
    );
    assert_eq!(
        true,
        client_profile.transactions().get(&2222).unwrap().under_dispute
    );
}

#[test]
fn it_should_ignore_transactions_without_an_amount() {
    let mut client_profile = ClientProfile::new_with_defaults(1);

    client_profile
        .process_new_transaction(Transaction {
            tx_type: Type::Deposit,
            client: 1,
            tx: 1000,
            amount: None,
            under_dispute: false,
        })
        .unwrap_or_default();

    client_profile
        .process_new_transaction(Transaction {
            tx_type: Type::Withdrawal,
            client: 1,
            tx: 1001,
            amount: None,
            under_dispute: false,
        })
        .unwrap_or_default();

    assert_eq!(amount("0.0000"), client_profile.available());
    assert_eq!(amount("0.0000"), client_profile.total());
    assert_eq!(amount("0.0000"), client_profile.held());
    assert_eq!(false, client_profile.locked());
    assert_eq!(0, client_profile.transactions().len());
}
