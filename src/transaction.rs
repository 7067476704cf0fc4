//! Transaction records as they arrive, and as an account stores them.
use crate::currency::{currency_of_text, Currency};
use vstd::prelude::*;

verus! {

pub type ClientId = u16;

pub type TransactionId = u32;

/// The kind of a transaction.
#[derive(Clone, Copy, Debug, PartialEq, Eq, Structural)]
pub enum Type {
    Deposit,
    Withdrawal,
    Dispute,
    Resolve,
    Chargeback,
}

/// The kind that a lower-case name denotes.
pub open spec fn type_named(s: Seq<char>) -> Option<Type> {
    if s == "deposit"@ {
        Some(Type::Deposit)
    } else if s == "withdrawal"@ {
        Some(Type::Withdrawal)
    } else if s == "dispute"@ {
        Some(Type::Dispute)
    } else if s == "resolve"@ {
        Some(Type::Resolve)
    } else if s == "chargeback"@ {
        Some(Type::Chargeback)
    } else {
        None
    }
}

fn same_text(a: &str, b: &str) -> (r: bool)
    ensures
        r == (a@ == b@),
{
    a.to_owned() == b.to_owned()
}

impl Type {
    /// The kind named `deposit`, `withdrawal`, `dispute`, `resolve` or
    /// `chargeback`; `None` for any other text.
    pub fn parse(s: &str) -> (r: Option<Type>)
        ensures
            r == type_named(s@),
    {
        if same_text(s, "deposit") {
            Some(Type::Deposit)
        } else if same_text(s, "withdrawal") {
            Some(Type::Withdrawal)
        } else if same_text(s, "dispute") {
            Some(Type::Dispute)
        } else if same_text(s, "resolve") {
            Some(Type::Resolve)
        } else if same_text(s, "chargeback") {
            Some(Type::Chargeback)
        } else {
            None
        }
    }
}

/// A transaction. Deposits and withdrawals carry an amount; disputes, resolves
/// and chargebacks name the deposit or withdrawal they refer to by its id.
/// `under_dispute` is only meaningful on the copy an account stores.
#[derive(Clone, Copy, Debug, PartialEq, Eq)]
pub struct Transaction {
    pub tx_type: Type,
    pub client: ClientId,
    pub tx: TransactionId,
    pub amount: Option<Currency>,
    pub under_dispute: bool,
}

/// The transaction that a record with these fields describes, where its kind is
/// known and its amount, if present, is one.
pub open spec fn transaction_of_record(
    tx_type: Seq<char>,
    client: ClientId,
    tx: TransactionId,
    amount: Option<Seq<char>>,
) -> Option<Transaction> {
    match type_named(tx_type) {
        None => None,
        Some(kind) => match amount {
            None => Some(
                Transaction { tx_type: kind, client, tx, amount: None, under_dispute: false },
            ),
            Some(text) => match currency_of_text(text) {
                None => None,
                Some(c) => Some(
                    Transaction { tx_type: kind, client, tx, amount: Some(c), under_dispute: false },
                ),
            },
        },
    }
}

impl Transaction {
    pub fn new(
        tx_type: Type,
        client: ClientId,
        tx: TransactionId,
        amount: Option<Currency>,
        under_dispute: bool,
    ) -> (r: Transaction)
        ensures
            r == (Transaction { tx_type, client, tx, amount, under_dispute }),
    {
        Transaction { tx_type, client, tx, amount, under_dispute }
    }

    /// Builds a transaction from the fields of an input record: the kind's
    /// lower-case name, the client and transaction ids, and the amount's decimal
    /// text where the record has one. `None` where the kind is unknown or the
    /// amount is no valid amount.
    pub fn from_record(
        tx_type: &str,
        client: ClientId,
        tx: TransactionId,
        amount: Option<&str>,
    ) -> (r: Option<Transaction>)
        ensures
            r == transaction_of_record(
                tx_type@,
                client,
                tx,
                match amount {
                    None => None,
                    Some(a) => Some(a@),
                },
            ),
    {
        let kind = match Type::parse(tx_type) {
            None => {
                return None;
            },
            Some(k) => k,
        };
        match amount {
            None => Some(Transaction { tx_type: kind, client, tx, amount: None, under_dispute: false }),
            Some(text) => match Currency::parse(text) {
                None => None,
                Some(c) => Some(
                    Transaction { tx_type: kind, client, tx, amount: Some(c), under_dispute: false },
                ),
            },
        }
    }

    pub fn start_dispute(&mut self)
        ensures
            *final(self) == (Transaction { under_dispute: true, ..*old(self) }),
    {
        self.under_dispute = true;
    }

    pub fn stop_dispute(&mut self)
        ensures
            *final(self) == (Transaction { under_dispute: false, ..*old(self) }),
    {
        self.under_dispute = false;
    }
}

} // verus!
