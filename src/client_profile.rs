//! One client's account and the rules by which transactions change it.
use crate::currency::{fits_i128, Currency};
use crate::text::{bool_text, decimal_text, fixed4_text, push_bool, push_decimal, push_fixed4};
use crate::transaction::{ClientId, Transaction, TransactionId, Type};
use std::collections::HashMap;
use vstd::prelude::*;

verus! {

broadcast use vstd::std_specs::hash::group_hash_axioms;

/// Why a transaction was not applied. In each case the account is left as it was.
#[derive(Clone, Copy, Debug, PartialEq, Eq, Structural)]
pub enum ProcessingError {
    /// The account was frozen by a chargeback.
    AccountLocked,
    /// A deposit or withdrawal came without an amount.
    MalformedTransaction,
    /// A withdrawal asked for more than is available.
    InsufficientFunds,
    /// A balance would leave the range that an amount can hold.
    BalanceOverflow,
}

/// The abstract state of an account; amounts are counted in ten-thousandths.
pub struct AccountState {
    pub id: ClientId,
    pub available: int,
    pub held: int,
    pub total: int,
    pub locked: bool,
    /// The deposits and withdrawals seen, by id, with their dispute flags.
    pub transactions: Map<TransactionId, Transaction>,
}

impl AccountState {
    /// The account's total is what is available plus what is held.
    pub open spec fn balanced(self) -> bool {
        self.total == self.available + self.held
    }

    /// Whether the account holds a disputable transaction under `id`: one
    /// that is stored and has an amount.
    pub open spec fn has_amount(self, id: TransactionId) -> bool {
        self.transactions.contains_key(id) && self.transactions[id].amount is Some
    }

    /// The amount of the stored transaction `id`.
    pub open spec fn amount_of(self, id: TransactionId) -> int {
        self.transactions[id].amount.unwrap()@
    }
}

/// A new account: all balances zero, unlocked, no transactions.
pub open spec fn fresh_account(id: ClientId) -> AccountState {
    AccountState {
        id,
        available: 0,
        held: 0,
        total: 0,
        locked: false,
        transactions: Map::empty(),
    }
}

/// `m` with `t` stored under its id, not under dispute, unless the id is
/// already there: the first record of an id is the one kept.
pub open spec fn record_once(
    m: Map<TransactionId, Transaction>,
    t: Transaction,
) -> Map<TransactionId, Transaction> {
    if m.contains_key(t.tx) {
        m
    } else {
        m.insert(t.tx, Transaction { under_dispute: false, ..t })
    }
}

/// A deposit adds its amount to what is available and to the total. A deposit
/// or withdrawal that repeats an id already stored is applied to the balances
/// again; only the first record of the id is kept.
pub open spec fn deposit_step(a: AccountState, t: Transaction) -> (
    AccountState,
    Result<(), ProcessingError>,
) {
    match t.amount {
        None => (a, Err(ProcessingError::MalformedTransaction)),
        Some(x) => {
            if !fits_i128(a.available + x@) || !fits_i128(a.total + x@) {
                (a, Err(ProcessingError::BalanceOverflow))
            } else {
                (
                    AccountState {
                        available: a.available + x@,
                        total: a.total + x@,
                        transactions: record_once(a.transactions, t),
                        ..a
                    },
                    Ok(()),
                )
            }
        },
    }
}

/// A withdrawal takes its amount from what is available and from the total,
/// if that much is available.
pub open spec fn withdrawal_step(a: AccountState, t: Transaction) -> (
    AccountState,
    Result<(), ProcessingError>,
) {
    match t.amount {
        None => (a, Err(ProcessingError::MalformedTransaction)),
        Some(x) => {
            if x@ > a.available {
                (a, Err(ProcessingError::InsufficientFunds))
            } else if !fits_i128(a.available - x@) || !fits_i128(a.total - x@) {
                (a, Err(ProcessingError::BalanceOverflow))
            } else {
                (
                    AccountState {
                        available: a.available - x@,
                        total: a.total - x@,
                        transactions: record_once(a.transactions, t),
                        ..a
                    },
                    Ok(()),
                )
            }
        },
    }
}

/// A dispute moves the referenced transaction's amount from available to held
/// and marks it disputed; one that references nothing disputable does nothing.
/// Disputing a transaction that is already under dispute moves its amount
/// once more.
pub open spec fn dispute_step(a: AccountState, t: Transaction) -> (
    AccountState,
    Result<(), ProcessingError>,
) {
    if !a.has_amount(t.tx) {
        (a, Ok(()))
    } else {
        let x = a.amount_of(t.tx);
        if !fits_i128(a.available - x) || !fits_i128(a.held + x) {
            (a, Err(ProcessingError::BalanceOverflow))
        } else {
            (
                AccountState {
                    available: a.available - x,
                    held: a.held + x,
                    transactions: a.transactions.insert(
                        t.tx,
                        Transaction { under_dispute: true, ..a.transactions[t.tx] },
                    ),
                    ..a
                },
                Ok(()),
            )
        }
    }
}

/// A resolve moves a disputed transaction's amount back from held to
/// available and clears its flag; otherwise it does nothing.
pub open spec fn resolve_step(a: AccountState, t: Transaction) -> (
    AccountState,
    Result<(), ProcessingError>,
) {
    if !a.has_amount(t.tx) || !a.transactions[t.tx].under_dispute {
        (a, Ok(()))
    } else {
        let x = a.amount_of(t.tx);
        if !fits_i128(a.available + x) || !fits_i128(a.held - x) {
            (a, Err(ProcessingError::BalanceOverflow))
        } else {
            (
                AccountState {
                    available: a.available + x,
                    held: a.held - x,
                    transactions: a.transactions.insert(
                        t.tx,
                        Transaction { under_dispute: false, ..a.transactions[t.tx] },
                    ),
                    ..a
                },
                Ok(()),
            )
        }
    }
}

/// A chargeback removes a disputed transaction's amount from held and from
/// the total, clears its flag and locks the account; otherwise it does nothing.
pub open spec fn chargeback_step(a: AccountState, t: Transaction) -> (
    AccountState,
    Result<(), ProcessingError>,
) {
    if !a.has_amount(t.tx) || !a.transactions[t.tx].under_dispute {
        (a, Ok(()))
    } else {
        let x = a.amount_of(t.tx);
        if !fits_i128(a.held - x) || !fits_i128(a.total - x) {
            (a, Err(ProcessingError::BalanceOverflow))
        } else {
            (
                AccountState {
                    held: a.held - x,
                    total: a.total - x,
                    locked: true,
                    transactions: a.transactions.insert(
                        t.tx,
                        Transaction { under_dispute: false, ..a.transactions[t.tx] },
                    ),
                    ..a
                },
                Ok(()),
            )
        }
    }
}

/// The account after `t`, and whether `t` was applied. A locked account
/// takes nothing.
pub open spec fn apply(a: AccountState, t: Transaction) -> (
    AccountState,
    Result<(), ProcessingError>,
) {
    if a.locked {
        (a, Err(ProcessingError::AccountLocked))
    } else {
        match t.tx_type {
            Type::Deposit => deposit_step(a, t),
            Type::Withdrawal => withdrawal_step(a, t),
            Type::Dispute => dispute_step(a, t),
            Type::Resolve => resolve_step(a, t),
            Type::Chargeback => chargeback_step(a, t),
        }
    }
}

/// The account after each of `ts` in turn.
pub open spec fn apply_all(a: AccountState, ts: Seq<Transaction>) -> AccountState
    decreases ts.len(),
{
    if ts.len() == 0 {
        a
    } else {
        apply_all(apply(a, ts[0]).0, ts.drop_first())
    }
}

/// The account's line in the summary table:
/// `client,available,held,total,locked`, amounts with four fractional digits.
pub open spec fn account_row(a: AccountState) -> Seq<char> {
    decimal_text(a.id as nat) + ","@ + fixed4_text(a.available) + ","@ + fixed4_text(a.held) + ","@
        + fixed4_text(a.total) + ","@ + bool_text(a.locked)
}

/// A client's account.
#[derive(Debug, PartialEq)]
pub struct ClientProfile {
    id: ClientId,
    available: Currency,
    held: Currency,
    total: Currency,
    locked: bool,
    transactions: HashMap<TransactionId, Transaction>,
}

impl View for ClientProfile {
    type V = AccountState;

    closed spec fn view(&self) -> AccountState {
        AccountState {
            id: self.id,
            available: self.available@,
            held: self.held@,
            total: self.total@,
            locked: self.locked,
            transactions: self.transactions@,
        }
    }
}

impl ClientProfile {
    /// A new, empty, unlocked account.
    pub fn new_with_defaults(id: ClientId) -> (r: ClientProfile)
        ensures
            r@ == fresh_account(id),
    {
        let r = Self::new(
            id,
            Currency::zero(),
            Currency::zero(),
            Currency::zero(),
            false,
            HashMap::new(),
        );
        assert(r@.transactions =~= Map::empty());
        r
    }

    /// An account with the given state; its total must be what is available
    /// plus what is held.
    pub fn new(
        id: ClientId,
        available: Currency,
        held: Currency,
        total: Currency,
        locked: bool,
        transactions: HashMap<TransactionId, Transaction>,
    ) -> (r: ClientProfile)
        requires
            total@ == available@ + held@,
        ensures
            r@ == (AccountState {
                id,
                available: available@,
                held: held@,
                total: total@,
                locked,
                transactions: transactions@,
            }),
    {
        ClientProfile { id, available, held, total, locked, transactions }
    }

    pub fn id(&self) -> (r: ClientId)
        ensures
            r == self@.id,
    {
        self.id
    }

    pub fn available(&self) -> (r: Currency)
        ensures
            r@ == self@.available,
    {
        self.available
    }

    pub fn held(&self) -> (r: Currency)
        ensures
            r@ == self@.held,
    {
        self.held
    }

    pub fn total(&self) -> (r: Currency)
        ensures
            r@ == self@.total,
    {
        self.total
    }

    pub fn locked(&self) -> (r: bool)
        ensures
            r == self@.locked,
    {
        self.locked
    }

    /// The stored deposits and withdrawals, by id.
    pub fn transactions(&self) -> (r: &HashMap<TransactionId, Transaction>)
        ensures
            r@ == self@.transactions,
    {
        &self.transactions
    }

    /// The account's line in the summary table, without a line break.
    pub fn csv_row(&self) -> (r: String)
        ensures
            r@ == account_row(self@),
    {
        let mut s = String::new();
        push_decimal(&mut s, self.id as u128);
        s.append(",");
        push_fixed4(&mut s, self.available.units);
        s.append(",");
        push_fixed4(&mut s, self.held.units);
        s.append(",");
        push_fixed4(&mut s, self.total.units);
        s.append(",");
        push_bool(&mut s, self.locked);
        assert(s@ =~= account_row(self@));
        s
    }

    /// Applies `transaction` to the account, by the rules of `apply`. Where it
    /// fails the account is unchanged.
    pub fn process_new_transaction(&mut self, transaction: Transaction) -> (r: Result<
        (),
        ProcessingError,
    >)
        ensures
            (final(self)@, r) == apply(old(self)@, transaction),
    {
        if self.locked {
            return Err(ProcessingError::AccountLocked);
        }
        match transaction.tx_type {
            Type::Deposit => self.deposit(transaction),
            Type::Withdrawal => self.withdrawal(transaction),
            Type::Dispute => self.dispute(transaction),
            Type::Resolve => self.resolve(transaction),
            Type::Chargeback => self.chargeback(transaction),
        }
    }

    fn record_once(&mut self, transaction: Transaction)
        ensures
            final(self)@ == (AccountState {
                transactions: record_once(old(self)@.transactions, transaction),
                ..old(self)@
            }),
    {
        if !self.transactions.contains_key(&transaction.tx) {
            self.transactions.insert(
                transaction.tx,
                Transaction { under_dispute: false, ..transaction },
            );
        }
    }

    fn deposit(&mut self, transaction: Transaction) -> (r: Result<(), ProcessingError>)
        ensures
            (final(self)@, r) == deposit_step(old(self)@, transaction),
    {
        let amount = match transaction.amount {
            None => {
                return Err(ProcessingError::MalformedTransaction);
            },
            Some(x) => x,
        };
        let available = match self.available.checked_add(amount) {
            None => {
                return Err(ProcessingError::BalanceOverflow);
            },
            Some(v) => v,
        };
        let total = match self.total.checked_add(amount) {
            None => {
                return Err(ProcessingError::BalanceOverflow);
            },
            Some(v) => v,
        };
        self.record_once(transaction);
        self.available = available;
        self.total = total;
        Ok(())
    }

    fn withdrawal(&mut self, transaction: Transaction) -> (r: Result<(), ProcessingError>)
        ensures
            (final(self)@, r) == withdrawal_step(old(self)@, transaction),
    {
        let amount = match transaction.amount {
            None => {
                return Err(ProcessingError::MalformedTransaction);
            },
            Some(x) => x,
        };
        if amount.units > self.available.units {
            return Err(ProcessingError::InsufficientFunds);
        }
        let available = match self.available.checked_sub(amount) {
            None => {
                return Err(ProcessingError::BalanceOverflow);
            },
            Some(v) => v,
        };
        let total = match self.total.checked_sub(amount) {
            None => {
                return Err(ProcessingError::BalanceOverflow);
            },
            Some(v) => v,
        };
        self.record_once(transaction);
        self.available = available;
        self.total = total;
        Ok(())
    }

    /// The stored transaction `id`, where there is one with an amount.
    fn disputable(&self, id: TransactionId) -> (r: Option<(Transaction, Currency)>)
        ensures
            match r {
                None => !self@.has_amount(id),
                Some((t, x)) => self@.has_amount(id) && t == self@.transactions[id] && x@
                    == self@.amount_of(id),
            },
    {
        match self.transactions.get(&id) {
            None => None,
            Some(stored) => match stored.amount {
                None => None,
                Some(x) => Some((*stored, x)),
            },
        }
    }

    fn dispute(&mut self, transaction: Transaction) -> (r: Result<(), ProcessingError>)
        ensures
            (final(self)@, r) == dispute_step(old(self)@, transaction),
    {
        let (mut stored, amount) = match self.disputable(transaction.tx) {
            None => {
                return Ok(());
            },
            Some(found) => found,
        };
        let available = match self.available.checked_sub(amount) {
            None => {
                return Err(ProcessingError::BalanceOverflow);
            },
            Some(v) => v,
        };
        let held = match self.held.checked_add(amount) {
            None => {
                return Err(ProcessingError::BalanceOverflow);
            },
            Some(v) => v,
        };
        stored.start_dispute();
        self.transactions.insert(transaction.tx, stored);
        self.available = available;
        self.held = held;
        Ok(())
    }

    fn resolve(&mut self, transaction: Transaction) -> (r: Result<(), ProcessingError>)
        ensures
            (final(self)@, r) == resolve_step(old(self)@, transaction),
    {
        let (mut stored, amount) = match self.disputable(transaction.tx) {
            None => {
                return Ok(());
            },
            Some(found) => found,
        };
        if !stored.under_dispute {
            return Ok(());
        }
        let available = match self.available.checked_add(amount) {
            None => {
                return Err(ProcessingError::BalanceOverflow);
            },
            Some(v) => v,
        };
        let held = match self.held.checked_sub(amount) {
            None => {
                return Err(ProcessingError::BalanceOverflow);
            },
            Some(v) => v,
        };
        stored.stop_dispute();
        self.transactions.insert(transaction.tx, stored);
        self.available = available;
        self.held = held;
        Ok(())
    }

    fn chargeback(&mut self, transaction: Transaction) -> (r: Result<(), ProcessingError>)
        ensures
            (final(self)@, r) == chargeback_step(old(self)@, transaction),
    {
        let (mut stored, amount) = match self.disputable(transaction.tx) {
            None => {
                return Ok(());
            },
            Some(found) => found,
        };
        if !stored.under_dispute {
            return Ok(());
        }
        let held = match self.held.checked_sub(amount) {
            None => {
                return Err(ProcessingError::BalanceOverflow);
            },
            Some(v) => v,
        };
        let total = match self.total.checked_sub(amount) {
            None => {
                return Err(ProcessingError::BalanceOverflow);
            },
            Some(v) => v,
        };
        stored.stop_dispute();
        self.transactions.insert(transaction.tx, stored);
        self.held = held;
        self.total = total;
        self.locked = true;
        Ok(())
    }
}

} // verus!
