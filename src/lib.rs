//! Per-client account ledgers built from a stream of deposits, withdrawals,
//! disputes, resolves and chargebacks.
pub mod client_profile;
pub mod currency;
pub mod laws;
pub mod text;
pub mod transaction;

pub use client_profile::{ClientProfile, ProcessingError};
pub use currency::Currency;
pub use transaction::{ClientId, Transaction, TransactionId, Type};

use client_profile::{account_row, apply, fresh_account, AccountState};
use std::collections::HashMap;
use vstd::prelude::*;

verus! {

broadcast use vstd::std_specs::hash::group_hash_axioms;

/// The first line of the summary table.
pub open spec fn csv_header() -> Seq<char> {
    "client,available,held,total,locked\n"@
}

/// The account of `client`, or a new one where there is none yet.
pub open spec fn account_or_fresh(m: Map<ClientId, AccountState>, client: ClientId) -> AccountState {
    if m.contains_key(client) {
        m[client]
    } else {
        fresh_account(client)
    }
}

/// The ledger after `transaction`, and what its account answered: the client's
/// account, created where there is none yet, takes the transaction.
pub open spec fn submit(m: Map<ClientId, AccountState>, transaction: Transaction) -> (
    Map<ClientId, AccountState>,
    Result<(), ProcessingError>,
) {
    let (after, result) = apply(account_or_fresh(m, transaction.client), transaction);
    (m.insert(transaction.client, after), result)
}

/// The ledger after each of `ts` in turn.
pub open spec fn submit_all(m: Map<ClientId, AccountState>, ts: Seq<Transaction>) -> Map<
    ClientId,
    AccountState,
>
    decreases ts.len(),
{
    if ts.len() == 0 {
        m
    } else {
        submit_all(submit(m, ts[0]).0, ts.drop_first())
    }
}

/// The summary lines of the accounts whose client ids are below `n`, in
/// ascending order of id, each ended by a line break.
pub open spec fn rows_below(m: Map<ClientId, AccountState>, n: int) -> Seq<char>
    decreases n,
{
    if n <= 0 {
        Seq::empty()
    } else {
        let id = (n - 1) as ClientId;
        rows_below(m, n - 1) + if m.contains_key(id) {
            account_row(m[id]) + "\n"@
        } else {
            Seq::empty()
        }
    }
}

/// The ledger: every client's account, created when the client is first named.
pub struct Exchange {
    clients: HashMap<ClientId, ClientProfile>,
}

impl View for Exchange {
    type V = Map<ClientId, AccountState>;

    closed spec fn view(&self) -> Map<ClientId, AccountState> {
        Map::new(|c: ClientId| self.clients@.contains_key(c), |c: ClientId| self.clients@[c]@)
    }
}

impl Exchange {
    /// A ledger with no accounts.
    pub fn new() -> (r: Exchange)
        ensures
            r@ == Map::<ClientId, AccountState>::empty(),
    {
        let r = Exchange { clients: HashMap::new() };
        assert(r@ =~= Map::<ClientId, AccountState>::empty());
        r
    }

    /// Routes `transaction` to its client's account, first creating that
    /// account where there is none, and hands back what the account answered.
    /// No other account changes.
    pub fn process_new_transaction(&mut self, transaction: Transaction) -> (r: Result<
        (),
        ProcessingError,
    >)
        ensures
            (final(self)@, r) == submit(old(self)@, transaction),
    {
        let mut profile = match self.clients.remove(&transaction.client) {
            Some(p) => p,
            None => ClientProfile::new_with_defaults(transaction.client),
        };
        let r = profile.process_new_transaction(transaction);
        self.clients.insert(transaction.client, profile);
        proof {
            let (after, _) = apply(account_or_fresh(old(self)@, transaction.client), transaction);
            assert(self@ =~= old(self)@.insert(transaction.client, after));
        }
        r
    }

    /// The account of `client`, where there is one.
    pub fn client(&self, client: ClientId) -> (r: Option<&ClientProfile>)
        ensures
            match r {
                None => !self@.contains_key(client),
                Some(p) => self@.contains_key(client) && p@ == self@[client],
            },
    {
        self.clients.get(&client)
    }

    /// All accounts, by client id.
    pub fn clients(&self) -> (r: &HashMap<ClientId, ClientProfile>)
        ensures
            r@.dom() == self@.dom(),
            forall|c: ClientId| #[trigger] r@.contains_key(c) ==> r@[c]@ == self@[c],
    {
        assert(self.clients@.dom() =~= self@.dom());
        &self.clients
    }

    /// The summary table: the header line, then one line per account in
    /// ascending order of client id.
    pub fn to_csv(&self) -> (r: String)
        ensures
            r@ == csv_header() + rows_below(self@, 0x10000),
    {
        let mut s = String::new();
        s.append("client,available,held,total,locked\n");
        let mut id: u32 = 0;
        while id < 0x10000
            invariant
                id <= 0x10000,
                s@ == csv_header() + rows_below(self@, id as int),
            decreases 0x10000 - id,
        {
            let c = id as ClientId;
            match self.clients.get(&c) {
                Some(profile) => {
                    let row = profile.csv_row();
                    s.append(row.as_str());
                    s.append("\n");
                },
                None => {},
            }
            assert(s@ =~= csv_header() + rows_below(self@, id + 1));
            id = id + 1;
        }
        s
    }
}

} // verus!
