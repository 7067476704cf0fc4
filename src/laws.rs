//! Properties of the account rules that hold for every account and every
//! transaction.
use crate::client_profile::{apply, apply_all, AccountState, ProcessingError};
use crate::currency::fits_i128;
use crate::transaction::{ClientId, Transaction, Type};
use crate::{account_or_fresh, submit, submit_all};
use vstd::prelude::*;

verus! {

/// Every balance of the account can be held as an amount.
pub open spec fn in_range(a: AccountState) -> bool {
    fits_i128(a.available) && fits_i128(a.held) && fits_i128(a.total)
}

/// Applying any transaction keeps an account's total equal to what is
/// available plus what is held.
pub proof fn lemma_apply_keeps_balance(a: AccountState, t: Transaction)
    requires
        a.balanced(),
    ensures
        apply(a, t).0.balanced(),
{
}

/// After any sequence of transactions, an account's total is still what is
/// available plus what is held.
pub proof fn lemma_apply_all_keeps_balance(a: AccountState, ts: Seq<Transaction>)
    requires
        a.balanced(),
    ensures
        apply_all(a, ts).balanced(),
    decreases ts.len(),
{
    if ts.len() > 0 {
        lemma_apply_keeps_balance(a, ts[0]);
        lemma_apply_all_keeps_balance(apply(a, ts[0]).0, ts.drop_first());
    }
}

/// Depositing an amount and then withdrawing the same amount, no more than is
/// available, leaves what is available, what is held and the total as they
/// were.
pub proof fn lemma_deposit_then_withdraw(a: AccountState, d: Transaction, w: Transaction)
    requires
        in_range(a),
        d.tx_type == Type::Deposit,
        w.tx_type == Type::Withdrawal,
        d.amount is Some,
        w.amount == d.amount,
        d.amount.unwrap()@ <= a.available,
        0 <= a.available,
        fits_i128(a.available + d.amount.unwrap()@),
        fits_i128(a.total + d.amount.unwrap()@),
    ensures
        ({
            let b = apply(apply(a, d).0, w).0;
            &&& b.available == a.available
            &&& b.held == a.held
            &&& b.total == a.total
        }),
{
}

/// A withdrawal of more than is available fails with `InsufficientFunds` and
/// changes nothing.
pub proof fn lemma_withdrawal_beyond_available(a: AccountState, w: Transaction)
    requires
        !a.locked,
        w.tx_type == Type::Withdrawal,
        w.amount is Some,
        w.amount.unwrap()@ > a.available,
    ensures
        apply(a, w) == (a, Err::<(), ProcessingError>(ProcessingError::InsufficientFunds)),
{
}

/// A deposit or withdrawal without an amount fails with
/// `MalformedTransaction`, is not stored, and changes nothing.
pub proof fn lemma_missing_amount(a: AccountState, t: Transaction)
    requires
        !a.locked,
        t.tx_type == Type::Deposit || t.tx_type == Type::Withdrawal,
        t.amount is None,
    ensures
        apply(a, t) == (a, Err::<(), ProcessingError>(ProcessingError::MalformedTransaction)),
{
}

/// A dispute of an id the account does not hold changes nothing: it succeeds
/// on an unlocked account and is refused by a locked one.
pub proof fn lemma_dispute_of_unknown_id(a: AccountState, t: Transaction)
    requires
        t.tx_type == Type::Dispute,
        !a.transactions.contains_key(t.tx),
    ensures
        apply(a, t).0 == a,
        apply(a, t).1 == (if a.locked {
            Err::<(), ProcessingError>(ProcessingError::AccountLocked)
        } else {
            Ok(())
        }),
{
}

/// A dispute followed by a resolve of the same transaction restores what is
/// available and what is held, and leaves the transaction not under dispute.
pub proof fn lemma_dispute_then_resolve(a: AccountState, d: Transaction, r: Transaction)
    requires
        in_range(a),
        !a.locked,
        d.tx_type == Type::Dispute,
        r.tx_type == Type::Resolve,
        r.tx == d.tx,
        a.has_amount(d.tx) ==> fits_i128(a.available - a.amount_of(d.tx)) && fits_i128(
            a.held + a.amount_of(d.tx),
        ),
    ensures
        ({
            let b = apply(apply(a, d).0, r).0;
            &&& b.available == a.available
            &&& b.held == a.held
            &&& a.has_amount(d.tx) ==> !b.transactions[d.tx].under_dispute
        }),
{
}

/// A dispute followed by a chargeback of the same transaction: the chargeback
/// takes the disputed amount from what is held and from the total, leaves
/// what is available as the dispute left it, and locks the account.
pub proof fn lemma_dispute_then_chargeback(a: AccountState, d: Transaction, c: Transaction)
    requires
        in_range(a),
        !a.locked,
        d.tx_type == Type::Dispute,
        c.tx_type == Type::Chargeback,
        c.tx == d.tx,
        a.has_amount(d.tx),
        fits_i128(a.available - a.amount_of(d.tx)),
        fits_i128(a.held + a.amount_of(d.tx)),
        fits_i128(a.total - a.amount_of(d.tx)),
    ensures
        ({
            let x = a.amount_of(d.tx);
            let disputed = apply(a, d).0;
            let charged = apply(disputed, c);
            &&& charged.1 is Ok
            &&& charged.0.held == disputed.held - x
            &&& charged.0.total == disputed.total - x
            &&& charged.0.available == disputed.available
            &&& charged.0.locked
        }),
{
}

/// A locked account refuses every transaction with `AccountLocked` and stays
/// as it is, whatever sequence of transactions follows.
pub proof fn lemma_locked_is_final(a: AccountState, ts: Seq<Transaction>)
    requires
        a.locked,
    ensures
        forall|t: Transaction|
            #[trigger] apply(a, t) == (a, Err::<(), ProcessingError>(
                ProcessingError::AccountLocked,
            )),
        apply_all(a, ts) == a,
    decreases ts.len(),
{
    if ts.len() > 0 {
        lemma_locked_is_final(a, ts.drop_first());
    }
}

/// Every account of the ledger keeps its total equal to what is available plus
/// what is held, whatever sequence of transactions the ledger takes.
pub proof fn lemma_ledger_keeps_balance(m: Map<ClientId, AccountState>, ts: Seq<Transaction>)
    requires
        forall|c: ClientId| #[trigger] m.contains_key(c) ==> m[c].balanced(),
    ensures
        forall|c: ClientId|
            #[trigger] submit_all(m, ts).contains_key(c) ==> submit_all(m, ts)[c].balanced(),
    decreases ts.len(),
{
    if ts.len() > 0 {
        let t = ts[0];
        assert(account_or_fresh(m, t.client).balanced());
        lemma_apply_keeps_balance(account_or_fresh(m, t.client), t);
        let m1 = submit(m, t).0;
        assert forall|c: ClientId| #[trigger] m1.contains_key(c) implies m1[c].balanced() by {
            if c != t.client {
                assert(m1[c] == m[c]);
            }
        }
        lemma_ledger_keeps_balance(m1, ts.drop_first());
        assert(submit_all(m, ts) == submit_all(m1, ts.drop_first()));
    }
}

/// The transactions of `ts` that name `client`, in their order.
pub open spec fn transactions_of(ts: Seq<Transaction>, client: ClientId) -> Seq<Transaction> {
    ts.filter(|t: Transaction| t.client == client)
}

/// Clients are isolated: after any sequence of transactions, a client's account
/// is what its own transactions alone, in their order, make of it; and the
/// ledger holds an account for exactly the clients it held before or that
/// some transaction named.
pub proof fn lemma_ledger_isolates_clients(
    m: Map<ClientId, AccountState>,
    ts: Seq<Transaction>,
    client: ClientId,
)
    ensures
        account_or_fresh(submit_all(m, ts), client) == apply_all(
            account_or_fresh(m, client),
            transactions_of(ts, client),
        ),
        submit_all(m, ts).contains_key(client) <==> (m.contains_key(client) || exists|i: int|
            0 <= i < ts.len() && (#[trigger] ts[i]).client == client),
    decreases ts.len(),
{
    let p = |t: Transaction| t.client == client;
    if ts.len() == 0 {
        reveal(Seq::filter);
        assert(transactions_of(ts, client) == Seq::<Transaction>::empty());
    } else {
        let t = ts[0];
        let rest = ts.drop_first();
        let m1 = submit(m, t).0;
        lemma_ledger_isolates_clients(m1, rest, client);
        assert(ts == seq![t] + rest);
        Seq::filter_distributes_over_add(seq![t], rest, p);
        reveal_with_fuel(Seq::filter, 2);
        assert(seq![t].drop_last() =~= Seq::<Transaction>::empty());
        if t.client == client {
            assert(transactions_of(ts, client) =~= seq![t] + transactions_of(rest, client));
            assert(transactions_of(ts, client).drop_first() =~= transactions_of(rest, client));
        } else {
            assert(transactions_of(ts, client) =~= transactions_of(rest, client));
            assert(account_or_fresh(m1, client) == account_or_fresh(m, client));
        }
        if submit_all(m, ts).contains_key(client) && !m.contains_key(client) && t.client != client {
            let i = choose|i: int| 0 <= i < rest.len() && (#[trigger] rest[i]).client == client;
            assert(ts[i + 1] == rest[i]);
        }
        if exists|i: int| 0 <= i < ts.len() && (#[trigger] ts[i]).client == client {
            let i = choose|i: int| 0 <= i < ts.len() && (#[trigger] ts[i]).client == client;
            if i > 0 {
                assert(rest[i - 1] == ts[i]);
            }
        }
    }
}

} // verus!
