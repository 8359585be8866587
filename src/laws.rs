use crate::account::Account;
use crate::transaction::{Transaction, TransactionType};
use crate::transaction_parser::DecodeError;
use crate::transaction_processor::{
    disputed_amount, run, step, within_funds, LedgerState, Rejection,
};
use vstd::prelude::*;

verus! {

/// Every step keeps the ledger well formed: each account stays within
/// `[MIN_FUNDS, MAX_FUNDS]` in `available` and in `held`, so its total,
/// `available + held`, is exact at every point.
pub proof fn lemma_step_keeps_well_formed(s: LedgerState, t: Transaction)
    requires
        s.well_formed(),
    ensures
        step(s, t).0.well_formed(),
{
    let n = step(s, t).0;
    assert forall|c: u16| #[trigger] n.accounts.contains_key(c) implies {
        &&& n.accounts[c].client_id == c
        &&& within_funds(n.accounts[c].available as int)
        &&& within_funds(n.accounts[c].held as int)
    } by {
        if c != t.client_id {
            assert(s.accounts.contains_key(c));
        } else if s.accounts.contains_key(c) {
            assert(s.accounts[c].client_id == c);
        }
    }
    assert forall|id: u32| #[trigger] n.history.contains_key(id) implies {
        &&& n.history[id].of_type.moves_funds()
        &&& n.accounts.contains_key(n.history[id].client_id)
    } by {
        if id != t.id {
            assert(s.history.contains_key(id));
        } else if s.history.contains_key(id) {
            assert(s.accounts.contains_key(s.history[id].client_id));
        }
    }
}

/// Any sequence of input records, applied in order from a well-formed ledger
/// (such as the empty one), leaves it well formed; in particular every
/// account's total is `available + held` within bounds.
pub proof fn lemma_run_keeps_well_formed(s: LedgerState, records: Seq<Result<Transaction, DecodeError>>)
    requires
        s.well_formed(),
    ensures
        run(s, records).well_formed(),
        forall|c: u16| #[trigger]
            run(s, records).accounts.contains_key(c) ==> {
                let a = run(s, records).accounts[c];
                2 * crate::transaction_processor::MIN_FUNDS <= a.available + a.held <= 2 * crate::transaction_processor::MAX_FUNDS
            },
    decreases records.len(),
{
    if records.len() > 0 {
        lemma_run_keeps_well_formed(s, records.drop_last());
        match records.last() {
            Ok(t) => lemma_step_keeps_well_formed(run(s, records.drop_last()), t),
            Err(_) => {},
        }
    }
    let r = run(s, records);
    assert forall|c: u16| #[trigger] r.accounts.contains_key(c) implies {
        let a = r.accounts[c];
        2 * crate::transaction_processor::MIN_FUNDS <= a.available + a.held <= 2 * crate::transaction_processor::MAX_FUNDS
    } by {
        assert(within_funds(r.accounts[c].available as int));
    }
}

/// A dispute that was applied, followed at once by a resolve of the same id
/// from the same client, is accepted and gives back exactly the ledger as it
/// was before the dispute: balances and the stored record alike.
pub proof fn lemma_dispute_then_resolve_restores(
    s: LedgerState,
    dispute: Transaction,
    resolve: Transaction,
)
    requires
        s.well_formed(),
        dispute.of_type == TransactionType::Dispute,
        resolve.of_type == TransactionType::Resolve,
        resolve.id == dispute.id,
        resolve.client_id == dispute.client_id,
        step(s, dispute).1 is Ok,
    ensures
        step(step(s, dispute).0, resolve).1 is Ok,
        step(step(s, dispute).0, resolve).0 == s,
{
    let c = dispute.client_id;
    let id = dispute.id;
    let s1 = step(s, dispute).0;
    let s2 = step(s1, resolve).0;
    let d = s.history[id];
    assert(s.accounts.contains_key(c));
    assert(s.accounts[c].client_id == c);
    assert(s2.accounts =~= s.accounts);
    assert(s2.history =~= s.history);
}

/// A chargeback right after an applied dispute of the same id from the same
/// client is accepted: it removes the disputed amount from `held`, leaves
/// `available` alone and locks the account; after that any transaction of
/// that client is rejected and changes nothing.
pub proof fn lemma_dispute_then_chargeback_locks(
    s: LedgerState,
    dispute: Transaction,
    chargeback: Transaction,
    later: Transaction,
)
    requires
        s.well_formed(),
        dispute.of_type == TransactionType::Dispute,
        chargeback.of_type == TransactionType::Chargeback,
        chargeback.id == dispute.id,
        chargeback.client_id == dispute.client_id,
        later.client_id == dispute.client_id,
        step(s, dispute).1 is Ok,
    ensures
        ({
            let c = dispute.client_id;
            let s1 = step(s, dispute).0;
            let s2 = step(s1, chargeback).0;
            &&& step(s1, chargeback).1 is Ok
            &&& s2.accounts[c].held == s1.accounts[c].held - disputed_amount(s.history[dispute.id])
            &&& s2.accounts[c].available == s1.accounts[c].available
            &&& s2.accounts[c].locked
            &&& step(s2, later) == (s2, Err::<(), Rejection>(Rejection::AccountLocked))
        }),
{
    let c = dispute.client_id;
    assert(s.accounts.contains_key(c));
    assert(s.accounts[c].client_id == c);
}

/// A dispute of an id that is not stored, or is already under dispute, or
/// belongs to another client, is rejected and changes nothing; in particular
/// it creates no account.
pub proof fn lemma_rejected_dispute_changes_nothing(s: LedgerState, t: Transaction)
    requires
        t.of_type == TransactionType::Dispute,
        !s.history.contains_key(t.id) || s.history[t.id].under_dispute
            || s.history[t.id].client_id != t.client_id,
    ensures
        step(s, t).1 is Err,
        step(s, t).0 == s,
{
}

/// A withdrawal of more than is available is rejected and leaves the
/// balances unchanged; the only change it can make is to create the client's
/// empty account when it had none.
pub proof fn lemma_overdraft_rejected(s: LedgerState, t: Transaction)
    requires
        t.of_type == TransactionType::Withdrawal,
        t.amount > s.account_or_new(t.client_id).available,
    ensures
        step(s, t).1 is Err,
        step(s, t).0.history == s.history,
        step(s, t).0.accounts == s.accounts.insert(t.client_id, s.account_or_new(t.client_id)),
        s.accounts.contains_key(t.client_id) ==> step(s, t).0 == s,
        !s.accounts.contains_key(t.client_id) ==> step(s, t).0.accounts[t.client_id] == Account::empty(
            t.client_id,
        ),
{
    if s.accounts.contains_key(t.client_id) {
        assert(s.accounts.insert(t.client_id, s.accounts[t.client_id]) =~= s.accounts);
    }
}

} // verus!
