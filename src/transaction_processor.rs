use crate::account::Account;
use crate::transaction::{Transaction, TransactionType};
use crate::transaction_parser::DecodeError;
use std::collections::HashMap;
use vstd::prelude::*;

verus! {

broadcast use vstd::std_specs::hash::group_hash_axioms;

/// Lowest balance, in units, that `available` or `held` may reach.
pub const MIN_FUNDS: i64 = -10_000_000_000_000;

/// Highest balance, in units, that `available` or `held` may reach.
pub const MAX_FUNDS: i64 = 10_000_000_000_000;

/// Why a transaction was not applied.
#[derive(Debug, Clone, Copy, PartialEq, Eq, Structural)]
pub enum Rejection {
    /// The client's account is locked by an earlier chargeback.
    AccountLocked,
    /// A withdrawal asks for more than is available.
    InsufficientFunds,
    /// A balance would leave `[MIN_FUNDS, MAX_FUNDS]`.
    OutOfBounds,
    /// A dispute names an id that is not stored or is already under dispute.
    NotDisputable,
    /// A resolve or chargeback names an id that is not stored or not under dispute.
    NotUnderDispute,
    /// The referenced transaction belongs to another client.
    ClientMismatch,
}

pub open spec fn within_funds(v: int) -> bool {
    MIN_FUNDS <= v <= MAX_FUNDS
}

/// Whether moving `da` into available and `dh` into held keeps both in bounds.
pub open spec fn fits(a: Account, da: int, dh: int) -> bool {
    within_funds(a.available + da) && within_funds(a.held + dh)
}

/// The account after adding `da` to available and `dh` to held; `lock`
/// locks it, and a locked account stays locked.
pub open spec fn shifted(a: Account, da: int, dh: int, lock: bool) -> Account {
    Account {
        client_id: a.client_id,
        available: (a.available + da) as i64,
        held: (a.held + dh) as i64,
        locked: a.locked || lock,
    }
}

/// What a dispute moves from available to held: a deposit's amount, or the
/// negation of a withdrawal's amount.
pub open spec fn disputed_amount(t: Transaction) -> int {
    match t.of_type {
        TransactionType::Withdrawal => -t.amount,
        _ => t.amount as int,
    }
}

/// The stored record `t` with its dispute flag set to `under_dispute`.
pub open spec fn flagged(t: Transaction, under_dispute: bool) -> Transaction {
    Transaction { under_dispute, ..t }
}

/// The abstract state of a ledger: the account of each client seen, and the
/// deposits and withdrawals applied, by transaction id.
pub struct LedgerState {
    pub accounts: Map<u16, Account>,
    pub history: Map<u32, Transaction>,
}

impl LedgerState {
    pub open spec fn empty() -> LedgerState {
        LedgerState { accounts: Map::empty(), history: Map::empty() }
    }

    pub open spec fn is_locked(self, client_id: u16) -> bool {
        self.accounts.contains_key(client_id) && self.accounts[client_id].locked
    }

    /// The client's account, or the empty one that a first reference creates.
    pub open spec fn account_or_new(self, client_id: u16) -> Account {
        if self.accounts.contains_key(client_id) {
            self.accounts[client_id]
        } else {
            Account::empty(client_id)
        }
    }

    /// Each account is filed under its own client and within bounds; each
    /// stored record is a deposit or withdrawal of a client that has an account.
    pub open spec fn well_formed(self) -> bool {
        &&& forall|c: u16| #[trigger]
            self.accounts.contains_key(c) ==> {
                &&& self.accounts[c].client_id == c
                &&& within_funds(self.accounts[c].available as int)
                &&& within_funds(self.accounts[c].held as int)
            }
        &&& forall|id: u32| #[trigger]
            self.history.contains_key(id) ==> {
                &&& self.history[id].of_type.moves_funds()
                &&& self.accounts.contains_key(self.history[id].client_id)
            }
    }

    pub open spec fn with_account(self, client_id: u16, a: Account) -> LedgerState {
        LedgerState { accounts: self.accounts.insert(client_id, a), history: self.history }
    }

    pub open spec fn with_entry(self, id: u32, t: Transaction) -> LedgerState {
        LedgerState { accounts: self.accounts, history: self.history.insert(id, t) }
    }
}

pub open spec fn deposit_step(s: LedgerState, t: Transaction) -> (LedgerState, Result<(), Rejection>) {
    let a = s.account_or_new(t.client_id);
    if fits(a, t.amount as int, 0) {
        (
            s.with_account(t.client_id, shifted(a, t.amount as int, 0, false)).with_entry(
                t.id,
                flagged(t, false),
            ),
            Ok(()),
        )
    } else {
        (s, Err(Rejection::OutOfBounds))
    }
}

/// A withdrawal first creates the client's account if it is missing, and
/// that creation stays even when the withdrawal is then rejected.
pub open spec fn withdrawal_step(s: LedgerState, t: Transaction) -> (
    LedgerState,
    Result<(), Rejection>,
) {
    let a = s.account_or_new(t.client_id);
    let probed = s.with_account(t.client_id, a);
    if a.available < t.amount {
        (probed, Err(Rejection::InsufficientFunds))
    } else if fits(a, -t.amount, 0) {
        (
            s.with_account(t.client_id, shifted(a, -t.amount, 0, false)).with_entry(
                t.id,
                flagged(t, false),
            ),
            Ok(()),
        )
    } else {
        (probed, Err(Rejection::OutOfBounds))
    }
}

pub open spec fn dispute_step(s: LedgerState, t: Transaction) -> (LedgerState, Result<(), Rejection>) {
    if !(s.history.contains_key(t.id) && !s.history[t.id].under_dispute) {
        (s, Err(Rejection::NotDisputable))
    } else if s.history[t.id].client_id != t.client_id {
        (s, Err(Rejection::ClientMismatch))
    } else {
        let d = s.history[t.id];
        let amt = disputed_amount(d);
        let a = s.accounts[t.client_id];
        if fits(a, -amt, amt) {
            (
                s.with_account(t.client_id, shifted(a, -amt, amt, false)).with_entry(
                    t.id,
                    flagged(d, true),
                ),
                Ok(()),
            )
        } else {
            (s, Err(Rejection::OutOfBounds))
        }
    }
}

pub open spec fn resolve_step(s: LedgerState, t: Transaction) -> (LedgerState, Result<(), Rejection>) {
    if !(s.history.contains_key(t.id) && s.history[t.id].under_dispute) {
        (s, Err(Rejection::NotUnderDispute))
    } else if s.history[t.id].client_id != t.client_id {
        (s, Err(Rejection::ClientMismatch))
    } else {
        let d = s.history[t.id];
        let amt = disputed_amount(d);
        let a = s.accounts[t.client_id];
        if fits(a, amt, -amt) {
            (
                s.with_account(t.client_id, shifted(a, amt, -amt, false)).with_entry(
                    t.id,
                    flagged(d, false),
                ),
                Ok(()),
            )
        } else {
            (s, Err(Rejection::OutOfBounds))
        }
    }
}

pub open spec fn chargeback_step(s: LedgerState, t: Transaction) -> (
    LedgerState,
    Result<(), Rejection>,
) {
    if !(s.history.contains_key(t.id) && s.history[t.id].under_dispute) {
        (s, Err(Rejection::NotUnderDispute))
    } else if s.history[t.id].client_id != t.client_id {
        (s, Err(Rejection::ClientMismatch))
    } else {
        let d = s.history[t.id];
        let amt = disputed_amount(d);
        let a = s.accounts[t.client_id];
        if fits(a, 0, -amt) {
            (
                s.with_account(t.client_id, shifted(a, 0, -amt, true)).with_entry(
                    t.id,
                    flagged(d, false),
                ),
                Ok(()),
            )
        } else {
            (s, Err(Rejection::OutOfBounds))
        }
    }
}

/// One transaction applied to the ledger: the next state, and whether it was
/// applied or why not. Nothing reaches a locked account.
pub open spec fn step(s: LedgerState, t: Transaction) -> (LedgerState, Result<(), Rejection>) {
    if s.is_locked(t.client_id) {
        (s, Err(Rejection::AccountLocked))
    } else {
        match t.of_type {
            TransactionType::Deposit => deposit_step(s, t),
            TransactionType::Withdrawal => withdrawal_step(s, t),
            TransactionType::Dispute => dispute_step(s, t),
            TransactionType::Resolve => resolve_step(s, t),
            TransactionType::Chargeback => chargeback_step(s, t),
        }
    }
}

/// The ledger after one record of the input: a row that failed to decode is skipped.
pub open spec fn after_record(s: LedgerState, record: Result<Transaction, DecodeError>) -> LedgerState {
    match record {
        Ok(t) => step(s, t).0,
        Err(_) => s,
    }
}

/// The ledger after the records, in order.
pub open spec fn run(s: LedgerState, records: Seq<Result<Transaction, DecodeError>>) -> LedgerState
    decreases records.len(),
{
    if records.len() == 0 {
        s
    } else {
        after_record(run(s, records.drop_last()), records.last())
    }
}

/// The ledger engine: owns every account and every stored deposit and withdrawal.
pub struct TransactionProcessor {
    account_map: HashMap<u16, Account>,
    transaction_map: HashMap<u32, Transaction>,
}

impl View for TransactionProcessor {
    type V = LedgerState;

    closed spec fn view(&self) -> LedgerState {
        LedgerState { accounts: self.account_map@, history: self.transaction_map@ }
    }
}

impl TransactionProcessor {
    /// A ledger with no accounts and no stored transactions.
    pub fn new() -> (r: TransactionProcessor)
        ensures
            r@ == LedgerState::empty(),
            r@.well_formed(),
    {
        TransactionProcessor { account_map: HashMap::new(), transaction_map: HashMap::new() }
    }

    /// A copy of every account, by client id.
    pub fn get_account_map(&self) -> (r: HashMap<u16, Account>)
        ensures
            r@ == self@.accounts,
    {
        self.account_map.clone()
    }

    fn account_is_locked(&self, client_id: u16) -> (r: bool)
        ensures
            r == self@.is_locked(client_id),
    {
        match self.account_map.get(&client_id) {
            None => false,
            Some(account) => account.locked,
        }
    }

    /// Adds `available` and `held` to the client's account (an empty one if it
    /// is missing) when both balances stay in bounds; otherwise changes nothing.
    fn insert_or_update_account(&mut self, client_id: u16, available: i128, held: i128, locked: bool) -> (r: bool)
        requires
            old(self)@.well_formed(),
            -0x1_0000_0000_0000_0000 <= available <= 0x1_0000_0000_0000_0000,
            -0x1_0000_0000_0000_0000 <= held <= 0x1_0000_0000_0000_0000,
        ensures
            final(self)@.well_formed(),
            r == fits(old(self)@.account_or_new(client_id), available as int, held as int),
            r ==> final(self)@ == old(self)@.with_account(
                client_id,
                shifted(old(self)@.account_or_new(client_id), available as int, held as int, locked),
            ),
            !r ==> final(self)@ == old(self)@,
    {
        let account = match self.account_map.get(&client_id) {
            Some(a) => *a,
            None => Account::new_with_client(client_id),
        };
        assert(account == old(self)@.account_or_new(client_id));
        assert(account.client_id == client_id);
        let new_available = account.available as i128 + available;
        let new_held = account.held as i128 + held;
        if new_available < MIN_FUNDS as i128 || new_available > MAX_FUNDS as i128
            || new_held < MIN_FUNDS as i128 || new_held > MAX_FUNDS as i128
        {
            return false;
        }
        self.account_map.insert(
            client_id,
            Account {
                client_id: account.client_id,
                available: new_available as i64,
                held: new_held as i64,
                locked: account.locked || locked,
            },
        );
        proof {
            let s = self@;
            assert forall|c: u16| #[trigger] s.accounts.contains_key(c) implies {
                &&& s.accounts[c].client_id == c
                &&& within_funds(s.accounts[c].available as int)
                &&& within_funds(s.accounts[c].held as int)
            } by {
                if c != client_id {
                    assert(old(self)@.accounts.contains_key(c));
                }
            }
            assert forall|id: u32| #[trigger] s.history.contains_key(id) implies s.accounts.contains_key(
                s.history[id].client_id,
            ) by {
                assert(old(self)@.accounts.contains_key(old(self)@.history[id].client_id));
            }
        }
        true
    }

    /// Creates the client's account if it is missing, then tells whether it
    /// holds at least the withdrawal's amount.
    fn account_has_sufficient_funds(&mut self, transaction: &Transaction) -> (r: bool)
        requires
            old(self)@.well_formed(),
        ensures
            final(self)@.well_formed(),
            final(self)@ == old(self)@.with_account(
                transaction.client_id,
                old(self)@.account_or_new(transaction.client_id),
            ),
            r == (old(self)@.account_or_new(transaction.client_id).available >= transaction.amount),
    {
        let ghost a = self@.account_or_new(transaction.client_id);
        self.insert_or_update_account(transaction.client_id, 0, 0, false);
        proof {
            assert(shifted(a, 0, 0, false) == a);
        }
        let available = match self.account_map.get(&transaction.client_id) {
            Some(account) => account.available,
            None => 0,
        };
        available >= transaction.amount
    }

    fn insert_transaction(&mut self, transaction: Transaction)
        requires
            old(self)@.well_formed(),
            transaction.of_type.moves_funds(),
            old(self)@.accounts.contains_key(transaction.client_id),
        ensures
            final(self)@.well_formed(),
            final(self)@ == old(self)@.with_entry(transaction.id, transaction),
    {
        self.transaction_map.insert(transaction.id, transaction);
    }

    fn set_transaction_under_dispute(&mut self, id: u32, under_dispute: bool)
        requires
            old(self)@.well_formed(),
            old(self)@.history.contains_key(id),
        ensures
            final(self)@.well_formed(),
            final(self)@ == old(self)@.with_entry(id, flagged(old(self)@.history[id], under_dispute)),
    {
        if let Some(stored) = self.transaction_map.get(&id) {
            let updated = Transaction { under_dispute, ..*stored };
            self.transaction_map.insert(id, updated);
        }
    }

    fn transaction_exists_and_not_under_dispute(&self, id: u32) -> (r: bool)
        ensures
            r == (self@.history.contains_key(id) && !self@.history[id].under_dispute),
    {
        match self.transaction_map.get(&id) {
            Some(stored) => !stored.under_dispute,
            None => false,
        }
    }

    fn transaction_exists_and_under_dispute(&self, id: u32) -> (r: bool)
        ensures
            r == (self@.history.contains_key(id) && self@.history[id].under_dispute),
    {
        match self.transaction_map.get(&id) {
            Some(stored) => stored.under_dispute,
            None => false,
        }
    }

    fn get_disputed_amount_from_transaction(transaction: &Transaction) -> (r: i128)
        ensures
            r == disputed_amount(*transaction),
    {
        match transaction.of_type {
            TransactionType::Withdrawal => -(transaction.amount as i128),
            _ => transaction.amount as i128,
        }
    }

    /// The stored record with this id, which must exist.
    fn stored_transaction(&self, id: u32) -> (r: Transaction)
        requires
            self@.history.contains_key(id),
        ensures
            r == self@.history[id],
    {
        *self.transaction_map.get(&id).unwrap()
    }
}

impl TransactionProcessor {
    /// Applies one transaction; on `Err` the reason is given and the ledger
    /// is as `step` says (unchanged, except that a withdrawal creates a
    /// missing account).
    pub fn apply(&mut self, transaction: Transaction) -> (r: Result<(), Rejection>)
        requires
            old(self)@.well_formed(),
        ensures
            final(self)@.well_formed(),
            (final(self)@, r) == step(old(self)@, transaction),
    {
        if self.account_is_locked(transaction.client_id) {
            return Err(Rejection::AccountLocked);
        }
        match transaction.of_type {
            TransactionType::Deposit => self.execute_deposit(transaction),
            TransactionType::Withdrawal => self.execute_withdrawal(transaction),
            TransactionType::Dispute => self.execute_dispute(transaction),
            TransactionType::Resolve => self.execute_resolve(transaction),
            TransactionType::Chargeback => self.execute_chargeback(transaction),
        }
    }

    /// Applies the records in order; rows that failed to decode are skipped
    /// and rejected transactions leave the ledger as `step` says.
    pub fn execute(&mut self, records: &Vec<Result<Transaction, DecodeError>>)
        requires
            old(self)@.well_formed(),
        ensures
            final(self)@.well_formed(),
            final(self)@ == run(old(self)@, records@),
    {
        let ghost start = self@;
        let mut i: usize = 0;
        while i < records.len()
            invariant
                0 <= i <= records@.len(),
                self@.well_formed(),
                self@ == run(start, records@.take(i as int)),
            decreases records@.len() - i,
        {
            proof {
                assert(records@.take(i + 1).drop_last() =~= records@.take(i as int));
            }
            match &records[i] {
                Ok(transaction) => {
                    let _ = self.apply(*transaction);
                },
                Err(_) => {},
            }
            i = i + 1;
        }
        proof {
            assert(records@.take(records@.len() as int) =~= records@);
        }
    }

    fn execute_deposit(&mut self, transaction: Transaction) -> (r: Result<(), Rejection>)
        requires
            old(self)@.well_formed(),
            transaction.of_type == TransactionType::Deposit,
        ensures
            final(self)@.well_formed(),
            (final(self)@, r) == deposit_step(old(self)@, transaction),
    {
        if !self.insert_or_update_account(transaction.client_id, transaction.amount as i128, 0, false) {
            return Err(Rejection::OutOfBounds);
        }
        self.insert_transaction(Transaction { under_dispute: false, ..transaction });
        Ok(())
    }

    fn execute_withdrawal(&mut self, transaction: Transaction) -> (r: Result<(), Rejection>)
        requires
            old(self)@.well_formed(),
            transaction.of_type == TransactionType::Withdrawal,
        ensures
            final(self)@.well_formed(),
            (final(self)@, r) == withdrawal_step(old(self)@, transaction),
    {
        let ghost s = self@;
        let ghost a = s.account_or_new(transaction.client_id);
        if !self.account_has_sufficient_funds(&transaction) {
            return Err(Rejection::InsufficientFunds);
        }
        proof {
            assert(self@.account_or_new(transaction.client_id) == a);
        }
        if !self.insert_or_update_account(
            transaction.client_id,
            -(transaction.amount as i128),
            0,
            false,
        ) {
            return Err(Rejection::OutOfBounds);
        }
        proof {
            assert(self@.accounts =~= s.with_account(
                transaction.client_id,
                shifted(a, -transaction.amount, 0, false),
            ).accounts);
        }
        self.insert_transaction(Transaction { under_dispute: false, ..transaction });
        Ok(())
    }

    fn execute_dispute(&mut self, transaction: Transaction) -> (r: Result<(), Rejection>)
        requires
            old(self)@.well_formed(),
            transaction.of_type == TransactionType::Dispute,
        ensures
            final(self)@.well_formed(),
            (final(self)@, r) == dispute_step(old(self)@, transaction),
    {
        if !self.transaction_exists_and_not_under_dispute(transaction.id) {
            return Err(Rejection::NotDisputable);
        }
        let disputed = self.stored_transaction(transaction.id);
        if disputed.client_id != transaction.client_id {
            return Err(Rejection::ClientMismatch);
        }
        let amount = Self::get_disputed_amount_from_transaction(&disputed);
        if !self.insert_or_update_account(transaction.client_id, -amount, amount, false) {
            return Err(Rejection::OutOfBounds);
        }
        self.set_transaction_under_dispute(transaction.id, true);
        Ok(())
    }

    fn execute_resolve(&mut self, transaction: Transaction) -> (r: Result<(), Rejection>)
        requires
            old(self)@.well_formed(),
            transaction.of_type == TransactionType::Resolve,
        ensures
            final(self)@.well_formed(),
            (final(self)@, r) == resolve_step(old(self)@, transaction),
    {
        if !self.transaction_exists_and_under_dispute(transaction.id) {
            return Err(Rejection::NotUnderDispute);
        }
        let disputed = self.stored_transaction(transaction.id);
        if disputed.client_id != transaction.client_id {
            return Err(Rejection::ClientMismatch);
        }
        let amount = Self::get_disputed_amount_from_transaction(&disputed);
        if !self.insert_or_update_account(transaction.client_id, amount, -amount, false) {
            return Err(Rejection::OutOfBounds);
        }
        self.set_transaction_under_dispute(transaction.id, false);
        Ok(())
    }

    fn execute_chargeback(&mut self, transaction: Transaction) -> (r: Result<(), Rejection>)
        requires
            old(self)@.well_formed(),
            transaction.of_type == TransactionType::Chargeback,
        ensures
            final(self)@.well_formed(),
            (final(self)@, r) == chargeback_step(old(self)@, transaction),
    {
        if !self.transaction_exists_and_under_dispute(transaction.id) {
            return Err(Rejection::NotUnderDispute);
        }
        let disputed = self.stored_transaction(transaction.id);
        if disputed.client_id != transaction.client_id {
            return Err(Rejection::ClientMismatch);
        }
        let amount = Self::get_disputed_amount_from_transaction(&disputed);
        if !self.insert_or_update_account(transaction.client_id, 0, -amount, true) {
            return Err(Rejection::OutOfBounds);
        }
        self.set_transaction_under_dispute(transaction.id, false);
        Ok(())
    }
}

} // verus!
