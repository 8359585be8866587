use vstd::prelude::*;

verus! {

/// Number of fixed-point units in one whole currency unit (four fractional digits).
pub const UNITS_PER_WHOLE: i64 = 10_000;

/// A deposit or withdrawal must be strictly above this amount, in units.
pub const MIN_EXCLUSIVE_TRANSACTION_AMOUNT: i64 = 0;

/// A deposit or withdrawal may be at most this amount, in units (one billion).
pub const MAX_INCLUSIVE_TRANSACTION_AMOUNT: i64 = 10_000_000_000_000;

#[derive(Debug, Clone, Copy, PartialEq, Eq, Structural)]
pub enum TransactionType {
    Deposit,
    Withdrawal,
    Dispute,
    Resolve,
    Chargeback,
}

/// One record of the input stream. `amount` is in units and only meaningful
/// for deposits and withdrawals; `under_dispute` is ledger state, true while a
/// stored deposit or withdrawal has an open dispute.
#[derive(Debug, Clone, Copy, PartialEq, Eq, Structural)]
pub struct Transaction {
    pub of_type: TransactionType,
    pub client_id: u16,
    pub id: u32,
    pub amount: i64,
    pub under_dispute: bool,
}

impl TransactionType {
    /// Deposits and withdrawals move funds and carry an amount; the other
    /// kinds refer to an earlier deposit or withdrawal by its id.
    pub open spec fn moves_funds(self) -> bool {
        self is Deposit || self is Withdrawal
    }

    pub fn carries_amount(&self) -> (r: bool)
        ensures
            r == self.moves_funds(),
    {
        match self {
            TransactionType::Deposit | TransactionType::Withdrawal => true,
            _ => false,
        }
    }
}

/// The transaction kind named by an input token.
pub open spec fn type_of_token(t: Seq<char>) -> Option<TransactionType> {
    if t == seq!['d', 'e', 'p', 'o', 's', 'i', 't'] {
        Some(TransactionType::Deposit)
    } else if t == seq!['w', 'i', 't', 'h', 'd', 'r', 'a', 'w', 'a', 'l'] {
        Some(TransactionType::Withdrawal)
    } else if t == seq!['d', 'i', 's', 'p', 'u', 't', 'e'] {
        Some(TransactionType::Dispute)
    } else if t == seq!['r', 'e', 's', 'o', 'l', 'v', 'e'] {
        Some(TransactionType::Resolve)
    } else if t == seq!['c', 'h', 'a', 'r', 'g', 'e', 'b', 'a', 'c', 'k'] {
        Some(TransactionType::Chargeback)
    } else {
        None
    }
}

/// Whether `s` spells exactly the characters of `word`.
pub(crate) fn spells(s: &str, word: &Vec<char>) -> (r: bool)
    ensures
        r == (s@ == word@),
{
    let n = s.unicode_len();
    if n != word.len() {
        return false;
    }
    let mut i: usize = 0;
    while i < n
        invariant
            n == s@.len(),
            n == word@.len(),
            0 <= i <= n,
            forall|j: int| 0 <= j < i ==> s@[j] == word@[j],
        decreases n - i,
    {
        if s.get_char(i) != word[i] {
            return false;
        }
        i = i + 1;
    }
    assert(s@ =~= word@);
    true
}

impl TransactionType {
    /// Reads one of the lowercase tokens `deposit`, `withdrawal`, `dispute`,
    /// `resolve`, `chargeback`.
    pub fn from_token(token: &str) -> (r: Option<TransactionType>)
        ensures
            r == type_of_token(token@),
    {
        if spells(token, &vec!['d', 'e', 'p', 'o', 's', 'i', 't']) {
            Some(TransactionType::Deposit)
        } else if spells(token, &vec!['w', 'i', 't', 'h', 'd', 'r', 'a', 'w', 'a', 'l']) {
            Some(TransactionType::Withdrawal)
        } else if spells(token, &vec!['d', 'i', 's', 'p', 'u', 't', 'e']) {
            Some(TransactionType::Dispute)
        } else if spells(token, &vec!['r', 'e', 's', 'o', 'l', 'v', 'e']) {
            Some(TransactionType::Resolve)
        } else if spells(token, &vec!['c', 'h', 'a', 'r', 'g', 'e', 'b', 'a', 'c', 'k']) {
            Some(TransactionType::Chargeback)
        } else {
            None
        }
    }
}

} // verus!
