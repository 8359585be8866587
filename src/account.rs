use crate::decimal::{decimal_text, push_char, push_decimal, push_units, units_text};
use vstd::prelude::*;

verus! {

/// The balances of one client, in fixed-point units.
#[derive(Debug, Clone, Copy, PartialEq, Eq, Structural)]
pub struct Account {
    pub client_id: u16,
    pub available: i64,
    pub held: i64,
    pub locked: bool,
}

impl Account {
    /// A fresh, empty, unlocked account.
    pub open spec fn empty(client_id: u16) -> Account {
        Account { client_id, available: 0, held: 0, locked: false }
    }

    pub fn new_with_client(client_id: u16) -> (r: Account)
        ensures
            r == Account::empty(client_id),
    {
        Account { client_id, available: 0, held: 0, locked: false }
    }

    pub fn new(client_id: u16, available: i64, held: i64, locked: bool) -> (r: Account)
        ensures
            r == (Account { client_id, available, held, locked }),
    {
        Account { client_id, available, held, locked }
    }

    /// The total balance, available plus held; never stored on its own.
    pub fn total(&self) -> (r: i128)
        ensures
            r == self.available + self.held,
    {
        self.available as i128 + self.held as i128
    }
}

/// `true` or `false`, as the output spells the locked flag.
pub open spec fn bool_text(b: bool) -> Seq<char> {
    if b {
        seq!['t', 'r', 'u', 'e']
    } else {
        seq!['f', 'a', 'l', 's', 'e']
    }
}

/// The output row of an account: `client,available,held,total,locked`, the
/// three amounts with four fractional digits.
pub open spec fn summary_text(a: Account) -> Seq<char> {
    decimal_text(a.client_id as nat) + seq![','] + units_text(a.available as int) + seq![',']
        + units_text(a.held as int) + seq![','] + units_text(a.available + a.held) + seq![',']
        + bool_text(a.locked)
}

impl Account {
    /// The account as one output row, `summary_text`.
    pub fn summary_row(&self) -> (r: String)
        ensures
            r@ == summary_text(*self),
    {
        let mut out = String::new();
        push_decimal(&mut out, self.client_id as u128);
        push_char(&mut out, ',');
        push_units(&mut out, self.available as i128);
        push_char(&mut out, ',');
        push_units(&mut out, self.held as i128);
        push_char(&mut out, ',');
        push_units(&mut out, self.total());
        push_char(&mut out, ',');
        if self.locked {
            push_char(&mut out, 't');
            push_char(&mut out, 'r');
            push_char(&mut out, 'u');
            push_char(&mut out, 'e');
        } else {
            push_char(&mut out, 'f');
            push_char(&mut out, 'a');
            push_char(&mut out, 'l');
            push_char(&mut out, 's');
            push_char(&mut out, 'e');
        }
        assert(out@ =~= summary_text(*self));
        out
    }
}

} // verus!
