use crate::decimal::{amount_of, natural_of, parse_amount, parse_natural};
use crate::transaction::{
    spells, type_of_token, Transaction, TransactionType, MAX_INCLUSIVE_TRANSACTION_AMOUNT,
    MIN_EXCLUSIVE_TRANSACTION_AMOUNT,
};
use vstd::prelude::*;

verus! {

/// Why an input row did not become a transaction.
#[derive(Debug, Clone, Copy, PartialEq, Eq, Structural)]
pub enum DecodeError {
    /// The header row lacks one of the columns `type`, `client`, `tx`, `amount`.
    MissingColumn,
    /// The row has more or fewer fields than the header row.
    FieldCount,
    /// The `type` field is not one of the five transaction tokens.
    UnknownType,
    /// The `client` field is not a number that fits in 16 bits.
    InvalidClient,
    /// The `tx` field is not a number that fits in 32 bits.
    InvalidId,
    /// A deposit or withdrawal whose amount is not above zero and at most the ceiling.
    AmountOutOfBounds,
}

/// Whether `i` is the first position of the header `name`.
pub open spec fn first_position(headers: Seq<String>, name: Seq<char>, i: int) -> bool {
    &&& 0 <= i < headers.len()
    &&& headers[i]@ == name
    &&& forall|k: int| 0 <= k < i ==> headers[k]@ != name
}

pub open spec fn has_header(headers: Seq<String>, name: Seq<char>) -> bool {
    exists|i: int| 0 <= i < headers.len() && headers[i]@ == name
}

pub open spec fn type_header() -> Seq<char> {
    seq!['t', 'y', 'p', 'e']
}

pub open spec fn client_header() -> Seq<char> {
    seq!['c', 'l', 'i', 'e', 'n', 't']
}

pub open spec fn tx_header() -> Seq<char> {
    seq!['t', 'x']
}

pub open spec fn amount_header() -> Seq<char> {
    seq!['a', 'm', 'o', 'u', 'n', 't']
}

/// Where each field stands in a row, as the header row names them; `width`
/// is the number of header fields, which every row must have.
#[derive(Debug, Clone, Copy, PartialEq, Eq, Structural)]
pub struct Columns {
    pub of_type: usize,
    pub client: usize,
    pub tx: usize,
    pub amount: usize,
    pub width: usize,
}

fn find_column(headers: &Vec<String>, name: &Vec<char>) -> (r: Option<usize>)
    ensures
        match r {
            Some(i) => first_position(headers@, name@, i as int),
            None => !has_header(headers@, name@),
        },
{
    let mut i: usize = 0;
    while i < headers.len()
        invariant
            0 <= i <= headers@.len(),
            forall|k: int| 0 <= k < i ==> headers@[k]@ != name@,
        decreases headers@.len() - i,
    {
        if spells(headers[i].as_str(), name) {
            return Some(i);
        }
        i = i + 1;
    }
    None
}

impl Columns {
    /// Finds the columns `type`, `client`, `tx` and `amount`, in any order,
    /// each at its first occurrence; `None` when one is missing.
    pub fn from_headers(headers: &Vec<String>) -> (r: Option<Columns>)
        ensures
            r is Some <==> (has_header(headers@, type_header()) && has_header(headers@, client_header())
                && has_header(headers@, tx_header()) && has_header(headers@, amount_header())),
            r matches Some(c) ==> {
                &&& first_position(headers@, type_header(), c.of_type as int)
                &&& first_position(headers@, client_header(), c.client as int)
                &&& first_position(headers@, tx_header(), c.tx as int)
                &&& first_position(headers@, amount_header(), c.amount as int)
                &&& c.width == headers@.len()
            },
    {
        let of_type = find_column(headers, &vec!['t', 'y', 'p', 'e']);
        let client = find_column(headers, &vec!['c', 'l', 'i', 'e', 'n', 't']);
        let tx = find_column(headers, &vec!['t', 'x']);
        let amount = find_column(headers, &vec!['a', 'm', 'o', 'u', 'n', 't']);
        match (of_type, client, tx, amount) {
            (Some(of_type), Some(client), Some(tx), Some(amount)) => Some(
                Columns { of_type, client, tx, amount, width: headers.len() },
            ),
            _ => None,
        }
    }

    /// Whether a row of `n` fields matches the header row.
    pub open spec fn fits_row(self, n: int) -> bool {
        &&& n == self.width
        &&& self.of_type < n
        &&& self.client < n
        &&& self.tx < n
        &&& self.amount < n
    }
}

/// A row's fields, decoded but for the amount, which stays text.
#[derive(Debug, PartialEq, Eq)]
pub struct TransactionDTO {
    pub of_type: TransactionType,
    pub client: u16,
    pub tx: u32,
    pub amount: String,
}

/// The first reason, if any, why a row cannot be read into a `TransactionDTO`.
pub open spec fn record_error(c: Columns, fields: Seq<String>) -> Option<DecodeError> {
    if !c.fits_row(fields.len() as int) {
        Some(DecodeError::FieldCount)
    } else if type_of_token(fields[c.of_type as int]@) is None {
        Some(DecodeError::UnknownType)
    } else if !(natural_of(fields[c.client as int]@) matches Some(n) && n <= u16::MAX) {
        Some(DecodeError::InvalidClient)
    } else if !(natural_of(fields[c.tx as int]@) matches Some(n) && n <= u32::MAX) {
        Some(DecodeError::InvalidId)
    } else {
        None
    }
}

/// The amount a field holds in units; text that is no amount counts as zero.
pub open spec fn amount_or_zero(s: Seq<char>) -> i64 {
    match amount_of(s) {
        Some(v) => v as i64,
        None => 0,
    }
}

pub open spec fn dto_transaction(d: TransactionDTO) -> Transaction {
    Transaction {
        of_type: d.of_type,
        client_id: d.client,
        id: d.tx,
        amount: amount_or_zero(d.amount@),
        under_dispute: false,
    }
}

/// Whether an amount is allowed on a deposit or withdrawal: above zero and at
/// most the ceiling.
pub open spec fn amount_in_bounds(amount: int) -> bool {
    MIN_EXCLUSIVE_TRANSACTION_AMOUNT < amount <= MAX_INCLUSIVE_TRANSACTION_AMOUNT
}

/// The transaction a row becomes, or why it does not.
pub open spec fn decoded(c: Columns, fields: Seq<String>) -> Result<Transaction, DecodeError> {
    match record_error(c, fields) {
        Some(e) => Err(e),
        None => {
            let t = Transaction {
                of_type: type_of_token(fields[c.of_type as int]@)->0,
                client_id: natural_of(fields[c.client as int]@)->0 as u16,
                id: natural_of(fields[c.tx as int]@)->0 as u32,
                amount: amount_or_zero(fields[c.amount as int]@),
                under_dispute: false,
            };
            if t.of_type.moves_funds() && !amount_in_bounds(t.amount as int) {
                Err(DecodeError::AmountOutOfBounds)
            } else {
                Ok(t)
            }
        },
    }
}

impl TransactionDTO {
    /// Reads the fields of one row, placed as `columns` says.
    pub fn from_record(columns: &Columns, fields: &Vec<String>) -> (r: Result<TransactionDTO, DecodeError>)
        ensures
            match record_error(*columns, fields@) {
                Some(e) => r == Err::<TransactionDTO, DecodeError>(e),
                None => r matches Ok(d) && {
                    &&& Some(d.of_type) == type_of_token(fields@[columns.of_type as int]@)
                    &&& Some(d.client as int) == natural_of(fields@[columns.client as int]@)
                    &&& Some(d.tx as int) == natural_of(fields@[columns.tx as int]@)
                    &&& d.amount@ == fields@[columns.amount as int]@
                },
            },
    {
        let n = fields.len();
        if n != columns.width || columns.of_type >= n || columns.client >= n || columns.tx >= n
            || columns.amount >= n
        {
            return Err(DecodeError::FieldCount);
        }
        let of_type = match TransactionType::from_token(fields[columns.of_type].as_str()) {
            Some(t) => t,
            None => return Err(DecodeError::UnknownType),
        };
        let client = match parse_natural(fields[columns.client].as_str(), 0xFFFF) {
            Some(v) => v as u16,
            None => return Err(DecodeError::InvalidClient),
        };
        let tx = match parse_natural(fields[columns.tx].as_str(), 0xFFFF_FFFF) {
            Some(v) => v as u32,
            None => return Err(DecodeError::InvalidId),
        };
        let amount = fields[columns.amount].clone();
        Ok(TransactionDTO { of_type, client, tx, amount })
    }

    /// The transaction the row describes; an amount that does not read as a
    /// decimal counts as zero.
    pub fn to_transaction(&self) -> (r: Transaction)
        ensures
            r == dto_transaction(*self),
    {
        let amount = match parse_amount(self.amount.as_str()) {
            Some(v) => v,
            None => 0,
        };
        Transaction {
            of_type: self.of_type,
            client_id: self.client,
            id: self.tx,
            amount,
            under_dispute: false,
        }
    }
}

/// Turns a read row into a transaction, rejecting a deposit or withdrawal
/// whose amount is not above zero and at most the ceiling.
pub fn parse_transaction(parsed: Result<TransactionDTO, DecodeError>) -> (r: Result<Transaction, DecodeError>)
    ensures
        match parsed {
            Err(e) => r == Err::<Transaction, DecodeError>(e),
            Ok(d) => if dto_transaction(d).of_type.moves_funds() && !amount_in_bounds(
                dto_transaction(d).amount as int,
            ) {
                r == Err::<Transaction, DecodeError>(DecodeError::AmountOutOfBounds)
            } else {
                r == Ok::<Transaction, DecodeError>(dto_transaction(d))
            },
        },
{
    let dto = match parsed {
        Ok(d) => d,
        Err(e) => return Err(e),
    };
    let transaction = dto.to_transaction();
    if transaction.of_type.carries_amount() {
        if transaction.amount <= MIN_EXCLUSIVE_TRANSACTION_AMOUNT || transaction.amount
            > MAX_INCLUSIVE_TRANSACTION_AMOUNT {
            return Err(DecodeError::AmountOutOfBounds);
        }
    }
    Ok(transaction)
}

/// Decodes one row of fields into a transaction, as `decoded` says.
pub fn decode_record(columns: &Columns, fields: &Vec<String>) -> (r: Result<Transaction, DecodeError>)
    ensures
        r == decoded(*columns, fields@),
{
    parse_transaction(TransactionDTO::from_record(columns, fields))
}

} // verus!
