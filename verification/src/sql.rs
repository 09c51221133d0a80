//! Statements for the database, and how numbers are stored in it.

use vstd::prelude::*;

verus! {

/// A value that is bound to a parameter of a statement.
#[derive(Clone, Debug, PartialEq, Eq)]
pub enum SqlValue {
    Blob(Vec<u8>),
    Integer(i64),
    Text(String),
}

/// A statement and the values of its parameters, in their order.
#[derive(Clone, Debug, PartialEq, Eq)]
pub struct Statement {
    pub sql: String,
    pub params: Vec<SqlValue>,
}

/// The contents of an `SqlValue`.
pub enum SqlModel {
    Blob(Seq<u8>),
    Integer(i64),
    Text(Seq<char>),
}

/// The contents of a `Statement`.
pub struct StatementModel {
    pub sql: Seq<char>,
    pub params: Seq<SqlModel>,
}

impl View for SqlValue {
    type V = SqlModel;

    open spec fn view(&self) -> SqlModel {
        match self {
            SqlValue::Blob(bytes) => SqlModel::Blob(bytes@),
            SqlValue::Integer(n) => SqlModel::Integer(*n),
            SqlValue::Text(text) => SqlModel::Text(text@),
        }
    }
}

impl View for Statement {
    type V = StatementModel;

    open spec fn view(&self) -> StatementModel {
        StatementModel {
            sql: self.sql@,
            params: self.params@.map_values(|value: SqlValue| value@),
        }
    }
}

/// The database: the statements that read and change it.
#[derive(Clone, Copy, Debug, PartialEq, Eq)]
pub struct Database {
}

/// The signed number that an unsigned one is stored as. The upper half of the range comes out
/// negative.
pub open spec fn stored(n: u64) -> i64 {
    if n < 0x8000_0000_0000_0000 {
        n as i64
    } else {
        (n - 0x1_0000_0000_0000_0000) as i64
    }
}

/// The unsigned number that is stored as a signed one.
pub open spec fn loaded(n: i64) -> u64 {
    if n >= 0 {
        n as u64
    } else {
        (n + 0x1_0000_0000_0000_0000) as u64
    }
}

/// Turns an unsigned number into what it is stored as.
pub fn to_stored(n: u64) -> (r: i64)
    ensures
        r == stored(n),
{
    assert((n as i64) == if n < 0x8000_0000_0000_0000 {
        n as int
    } else {
        n - 0x1_0000_0000_0000_0000
    }) by (bit_vector);
    n as i64
}

/// Turns a stored number back.
pub fn from_stored(n: i64) -> (r: u64)
    ensures
        r == loaded(n),
{
    assert((n as u64) == if n >= 0 {
        n as int
    } else {
        n + 0x1_0000_0000_0000_0000
    }) by (bit_vector);
    n as u64
}

/// Every number is read back as it was stored.
pub proof fn law_numbers_round_trip(n: u64, m: i64)
    ensures
        loaded(stored(n)) == n,
        stored(loaded(m)) == m,
{
}

/// A number is stored as the signed number with the same 64 bits: itself where it fits, and
/// otherwise less by the 64th power of two.
pub proof fn law_numbers_keep_their_bits(n: u64)
    ensures
        n <= i64::MAX ==> stored(n) == n,
        n > i64::MAX ==> stored(n) == n - 0x1_0000_0000_0000_0000,
{
}

/// A statement has the text and the parameters that it shows, each parameter as it is bound.
pub proof fn law_statement_shows_what_it_holds(statement: Statement)
    ensures
        statement@.sql == statement.sql@,
        statement@.params.len() == statement.params@.len(),
        forall|i: int|
            0 <= i < statement.params@.len() ==> match #[trigger] statement.params@[i] {
                SqlValue::Blob(bytes) => statement@.params[i] == SqlModel::Blob(bytes@),
                SqlValue::Integer(n) => statement@.params[i] == SqlModel::Integer(n),
                SqlValue::Text(text) => statement@.params[i] == SqlModel::Text(text@),
            },
{
}

/// A parameter that is a run of bytes.
pub fn blob(bytes: &[u8]) -> (r: SqlValue)
    ensures
        r@ == SqlModel::Blob(bytes@),
{
    SqlValue::Blob(vstd::slice::slice_to_vec(bytes))
}

/// A parameter that is a text.
pub fn text(s: &str) -> (r: SqlValue)
    ensures
        r@ == SqlModel::Text(s@),
{
    SqlValue::Text(s.to_owned())
}

/// Makes a statement without parameters.
pub fn plain_statement(sql: String) -> (r: Statement)
    ensures
        r@ == (StatementModel { sql: sql@, params: seq![] }),
{
    let r = Statement { sql, params: Vec::new() };
    assert(r@.params =~= seq![]);
    r
}

} // verus!
