//! Writing a batch to a relational database.
//!
//! Every subspace is a table, named by the character of the subspace, with a
//! key column `k` and, where the subspace has values, a value column `v`.
//! The writer goes through a batch one operation at a time: it gives the
//! statement of the next operation ([`SqlWriter::request`]) and is told what
//! the database answered ([`SqlWriter::apply`]).  Transactions read what was
//! committed; what a batch asserts is locked until it commits.

use crate::key::Key;
use crate::retry::{Failure, FailureView};
use vstd::prelude::*;
use vstd::string::*;

verus! {

/// The forms of statement that the engine uses.
#[derive(Debug, Clone, Copy, PartialEq, Eq, Structural)]
pub enum StatementKind {
    /// Store a value under a key, whether the key exists or not.
    Upsert,
    /// Store a value under a key that does not exist.
    Insert,
    /// Store a value under a key that exists.
    Update,
    /// Add to a counter, which is created if it does not exist.
    Increment,
    /// Add to a counter that exists; none is created.
    Decrement,
    /// Add to a counter, which is created if it does not exist, and return
    /// its new value.
    IncrementAndGet,
    /// Delete a key.
    Delete,
    /// Insert a key that has no value, unless it exists.
    InsertKey,
    /// Insert a key that has no value and must not exist.
    InsertNewKey,
    /// The keys between two keys, both included.
    SelectKeys,
    /// The value under a key, which stays locked until the transaction ends.
    SelectForUpdate,
    /// Delete the keys whose value is zero.
    DeleteZero,
    /// Delete the keys from one key up to, not including, another.
    DeleteRange,
}

/// What a statement gives back.
#[derive(Debug, Clone, Copy, PartialEq, Eq, Structural)]
pub enum Returns {
    /// The number of rows that it changed.
    Affected,
    /// One row with the new value of a counter.
    Counter,
    /// A row for each key that it found.
    Keys,
    /// No row, or one row with a value.
    Value,
}

impl StatementKind {
    pub open spec fn gives_spec(self) -> Returns {
        match self {
            StatementKind::IncrementAndGet => Returns::Counter,
            StatementKind::SelectKeys => Returns::Keys,
            StatementKind::SelectForUpdate => Returns::Value,
            _ => Returns::Affected,
        }
    }

    /// What a statement of this form gives back.
    #[verifier::when_used_as_spec(gives_spec)]
    pub fn gives(self) -> (given: Returns)
        ensures
            given == self.gives_spec(),
    {
        match self {
            StatementKind::IncrementAndGet => Returns::Counter,
            StatementKind::SelectKeys => Returns::Keys,
            StatementKind::SelectForUpdate => Returns::Value,
            _ => Returns::Affected,
        }
    }
}

/// A parameter of a statement.
#[derive(Debug, Clone, PartialEq, Eq)]
pub enum SqlValue {
    Bytes(Vec<u8>),
    Integer(i64),
}

/// Mathematical image of a [`SqlValue`].
pub enum SqlValueView {
    Bytes(Seq<u8>),
    Integer(i64),
}

impl View for SqlValue {
    type V = SqlValueView;

    open spec fn view(&self) -> SqlValueView {
        match self {
            SqlValue::Bytes(bytes) => SqlValueView::Bytes(bytes@),
            SqlValue::Integer(n) => SqlValueView::Integer(*n),
        }
    }
}

/// A statement: its form, the subspace whose table it is about, and its
/// parameters `$1`, `$2` in this order.
#[derive(Debug, Clone, PartialEq, Eq)]
pub struct Statement {
    pub kind: StatementKind,
    pub table: u8,
    pub params: Vec<SqlValue>,
}

/// Mathematical image of a [`Statement`].
pub struct StatementView {
    pub kind: StatementKind,
    pub table: u8,
    pub params: Seq<SqlValueView>,
}

impl View for Statement {
    type V = StatementView;

    open spec fn view(&self) -> StatementView {
        StatementView {
            kind: self.kind,
            table: self.table,
            params: Seq::new(self.params@.len(), |i: int| self.params@[i]@),
        }
    }
}

/// The name of the table of a subspace: the character of the subspace.
pub open spec fn table_name(table: u8) -> Seq<char> {
    seq![table as char]
}

/// The text of a statement.
pub open spec fn sql_text(kind: StatementKind, table: u8) -> Seq<char> {
    let t = table_name(table);
    match kind {
        StatementKind::Upsert => "INSERT INTO "@ + t
            + " (k, v) VALUES ($1, $2) ON CONFLICT (k) DO UPDATE SET v = EXCLUDED.v"@,
        StatementKind::Insert => "INSERT INTO "@ + t + " (k, v) VALUES ($1, $2)"@,
        StatementKind::Update => "UPDATE "@ + t + " SET v = $2 WHERE k = $1"@,
        StatementKind::Increment => "INSERT INTO "@ + t
            + " (k, v) VALUES ($1, $2) ON CONFLICT(k) DO UPDATE SET v = "@ + t
            + ".v + EXCLUDED.v"@,
        StatementKind::Decrement => "UPDATE "@ + t + " SET v = v + $1 WHERE k = $2"@,
        StatementKind::IncrementAndGet => "INSERT INTO "@ + t
            + " (k, v) VALUES ($1, $2) ON CONFLICT(k) DO UPDATE SET v = "@ + t
            + ".v + EXCLUDED.v RETURNING v"@,
        StatementKind::Delete => "DELETE FROM "@ + t + " WHERE k = $1"@,
        StatementKind::InsertKey => "INSERT INTO "@ + t
            + " (k) VALUES ($1) ON CONFLICT (k) DO NOTHING"@,
        StatementKind::InsertNewKey => "INSERT INTO "@ + t + " (k) VALUES ($1)"@,
        StatementKind::SelectKeys => "SELECT k FROM "@ + t + " WHERE k >= $1 AND k <= $2"@,
        StatementKind::SelectForUpdate => "SELECT v FROM "@ + t + " WHERE k = $1 FOR UPDATE"@,
        StatementKind::DeleteZero => "DELETE FROM "@ + t + " WHERE v = 0"@,
        StatementKind::DeleteRange => "DELETE FROM "@ + t + " WHERE k >= $1 AND k < $2"@,
    }
}

/// `String::push` appends one character.
pub assume_specification[ String::push ](text: &mut String, ch: char)
    ensures
        final(text)@ == old(text)@.push(ch),
;

/// The text `before`, the name of the table, `after`.
fn around_table(before: &str, table: u8, after: &str) -> (text: String)
    ensures
        text@ == before@ + table_name(table) + after@,
{
    let mut text = String::from_str(before);
    text.push(table as char);
    text.append(after);
    assert(text@ =~= before@ + table_name(table) + after@);
    text
}

impl Statement {
    /// The text of the statement, with `$1`, `$2` for its parameters.
    pub fn sql(&self) -> (text: String)
        ensures
            text@ == sql_text(self.kind, self.table),
    {
        let table = self.table;
        match self.kind {
            StatementKind::Upsert => around_table(
                "INSERT INTO ",
                table,
                " (k, v) VALUES ($1, $2) ON CONFLICT (k) DO UPDATE SET v = EXCLUDED.v",
            ),
            StatementKind::Insert => around_table("INSERT INTO ", table, " (k, v) VALUES ($1, $2)"),
            StatementKind::Update => around_table("UPDATE ", table, " SET v = $2 WHERE k = $1"),
            StatementKind::Increment => {
                let mut text = around_table(
                    "INSERT INTO ",
                    table,
                    " (k, v) VALUES ($1, $2) ON CONFLICT(k) DO UPDATE SET v = ",
                );
                text.push(table as char);
                text.append(".v + EXCLUDED.v");
                assert(text@ =~= sql_text(self.kind, self.table));
                text
            },
            StatementKind::Decrement => around_table(
                "UPDATE ",
                table,
                " SET v = v + $1 WHERE k = $2",
            ),
            StatementKind::IncrementAndGet => {
                let mut text = around_table(
                    "INSERT INTO ",
                    table,
                    " (k, v) VALUES ($1, $2) ON CONFLICT(k) DO UPDATE SET v = ",
                );
                text.push(table as char);
                text.append(".v + EXCLUDED.v RETURNING v");
                assert(text@ =~= sql_text(self.kind, self.table));
                text
            },
            StatementKind::Delete => around_table("DELETE FROM ", table, " WHERE k = $1"),
            StatementKind::InsertKey => around_table(
                "INSERT INTO ",
                table,
                " (k) VALUES ($1) ON CONFLICT (k) DO NOTHING",
            ),
            StatementKind::InsertNewKey => around_table("INSERT INTO ", table, " (k) VALUES ($1)"),
            StatementKind::SelectKeys => around_table(
                "SELECT k FROM ",
                table,
                " WHERE k >= $1 AND k <= $2",
            ),
            StatementKind::SelectForUpdate => around_table(
                "SELECT v FROM ",
                table,
                " WHERE k = $1 FOR UPDATE",
            ),
            StatementKind::DeleteZero => around_table("DELETE FROM ", table, " WHERE v = 0"),
            StatementKind::DeleteRange => around_table(
                "DELETE FROM ",
                table,
                " WHERE k >= $1 AND k < $2",
            ),
        }
    }
}

/// A statement about a key.
pub open spec fn keyed(kind: StatementKind, table: u8, key: Seq<u8>) -> StatementView {
    StatementView { kind, table, params: seq![SqlValueView::Bytes(key)] }
}

/// A statement about a key and a value, or about two keys.
pub open spec fn paired(kind: StatementKind, table: u8, first: Seq<u8>, second: Seq<u8>)
    -> StatementView {
    StatementView {
        kind,
        table,
        params: seq![SqlValueView::Bytes(first), SqlValueView::Bytes(second)],
    }
}

/// A statement that adds to the counter under a key.  The one that creates no
/// counter names the number first.
pub open spec fn adding(kind: StatementKind, table: u8, key: Seq<u8>, by: i64) -> StatementView {
    StatementView {
        kind,
        table,
        params: if kind == StatementKind::Decrement {
            seq![SqlValueView::Integer(by), SqlValueView::Bytes(key)]
        } else {
            seq![SqlValueView::Bytes(key), SqlValueView::Integer(by)]
        },
    }
}

pub(crate) fn keyed_statement(kind: StatementKind, table: u8, key: Vec<u8>) -> (statement: Statement)
    ensures
        statement@ == keyed(kind, table, key@),
{
    let mut params: Vec<SqlValue> = Vec::with_capacity(1);
    params.push(SqlValue::Bytes(key));
    let statement = Statement { kind, table, params };
    assert(statement@.params =~= keyed(kind, table, key@).params);
    statement
}

pub(crate) fn paired_statement(kind: StatementKind, table: u8, first: Vec<u8>, second: Vec<u8>) -> (statement:
    Statement)
    ensures
        statement@ == paired(kind, table, first@, second@),
{
    let mut params: Vec<SqlValue> = Vec::with_capacity(2);
    params.push(SqlValue::Bytes(first));
    params.push(SqlValue::Bytes(second));
    let statement = Statement { kind, table, params };
    assert(statement@.params =~= paired(kind, table, first@, second@).params);
    statement
}

pub(crate) fn adding_statement(kind: StatementKind, table: u8, key: Vec<u8>, by: i64) -> (statement: Statement)
    ensures
        statement@ == adding(kind, table, key@, by),
{
    let mut params: Vec<SqlValue> = Vec::with_capacity(2);
    match kind {
        StatementKind::Decrement => {
            params.push(SqlValue::Integer(by));
            params.push(SqlValue::Bytes(key));
        },
        _ => {
            params.push(SqlValue::Bytes(key));
            params.push(SqlValue::Integer(by));
        },
    }
    let statement = Statement { kind, table, params };
    assert(statement@.params =~= adding(kind, table, key@, by).params);
    statement
}

/// The statement that deletes, in the table of `from`, every key from `from`
/// up to, not including, `to`.
pub fn delete_range<F: Key, T: Key>(from: &F, to: &T) -> (statement: Statement)
    ensures
        statement@ == paired(
            StatementKind::DeleteRange,
            from.subspace_spec(),
            from.body(),
            to.body(),
        ),
{
    paired_statement(
        StatementKind::DeleteRange,
        from.subspace(),
        from.serialize(false),
        to.serialize(false),
    )
}

/// How the database reports that a statement failed.
#[derive(Debug, Clone, PartialEq, Eq)]
pub struct SqlFailure {
    /// The five characters of the SQLSTATE, if the database gave one.
    pub code: Option<String>,
    /// The text of the error.
    pub message: String,
}

/// SQLSTATE of a transaction that could not be serialized.
pub open spec fn serialization_failure() -> Seq<char> {
    "40001"@
}

/// SQLSTATE of a transaction that was chosen to end a deadlock.
pub open spec fn deadlock_detected() -> Seq<char> {
    "40P01"@
}

/// SQLSTATE of an insert of a key that exists.
pub open spec fn unique_violation() -> Seq<char> {
    "23505"@
}

/// The failure that a failed statement is.  A transaction that lost against
/// another one may be run again.  A key that exists where none was expected
/// means that another writer came first: while a document identifier is
/// inserted, another identifier may do; anywhere else an assertion is lost.
pub open spec fn sql_failure(code: Option<Seq<char>>, message: Seq<char>, document_id: bool)
    -> FailureView {
    match code {
        Some(code) => if code == serialization_failure() || code == deadlock_detected() {
            FailureView::Recoverable(message)
        } else if code == unique_violation() {
            if document_id {
                FailureView::AllocatorRetry
            } else {
                FailureView::AssertValueFailed
            }
        } else {
            FailureView::Fatal(message)
        },
        None => FailureView::Fatal(message),
    }
}

fn text_is(text: &String, literal: &str) -> (same: bool)
    ensures
        same == (text@ == literal@),
{
    let other = String::from_str(literal);
    *text == other
}

impl SqlFailure {
    /// The failure that this is; `document_id` tells whether the statement
    /// inserted or deleted the key of a document in its collection.
    pub fn classify(self, document_id: bool) -> (failure: Failure)
        ensures
            failure@ == sql_failure(
                match self.code {
                    Some(code) => Some(code@),
                    None => None,
                },
                self.message@,
                document_id,
            ),
    {
        match self.code {
            Some(code) => {
                if text_is(&code, "40001") || text_is(&code, "40P01") {
                    Failure::Recoverable(self.message)
                } else if text_is(&code, "23505") {
                    if document_id {
                        Failure::AllocatorRetry
                    } else {
                        Failure::AssertValueFailed
                    }
                } else {
                    Failure::Fatal(self.message)
                }
            },
            None => Failure::Fatal(self.message),
        }
    }
}

} // verus!
