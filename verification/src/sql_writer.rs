//! The writer for a relational database.

use crate::allocator::{allocate_id, allocated, document_ids_of, found_document_ids, random_between};
use crate::batch::{
    AssertValue, AssignedIds, AssignedIdsView, Batch, BitmapClass, Context, Operation, ValueClass,
    ValueOp, NONE_U32,
};
use crate::error::{ids_exhausted, unassigned_id, unexpected_reply, Error};
use crate::key::{
    bitmap_key_body, document_key_len, index_key_body, lemma_document_key_shape, log_key_body,
    value_key_body, IndexKey, Key, LogKey, SUBSPACE_BITMAPS, SUBSPACE_INDEXES, SUBSPACE_LOGS,
};
use crate::kv::allocates;
use crate::mutation::key_views;
use crate::retry::{failure_of, Failure, FailureView};
use crate::sql::{
    adding, adding_statement, keyed, keyed_statement, paired, paired_statement, sql_failure,
    SqlFailure, Statement, StatementKind, StatementView,
};
use ahash::AHashMap;
use vstd::prelude::*;

verus! {

/// `ahash::AHashMap`, a hash map.  Nothing is known of a value of it but what
/// the items below state.
#[verifier::external_type_specification]
#[verifier::external_body]
#[verifier::reject_recursive_types(K)]
#[verifier::reject_recursive_types(V)]
#[verifier::reject_recursive_types(S)]
pub struct ExAHashMap<K, V, S>(AHashMap<K, V, S>);

/// `ahash::RandomState`, the hasher of an `AHashMap`.
#[verifier::external_type_specification]
#[verifier::external_body]
pub struct ExRandomState(ahash::RandomState);

/// What a map from keys to "existed" holds.
pub uninterp spec fn asserted_entries(asserted: AHashMap<Vec<u8>, bool>) -> Map<Seq<u8>, bool>;

/// No key asserted.
pub open spec fn no_entries() -> Map<Seq<u8>, bool> {
    Map::empty()
}

/// `AHashMap::new` gives a map that holds nothing.
#[verifier::external_body]
fn asserted_new() -> (asserted: AHashMap<Vec<u8>, bool>)
    ensures
        asserted_entries(asserted) == no_entries(),
{
    AHashMap::new()
}

/// `AHashMap::insert` stores the value under the key, in place of what the
/// key had.
#[verifier::external_body]
fn asserted_insert(asserted: &mut AHashMap<Vec<u8>, bool>, key: Vec<u8>, existed: bool)
    ensures
        asserted_entries(*final(asserted)) == asserted_entries(*old(asserted)).insert(
            key@,
            existed,
        ),
{
    asserted.insert(key, existed);
}

/// `AHashMap::get` gives what is stored under the key, if anything is.
#[verifier::external_body]
fn asserted_get(asserted: &AHashMap<Vec<u8>, bool>, key: &Vec<u8>) -> (existed: Option<bool>)
    ensures
        existed == if asserted_entries(*asserted).dom().contains(key@) {
            Some(asserted_entries(*asserted)[key@])
        } else {
            None
        },
{
    asserted.get(key).copied()
}

/// What the writer wants done next.
#[derive(Debug, Clone, PartialEq, Eq)]
pub enum SqlRequest {
    /// Nothing: the next operation has no statement.
    Nothing,
    /// Run this statement.
    Execute(Statement),
    /// The batch is through: commit the transaction.
    Commit,
}

/// Mathematical image of a [`SqlRequest`].
pub enum SqlRequestView {
    Nothing,
    Execute(StatementView),
    Commit,
}

impl View for SqlRequest {
    type V = SqlRequestView;

    open spec fn view(&self) -> SqlRequestView {
        match self {
            SqlRequest::Nothing => SqlRequestView::Nothing,
            SqlRequest::Execute(statement) => SqlRequestView::Execute(statement@),
            SqlRequest::Commit => SqlRequestView::Commit,
        }
    }
}

/// What the database answered.
#[derive(Debug, Clone, PartialEq, Eq)]
pub enum SqlReply {
    /// Nothing was run.
    Nothing,
    /// The statement changed this many rows.
    Affected(u64),
    /// The statement returned this counter.
    Counter(i64),
    /// The value that was selected, `None` where there is no row.
    Value(Option<Vec<u8>>),
    /// There is a row, but its value is not a byte string.
    Unreadable,
    /// The keys that were selected.
    Keys(Vec<Vec<u8>>),
    /// The statement failed.
    Failed(SqlFailure),
}

/// Mathematical image of a [`SqlReply`].
pub enum SqlReplyView {
    Nothing,
    Affected(u64),
    Counter(i64),
    Value(Option<Seq<u8>>),
    Unreadable,
    Keys(Seq<Seq<u8>>),
    Failed { code: Option<Seq<char>>, message: Seq<char> },
}

impl View for SqlReply {
    type V = SqlReplyView;

    open spec fn view(&self) -> SqlReplyView {
        match self {
            SqlReply::Nothing => SqlReplyView::Nothing,
            SqlReply::Affected(rows) => SqlReplyView::Affected(*rows),
            SqlReply::Counter(value) => SqlReplyView::Counter(*value),
            SqlReply::Value(found) => SqlReplyView::Value(
                match found {
                    Some(bytes) => Some(bytes@),
                    None => None,
                },
            ),
            SqlReply::Unreadable => SqlReplyView::Unreadable,
            SqlReply::Keys(keys) => SqlReplyView::Keys(key_views(keys@)),
            SqlReply::Failed(failure) => SqlReplyView::Failed {
                code: match failure.code {
                    Some(code) => Some(code@),
                    None => None,
                },
                message: failure.message@,
            },
        }
    }
}

/// The state of a writer, as a mathematical value.
pub struct SqlWriterView {
    /// What the operations are about.
    pub context: Context,
    /// The identifiers assigned so far.
    pub assigned: AssignedIdsView,
    /// How many operations of the batch are done.
    pub position: nat,
    /// The keys that the batch has asserted, each with whether it existed.
    pub asserted: Map<Seq<u8>, bool>,
}

impl SqlWriterView {
    /// The state in which every attempt at a batch starts.
    pub open spec fn start() -> SqlWriterView {
        SqlWriterView {
            context: Context::unset(),
            assigned: AssignedIdsView::empty(),
            position: 0,
            asserted: no_entries(),
        }
    }

    /// The state after one more operation.
    pub open spec fn advanced(self) -> SqlWriterView {
        SqlWriterView { position: self.position + 1, ..self }
    }

    pub open spec fn with_context(self, context: Context) -> SqlWriterView {
        SqlWriterView { context, ..self }
    }
}

/// The key of a value in the table of its subspace.
pub open spec fn sql_value_key(class: ValueClass, context: Context) -> Seq<u8> {
    value_key_body(class, context.account_id, context.collection, context.document_id)
}

/// The key of a membership bit in the table of bitmaps.
pub open spec fn sql_bitmap_key(class: BitmapClass, context: Context, document_id: u32) -> Seq<u8> {
    bitmap_key_body(class, context.account_id, context.collection, document_id)
}

/// The form of the statement that stores a value: where the batch has
/// asserted the key, an update of the row it found or an insert of the row it
/// missed, so that a writer that came in between is noticed.
pub open spec fn put_kind(asserted: Map<Seq<u8>, bool>, key: Seq<u8>) -> StatementKind {
    if asserted.dom().contains(key) {
        if asserted[key] {
            StatementKind::Update
        } else {
            StatementKind::Insert
        }
    } else {
        StatementKind::Upsert
    }
}

/// The statement of an operation on a value, if it has one.
pub open spec fn value_statement(state: SqlWriterView, class: ValueClass, op: ValueOp) -> Option<
    StatementView,
> {
    let key = sql_value_key(class, state.context);
    let table = class.subspace_spec();
    match op {
        ValueOp::Put(payload) => match payload.resolved(state.assigned) {
            Some(value) => Some(paired(put_kind(state.asserted, key), table, key, value)),
            None => None,
        },
        ValueOp::AtomicAdd(by) => if by >= 0 {
            Some(adding(StatementKind::Increment, table, key, by))
        } else {
            Some(adding(StatementKind::Decrement, table, key, by))
        },
        ValueOp::AddAndGet(by) => Some(adding(StatementKind::IncrementAndGet, table, key, by)),
        ValueOp::Clear => Some(keyed(StatementKind::Delete, table, key)),
    }
}

/// The statement of an operation, if it has one.
pub open spec fn sql_statement(state: SqlWriterView, op: Operation, change_id: u64) -> Option<
    StatementView,
> {
    let context = state.context;
    match op {
        Operation::Value { class, op } => value_statement(state, class, op),
        Operation::Index { field, key, set } => {
            let index_key = index_key_body(
                context.account_id,
                context.collection,
                context.document_id,
                field,
                key@,
            );
            if set {
                Some(keyed(StatementKind::InsertKey, SUBSPACE_INDEXES, index_key))
            } else {
                Some(keyed(StatementKind::Delete, SUBSPACE_INDEXES, index_key))
            }
        },
        Operation::Bitmap { class, set } => {
            if allocates(context, class, set) {
                Some(
                    paired(
                        StatementKind::SelectKeys,
                        SUBSPACE_BITMAPS,
                        sql_bitmap_key(BitmapClass::DocumentIds, context, 0),
                        sql_bitmap_key(BitmapClass::DocumentIds, context, NONE_U32),
                    ),
                )
            } else {
                let key = sql_bitmap_key(class, context, context.document_id);
                if !set {
                    Some(keyed(StatementKind::Delete, SUBSPACE_BITMAPS, key))
                } else if class is DocumentIds {
                    Some(keyed(StatementKind::InsertNewKey, SUBSPACE_BITMAPS, key))
                } else {
                    Some(keyed(StatementKind::InsertKey, SUBSPACE_BITMAPS, key))
                }
            }
        },
        Operation::Log { set } => match set.resolved(state.assigned) {
            Some(value) => Some(
                paired(
                    StatementKind::Upsert,
                    SUBSPACE_LOGS,
                    log_key_body(context.account_id, context.collection, change_id),
                    value,
                ),
            ),
            None => None,
        },
        Operation::AssertValue { class, assert_value } => Some(
            keyed(
                StatementKind::SelectForUpdate,
                class.subspace_spec(),
                sql_value_key(class, context),
            ),
        ),
        _ => None,
    }
}

/// What the writer asks for next.
pub open spec fn sql_next_request(state: SqlWriterView, ops: Seq<Operation>, change_id: u64)
    -> SqlRequestView {
    if state.position < ops.len() {
        match sql_statement(state, ops[state.position as int], change_id) {
            Some(statement) => SqlRequestView::Execute(statement),
            None => SqlRequestView::Nothing,
        }
    } else {
        SqlRequestView::Commit
    }
}

/// How many rows a statement changed, or why it did not.
pub open spec fn affected_rows(reply: SqlReplyView, document_id: bool) -> Result<u64, FailureView> {
    match reply {
        SqlReplyView::Affected(rows) => Ok(rows),
        SqlReplyView::Failed { code, message } => Err(sql_failure(code, message, document_id)),
        _ => Err(failure_of(unexpected_reply())),
    }
}

/// What an operation on a value does, given the answer to its statement.
pub open spec fn sql_value_step(
    state: SqlWriterView,
    class: ValueClass,
    op: ValueOp,
    reply: SqlReplyView,
) -> Result<SqlWriterView, FailureView> {
    match op {
        ValueOp::Put(payload) => if payload.resolved(state.assigned) is None {
            Err(failure_of(unassigned_id()))
        } else {
            match affected_rows(reply, false) {
                Ok(rows) => if rows == 0 {
                    Err(FailureView::AssertValueFailed)
                } else {
                    Ok(state.advanced())
                },
                Err(failure) => Err(failure),
            }
        },
        ValueOp::AddAndGet(_) => match reply {
            SqlReplyView::Counter(value) => Ok(
                SqlWriterView {
                    assigned: state.assigned.with_counter_id(value),
                    ..state.advanced()
                },
            ),
            SqlReplyView::Failed { code, message } => Err(sql_failure(code, message, false)),
            _ => Err(failure_of(unexpected_reply())),
        },
        _ => match affected_rows(reply, false) {
            Ok(_) => Ok(state.advanced()),
            Err(failure) => Err(failure),
        },
    }
}

/// What setting or clearing a membership bit does.  Where it allocates, the
/// answer to the select gives the new document, which becomes the current
/// one; the operation is not done yet: its next statement inserts the key.
pub open spec fn sql_bitmap_step(
    state: SqlWriterView,
    class: BitmapClass,
    set: bool,
    reply: SqlReplyView,
    seed: u64,
) -> Result<SqlWriterView, FailureView> {
    let context = state.context;
    if allocates(context, class, set) {
        match reply {
            SqlReplyView::Keys(keys) => {
                match allocated(document_ids_of(keys, document_key_len(false) as int), seed) {
                    None => Err(failure_of(ids_exhausted())),
                    Some(id) => Ok(
                        SqlWriterView {
                            context: Context { document_id: id, ..context },
                            assigned: state.assigned.with_document_id(id),
                            ..state
                        },
                    ),
                }
            },
            SqlReplyView::Failed { code, message } => Err(sql_failure(code, message, true)),
            _ => Err(failure_of(unexpected_reply())),
        }
    } else {
        match affected_rows(reply, class is DocumentIds) {
            Ok(_) => Ok(state.advanced()),
            Err(failure) => Err(failure),
        }
    }
}

/// What an assertion does: if it holds, the batch remembers whether the key
/// existed.
pub open spec fn sql_assert_step(
    state: SqlWriterView,
    class: ValueClass,
    assert_value: AssertValue,
    reply: SqlReplyView,
) -> Result<SqlWriterView, FailureView> {
    match reply {
        SqlReplyView::Value(found) => if assert_value.holds(found) {
            Ok(
                SqlWriterView {
                    asserted: state.asserted.insert(
                        sql_value_key(class, state.context),
                        found is Some,
                    ),
                    ..state.advanced()
                },
            )
        } else {
            Err(FailureView::AssertValueFailed)
        },
        SqlReplyView::Unreadable => Err(FailureView::AssertValueFailed),
        SqlReplyView::Failed { code, message } => Err(sql_failure(code, message, false)),
        _ => Err(failure_of(unexpected_reply())),
    }
}

/// An operation that has no statement: the state after it, if nothing was
/// answered.
pub open spec fn sql_unasked(reply: SqlReplyView, state: SqlWriterView) -> Result<
    SqlWriterView,
    FailureView,
> {
    if reply is Nothing {
        Ok(state.advanced())
    } else {
        Err(failure_of(unexpected_reply()))
    }
}

/// What one operation does, given what the database answered.
pub open spec fn sql_step(
    state: SqlWriterView,
    op: Operation,
    reply: SqlReplyView,
    seed: u64,
) -> Result<SqlWriterView, FailureView> {
    let context = state.context;
    match op {
        Operation::AccountId { account_id } => sql_unasked(
            reply,
            state.with_context(Context { account_id, ..context }),
        ),
        Operation::Collection { collection } => sql_unasked(
            reply,
            state.with_context(Context { collection, ..context }),
        ),
        Operation::DocumentId { document_id } => sql_unasked(
            reply,
            state.with_context(Context { document_id, ..context }),
        ),
        Operation::Value { class, op } => sql_value_step(state, class, op, reply),
        Operation::Index { field, key, set } => match affected_rows(reply, false) {
            Ok(_) => Ok(state.advanced()),
            Err(failure) => Err(failure),
        },
        Operation::Bitmap { class, set } => sql_bitmap_step(state, class, set, reply, seed),
        Operation::Log { set } => if set.resolved(state.assigned) is None {
            Err(failure_of(unassigned_id()))
        } else {
            match affected_rows(reply, false) {
                Ok(_) => Ok(state.advanced()),
                Err(failure) => Err(failure),
            }
        },
        Operation::AssertValue { class, assert_value } => sql_assert_step(
            state,
            class,
            assert_value,
            reply,
        ),
    }
}

/// What the writer does with an answer.  Beyond the end of the batch no
/// answer is expected.
pub open spec fn sql_apply(state: SqlWriterView, ops: Seq<Operation>, reply: SqlReplyView, seed: u64)
    -> Result<SqlWriterView, FailureView> {
    if state.position < ops.len() {
        sql_step(state, ops[state.position as int], reply, seed)
    } else {
        Err(failure_of(unexpected_reply()))
    }
}

/// Whether `result` and the state `after` are what `expected` says.  An
/// operation that fails leaves the writer as it was.
pub open spec fn sql_applied(
    expected: Result<SqlWriterView, FailureView>,
    before: SqlWriterView,
    result: Result<(), Failure>,
    after: SqlWriterView,
) -> bool {
    match expected {
        Ok(state) => result is Ok && after == state,
        Err(failure) => {
            &&& result matches Err(f)
            &&& f@ == failure
            &&& after == before
        },
    }
}

/// Goes through a batch and turns it into statements.
pub struct SqlWriter {
    context: Context,
    assigned: AssignedIds,
    position: usize,
    asserted: AHashMap<Vec<u8>, bool>,
}

impl View for SqlWriter {
    type V = SqlWriterView;

    closed spec fn view(&self) -> SqlWriterView {
        SqlWriterView {
            context: self.context,
            assigned: self.assigned@,
            position: self.position as nat,
            asserted: asserted_entries(self.asserted),
        }
    }
}

fn unexpected() -> (failure: Failure)
    ensures
        failure@ == failure_of(unexpected_reply()),
{
    Failure::from_error(Error::internal("Unexpected reply from the backend"))
}

/// How many rows a statement changed, or why it did not.
fn rows_of(reply: SqlReply, document_id: bool) -> (rows: Result<u64, Failure>)
    ensures
        match affected_rows(reply@, document_id) {
            Ok(expected) => rows == Ok::<u64, Failure>(expected),
            Err(failure) => rows matches Err(f) && f@ == failure,
        },
{
    match reply {
        SqlReply::Affected(rows) => Ok(rows),
        SqlReply::Failed(failure) => Err(failure.classify(document_id)),
        _ => Err(unexpected()),
    }
}

impl SqlWriter {
    /// A writer at the start of a batch.
    pub fn new() -> (writer: SqlWriter)
        ensures
            writer@ == SqlWriterView::start(),
    {
        SqlWriter {
            context: Context::new(),
            assigned: AssignedIds::new(),
            position: 0,
            asserted: asserted_new(),
        }
    }

    /// How many operations of the batch are done.
    pub fn position(&self) -> (position: usize)
        ensures
            position == self@.position,
    {
        self.position
    }

    /// What the next operation is about.
    pub fn context(&self) -> (context: Context)
        ensures
            context == self@.context,
    {
        self.context
    }

    /// The identifiers assigned so far.
    pub fn assigned(&self) -> (assigned: &AssignedIds)
        ensures
            assigned@ == self@.assigned,
    {
        &self.assigned
    }

    /// Whether the batch has asserted the key, and if so whether the key
    /// existed.
    pub fn asserted(&self, key: &Vec<u8>) -> (existed: Option<bool>)
        ensures
            existed == if self@.asserted.dom().contains(key@) {
                Some(self@.asserted[key@])
            } else {
                None
            },
    {
        asserted_get(&self.asserted, key)
    }

    /// The identifiers that the batch was assigned: what a write returns once
    /// the transaction has committed.
    pub fn finish(self) -> (assigned: AssignedIds)
        ensures
            assigned@ == self@.assigned,
    {
        self.assigned
    }

    /// What the writer wants done next.
    pub fn request(&self, batch: &Batch) -> (request: SqlRequest)
        ensures
            request@ == sql_next_request(self@, batch.ops@, batch.change_id),
    {
        if self.position >= batch.ops.len() {
            return SqlRequest::Commit;
        }
        let context = self.context;
        match &batch.ops[self.position] {
            Operation::Value { class, op } => {
                let key = class.serialize(
                    context.account_id,
                    context.collection,
                    context.document_id,
                    false,
                );
                let table = class.subspace();
                match op {
                    ValueOp::Put(payload) => {
                        match payload.resolve(&self.assigned) {
                            Ok(value) => {
                                let kind = match asserted_get(&self.asserted, &key) {
                                    Some(true) => StatementKind::Update,
                                    Some(false) => StatementKind::Insert,
                                    None => StatementKind::Upsert,
                                };
                                SqlRequest::Execute(paired_statement(kind, table, key, value))
                            },
                            Err(_) => SqlRequest::Nothing,
                        }
                    },
                    ValueOp::AtomicAdd(by) => {
                        if *by >= 0 {
                            SqlRequest::Execute(
                                adding_statement(StatementKind::Increment, table, key, *by),
                            )
                        } else {
                            SqlRequest::Execute(
                                adding_statement(StatementKind::Decrement, table, key, *by),
                            )
                        }
                    },
                    ValueOp::AddAndGet(by) => SqlRequest::Execute(
                        adding_statement(StatementKind::IncrementAndGet, table, key, *by),
                    ),
                    ValueOp::Clear => SqlRequest::Execute(
                        keyed_statement(StatementKind::Delete, table, key),
                    ),
                }
            },
            Operation::Index { field, key, set } => {
                let index_key = IndexKey {
                    account_id: context.account_id,
                    collection: context.collection,
                    document_id: context.document_id,
                    field: *field,
                    key: key.as_slice(),
                }.serialize(false);
                let kind = if *set {
                    StatementKind::InsertKey
                } else {
                    StatementKind::Delete
                };
                SqlRequest::Execute(keyed_statement(kind, SUBSPACE_INDEXES, index_key))
            },
            Operation::Bitmap { class, set } => {
                if *set && class.is_document_ids() && context.document_id == NONE_U32 {
                    let documents = BitmapClass::DocumentIds;
                    let begin = documents.serialize(
                        context.account_id,
                        context.collection,
                        0,
                        false,
                    );
                    let end = documents.serialize(
                        context.account_id,
                        context.collection,
                        NONE_U32,
                        false,
                    );
                    SqlRequest::Execute(
                        paired_statement(StatementKind::SelectKeys, SUBSPACE_BITMAPS, begin, end),
                    )
                } else {
                    let key = class.serialize(
                        context.account_id,
                        context.collection,
                        context.document_id,
                        false,
                    );
                    let kind = if !*set {
                        StatementKind::Delete
                    } else if class.is_document_ids() {
                        StatementKind::InsertNewKey
                    } else {
                        StatementKind::InsertKey
                    };
                    SqlRequest::Execute(keyed_statement(kind, SUBSPACE_BITMAPS, key))
                }
            },
            Operation::Log { set } => {
                match set.resolve(&self.assigned) {
                    Ok(value) => {
                        let log_key = LogKey {
                            account_id: context.account_id,
                            collection: context.collection,
                            change_id: batch.change_id,
                        }.serialize(false);
                        SqlRequest::Execute(
                            paired_statement(StatementKind::Upsert, SUBSPACE_LOGS, log_key, value),
                        )
                    },
                    Err(_) => SqlRequest::Nothing,
                }
            },
            Operation::AssertValue { class, assert_value } => {
                let key = class.serialize(
                    context.account_id,
                    context.collection,
                    context.document_id,
                    false,
                );
                SqlRequest::Execute(
                    keyed_statement(StatementKind::SelectForUpdate, class.subspace(), key),
                )
            },
            _ => SqlRequest::Nothing,
        }
    }

    /// Takes the answer to the writer's request and goes on.  A document
    /// identifier is picked at random among the free ones.
    pub fn apply(&mut self, batch: &Batch, reply: SqlReply) -> (result: Result<(), Failure>)
        ensures
            exists|seed: u64|
                sql_applied(
                    #[trigger] sql_apply(old(self)@, batch.ops@, reply@, seed),
                    old(self)@,
                    result,
                    final(self)@,
                ),
    {
        let seed = if self.allocates_next(batch) {
            random_between(0, u64::MAX)
        } else {
            0
        };
        self.apply_seeded(batch, reply, seed)
    }

    /// Whether the next operation allocates a document.
    fn allocates_next(&self, batch: &Batch) -> (allocating: bool)
        ensures
            allocating == (self@.position < batch.ops@.len() && (batch.ops@[self@.position as int]
                matches Operation::Bitmap { class, set } && allocates(self@.context, class, set))),
    {
        if self.position >= batch.ops.len() {
            return false;
        }
        match &batch.ops[self.position] {
            Operation::Bitmap { class, set } => {
                *set && class.is_document_ids() && self.context.document_id == NONE_U32
            },
            _ => false,
        }
    }

    /// Takes the answer as [`SqlWriter::apply`] does, with `seed` in place of
    /// a random number.
    pub fn apply_seeded(&mut self, batch: &Batch, reply: SqlReply, seed: u64) -> (result: Result<
        (),
        Failure,
    >)
        ensures
            sql_applied(
                sql_apply(old(self)@, batch.ops@, reply@, seed),
                old(self)@,
                result,
                final(self)@,
            ),
    {
        if self.position >= batch.ops.len() {
            return Err(unexpected());
        }
        let context = self.context;
        let asked_nothing = match &reply {
            SqlReply::Nothing => true,
            _ => false,
        };
        match &batch.ops[self.position] {
            Operation::AccountId { account_id } => {
                if !asked_nothing {
                    return Err(unexpected());
                }
                self.context.account_id = *account_id;
            },
            Operation::Collection { collection } => {
                if !asked_nothing {
                    return Err(unexpected());
                }
                self.context.collection = *collection;
            },
            Operation::DocumentId { document_id } => {
                if !asked_nothing {
                    return Err(unexpected());
                }
                self.context.document_id = *document_id;
            },
            Operation::Value { class, op } => {
                match op {
                    ValueOp::Put(payload) => {
                        match payload.resolve(&self.assigned) {
                            Ok(_) => {},
                            Err(e) => {
                                return Err(Failure::from_error(e));
                            },
                        }
                        match rows_of(reply, false) {
                            Ok(rows) => {
                                if rows == 0 {
                                    return Err(Failure::AssertValueFailed);
                                }
                            },
                            Err(failure) => {
                                return Err(failure);
                            },
                        }
                    },
                    ValueOp::AddAndGet(_) => {
                        match reply {
                            SqlReply::Counter(value) => {
                                self.assigned.push_counter_id(value);
                            },
                            SqlReply::Failed(failure) => {
                                return Err(failure.classify(false));
                            },
                            _ => {
                                return Err(unexpected());
                            },
                        }
                    },
                    _ => {
                        match rows_of(reply, false) {
                            Ok(_) => {},
                            Err(failure) => {
                                return Err(failure);
                            },
                        }
                    },
                }
            },
            Operation::Index { field, key, set } => {
                match rows_of(reply, false) {
                    Ok(_) => {},
                    Err(failure) => {
                        return Err(failure);
                    },
                }
            },
            Operation::Bitmap { class, set } => {
                if *set && class.is_document_ids() && context.document_id == NONE_U32 {
                    let keys = match reply {
                        SqlReply::Keys(keys) => keys,
                        SqlReply::Failed(failure) => {
                            return Err(failure.classify(true));
                        },
                        _ => {
                            return Err(unexpected());
                        },
                    };
                    let begin = class.serialize(context.account_id, context.collection, 0, false);
                    proof {
                        lemma_document_key_shape(context.account_id, context.collection, 0, false);
                    }
                    let found = found_document_ids(&keys, begin.len());
                    match allocate_id(&found, seed) {
                        Some(id) => {
                            self.context.document_id = id;
                            self.assigned.push_document_id(id);
                            return Ok(());
                        },
                        None => {
                            return Err(
                                Failure::from_error(Error::internal("No document ids available")),
                            );
                        },
                    }
                } else {
                    match rows_of(reply, class.is_document_ids()) {
                        Ok(_) => {},
                        Err(failure) => {
                            return Err(failure);
                        },
                    }
                }
            },
            Operation::Log { set } => {
                match set.resolve(&self.assigned) {
                    Ok(_) => {},
                    Err(e) => {
                        return Err(Failure::from_error(e));
                    },
                }
                match rows_of(reply, false) {
                    Ok(_) => {},
                    Err(failure) => {
                        return Err(failure);
                    },
                }
            },
            Operation::AssertValue { class, assert_value } => {
                let existed = match reply {
                    SqlReply::Value(found) => {
                        match found {
                            Some(bytes) => {
                                if !assert_value.matches(bytes.as_slice()) {
                                    return Err(Failure::AssertValueFailed);
                                }
                                true
                            },
                            None => {
                                if !assert_value.is_none() {
                                    return Err(Failure::AssertValueFailed);
                                }
                                false
                            },
                        }
                    },
                    SqlReply::Unreadable => {
                        return Err(Failure::AssertValueFailed);
                    },
                    SqlReply::Failed(failure) => {
                        return Err(failure.classify(false));
                    },
                    _ => {
                        return Err(unexpected());
                    },
                };
                let key = class.serialize(
                    context.account_id,
                    context.collection,
                    context.document_id,
                    false,
                );
                asserted_insert(&mut self.asserted, key, existed);
            },
        }
        self.position = self.position + 1;
        Ok(())
    }
}

} // verus!
