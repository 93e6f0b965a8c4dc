//! Writing a batch to an ordered, transactional key-value store.
//!
//! The writer goes through a batch one operation at a time.  Before each
//! operation it says what it needs to know of the store ([`KvWriter::request`]);
//! given the answer, it says which mutations the operation makes
//! ([`KvWriter::apply`]).  Whoever drives it reads, buffers the mutations in
//! the transaction, and commits when the writer asks for it.  A failed attempt
//! leaves nothing behind: the next one starts with a new writer.

use crate::allocator::{allocate_id, allocated, document_ids_of, found_document_ids, random_between};
use crate::batch::{
    AssertValue, AssignedIds, AssignedIdsView, Batch, BitmapClass, Context, Operation, Payload,
    ValueClass, ValueOp, NONE_U32,
};
use crate::bytes::{deserialize_i64_le, le_i64, le_i64_value, serialize_i64_le, wrapping_sum};
use crate::chunk::{
    chunk_puts, chunk_range_end, chunk_value, fits, reassemble, reassembled, CHUNK_RANGE_END,
};
use crate::error::{
    ids_exhausted, invalid_counter, unassigned_id, unexpected_reply, value_too_large, Error,
    ErrorView,
};
use crate::key::{
    bitmap_key_body, document_key_len, index_key_body, key_bytes, lemma_document_key_shape,
    log_key_body, value_key_body, IndexKey, Key, LogKey, SUBSPACE_BITMAPS, SUBSPACE_INDEXES,
    SUBSPACE_LOGS,
};
use crate::mutation::{
    extended, key_views, mutation_views, record_views, Mutation, MutationView, Record, RecordView,
};
use vstd::prelude::*;

verus! {

/// The most bytes that a value of FoundationDB holds.
pub const MAX_VALUE_SIZE: usize = 100000;

/// What the writer needs before it can go on.
#[derive(Debug, Clone, PartialEq, Eq)]
pub enum Request {
    /// Nothing: the next operation does not read.
    Nothing,
    /// The value under `key`.
    Get { key: Vec<u8> },
    /// The records from `begin` up to, not including, `end`, in the order of
    /// their keys.  A read as a snapshot conflicts with no other transaction.
    GetRange { begin: Vec<u8>, end: Vec<u8>, snapshot: bool },
    /// The keys from `begin` up to, not including, `end`, read as a snapshot:
    /// the read itself conflicts with no other transaction.
    GetKeys { begin: Vec<u8>, end: Vec<u8> },
    /// The batch is through: commit the transaction.
    Commit,
}

/// Mathematical image of a [`Request`].
pub enum RequestView {
    Nothing,
    Get { key: Seq<u8> },
    GetRange { begin: Seq<u8>, end: Seq<u8>, snapshot: bool },
    GetKeys { begin: Seq<u8>, end: Seq<u8> },
    Commit,
}

impl View for Request {
    type V = RequestView;

    open spec fn view(&self) -> RequestView {
        match self {
            Request::Nothing => RequestView::Nothing,
            Request::Get { key } => RequestView::Get { key: key@ },
            Request::GetRange { begin, end, snapshot } => RequestView::GetRange {
                begin: begin@,
                end: end@,
                snapshot: *snapshot,
            },
            Request::GetKeys { begin, end } => RequestView::GetKeys { begin: begin@, end: end@ },
            Request::Commit => RequestView::Commit,
        }
    }
}

/// What the store answered.
#[derive(Debug, Clone, PartialEq, Eq)]
pub enum Reply {
    /// Nothing was asked.
    Nothing,
    /// The value under the key, `None` for a missing key.
    Value(Option<Vec<u8>>),
    /// The records of the range, in the order of their keys.
    Records(Vec<Record>),
    /// The keys of the range, in order.
    Keys(Vec<Vec<u8>>),
    /// The read failed, with this message.
    Failed(String),
}

/// Mathematical image of a [`Reply`].
pub enum ReplyView {
    Nothing,
    Value(Option<Seq<u8>>),
    Records(Seq<RecordView>),
    Keys(Seq<Seq<u8>>),
    Failed(Seq<char>),
}

impl View for Reply {
    type V = ReplyView;

    open spec fn view(&self) -> ReplyView {
        match self {
            Reply::Nothing => ReplyView::Nothing,
            Reply::Value(found) => ReplyView::Value(
                match found {
                    Some(bytes) => Some(bytes@),
                    None => None,
                },
            ),
            Reply::Records(records) => ReplyView::Records(record_views(records@)),
            Reply::Keys(keys) => ReplyView::Keys(key_views(keys@)),
            Reply::Failed(message) => ReplyView::Failed(message@),
        }
    }
}

/// The state of a writer, as a mathematical value.
pub struct WriterView {
    /// What the operations are about.
    pub context: Context,
    /// The identifiers assigned so far.
    pub assigned: AssignedIdsView,
    /// How many operations of the batch are done.
    pub position: nat,
    /// The most bytes that one record's value can hold.
    pub max_value_size: nat,
}

impl WriterView {
    /// The state in which every attempt at a batch starts.
    pub open spec fn start(max_value_size: nat) -> WriterView {
        WriterView {
            context: Context::unset(),
            assigned: AssignedIdsView::empty(),
            position: 0,
            max_value_size,
        }
    }

    /// The state after one more operation.
    pub open spec fn advanced(self) -> WriterView {
        WriterView { position: self.position + 1, ..self }
    }

    pub open spec fn with_context(self, context: Context) -> WriterView {
        WriterView { context, ..self }
    }
}

/// What one operation does: the state after it and the mutations it makes.
pub struct Progress {
    pub state: WriterView,
    pub mutations: Seq<MutationView>,
}

/// The key of a value in the key space of the store.
pub open spec fn kv_value_key(class: ValueClass, context: Context) -> Seq<u8> {
    key_bytes(
        class.subspace_spec(),
        value_key_body(class, context.account_id, context.collection, context.document_id),
        true,
    )
}

/// The key of a membership bit in the key space of the store.
pub open spec fn kv_bitmap_key(class: BitmapClass, context: Context, document_id: u32) -> Seq<u8> {
    key_bytes(
        SUBSPACE_BITMAPS,
        bitmap_key_body(class, context.account_id, context.collection, document_id),
        true,
    )
}

/// Whether the operation allocates a document: it sets the bit of a document
/// in its collection while no document is current.
pub open spec fn allocates(context: Context, class: BitmapClass, set: bool) -> bool {
    set && class is DocumentIds && context.document_id == NONE_U32
}

/// What the writer must know before it can do `op`.
pub open spec fn kv_request(state: WriterView, op: Operation) -> RequestView {
    match op {
        Operation::Value { class, op: ValueOp::AddAndGet(_) } => RequestView::Get {
            key: kv_value_key(class, state.context),
        },
        Operation::Bitmap { class, set } => if allocates(state.context, class, set) {
            RequestView::GetKeys {
                begin: kv_bitmap_key(BitmapClass::DocumentIds, state.context, 0),
                end: kv_bitmap_key(BitmapClass::DocumentIds, state.context, NONE_U32),
            }
        } else {
            RequestView::Nothing
        },
        Operation::AssertValue { class, assert_value } => if class.is_counter_spec() {
            RequestView::Get { key: kv_value_key(class, state.context) }
        } else {
            RequestView::GetRange {
                begin: kv_value_key(class, state.context),
                end: chunk_range_end(kv_value_key(class, state.context)),
                snapshot: false,
            }
        },
        _ => RequestView::Nothing,
    }
}

/// What the writer asks for next: what its next operation needs, or the
/// commit once the batch is through.
pub open spec fn kv_next_request(state: WriterView, ops: Seq<Operation>) -> RequestView {
    if state.position < ops.len() {
        kv_request(state, ops[state.position as int])
    } else {
        RequestView::Commit
    }
}

/// An operation that reads nothing: it makes these mutations, if nothing was
/// answered.
pub open spec fn unasked(reply: ReplyView, state: WriterView, mutations: Seq<MutationView>)
    -> Result<Progress, ErrorView> {
    if reply is Nothing {
        Ok(Progress { state: state.advanced(), mutations })
    } else {
        Err(unexpected_reply())
    }
}

/// The mutations that store a payload under the key of a value.
pub open spec fn put_step(state: WriterView, class: ValueClass, payload: Payload, reply: ReplyView)
    -> Result<Progress, ErrorView> {
    let key = kv_value_key(class, state.context);
    if !(reply is Nothing) {
        Err(unexpected_reply())
    } else {
        match payload.resolved(state.assigned) {
            None => Err(unassigned_id()),
            Some(value) => if class.is_counter_spec() {
                Ok(
                    Progress {
                        state: state.advanced(),
                        mutations: seq![MutationView::Put { key, value }],
                    },
                )
            } else if fits(value.len(), state.max_value_size) {
                Ok(
                    Progress {
                        state: state.advanced(),
                        mutations: chunk_puts(key, value, state.max_value_size),
                    },
                )
            } else {
                Err(value_too_large())
            },
        }
    }
}

/// Adding to a counter and taking note of its new value: the counter is read,
/// a missing one counting as zero, and written back.  The sum wraps in 64
/// bits, as the store's own addition does.
pub open spec fn add_and_get_step(state: WriterView, class: ValueClass, by: i64, reply: ReplyView)
    -> Result<Progress, ErrorView> {
    let key = kv_value_key(class, state.context);
    match reply {
        ReplyView::Value(found) => {
            if found matches Some(bytes) && bytes.len() != 8 {
                Err(invalid_counter())
            } else {
                let sum = match found {
                    Some(bytes) => wrapping_sum(le_i64_value(bytes), by),
                    None => by,
                };
                Ok(
                    Progress {
                        state: WriterView {
                            assigned: state.assigned.with_counter_id(sum),
                            ..state.advanced()
                        },
                        mutations: seq![MutationView::Put { key, value: le_i64(sum) }],
                    },
                )
            }
        },
        ReplyView::Failed(message) => Err(ErrorView::Backend(message)),
        _ => Err(unexpected_reply()),
    }
}

/// What an operation on a value does.
pub open spec fn value_step(state: WriterView, class: ValueClass, op: ValueOp, reply: ReplyView)
    -> Result<Progress, ErrorView> {
    let key = kv_value_key(class, state.context);
    match op {
        ValueOp::Put(payload) => put_step(state, class, payload, reply),
        ValueOp::AtomicAdd(by) => unasked(reply, state, seq![MutationView::Add { key, delta: by }]),
        ValueOp::AddAndGet(by) => add_and_get_step(state, class, by, reply),
        ValueOp::Clear => if class.is_counter_spec() {
            unasked(reply, state, seq![MutationView::Clear { key }])
        } else {
            unasked(
                reply,
                state,
                seq![MutationView::ClearRange { begin: key, end: chunk_range_end(key) }],
            )
        },
    }
}

/// What setting or clearing a membership bit does.  Where it allocates, the
/// new document becomes the current one; the range of its key is declared
/// read, so that of two transactions that pick the same identifier only one
/// commits.
pub open spec fn bitmap_step(
    state: WriterView,
    class: BitmapClass,
    set: bool,
    reply: ReplyView,
    seed: u64,
) -> Result<Progress, ErrorView> {
    let context = state.context;
    if allocates(context, class, set) {
        match reply {
            ReplyView::Keys(keys) => {
                match allocated(document_ids_of(keys, document_key_len(true) as int), seed) {
                    None => Err(ids_exhausted()),
                    Some(id) => {
                        let key = kv_bitmap_key(class, context, id);
                        Ok(
                            Progress {
                                state: WriterView {
                                    context: Context { document_id: id, ..context },
                                    assigned: state.assigned.with_document_id(id),
                                    ..state.advanced()
                                },
                                mutations: seq![
                                    MutationView::ReadConflictRange {
                                        begin: key,
                                        end: kv_bitmap_key(class, context, (id + 1) as u32),
                                    },
                                    MutationView::Put { key, value: Seq::empty() },
                                ],
                            },
                        )
                    },
                }
            },
            ReplyView::Failed(message) => Err(ErrorView::Backend(message)),
            _ => Err(unexpected_reply()),
        }
    } else {
        let key = kv_bitmap_key(class, context, context.document_id);
        if set {
            unasked(reply, state, seq![MutationView::Put { key, value: Seq::empty() }])
        } else {
            unasked(reply, state, seq![MutationView::Clear { key }])
        }
    }
}

/// What an assertion found under its key.
pub open spec fn asserted_value(reply: ReplyView) -> Option<Option<Seq<u8>>> {
    match reply {
        ReplyView::Value(found) => Some(found),
        ReplyView::Records(records) => Some(reassembled(records)),
        _ => None,
    }
}

/// What an assertion does: nothing if it holds, and it ends the batch if it
/// does not, or if the value could not be read.
pub open spec fn assert_step(
    state: WriterView,
    class: ValueClass,
    assert_value: AssertValue,
    reply: ReplyView,
) -> Result<Progress, ErrorView> {
    let expected_kind = if class.is_counter_spec() {
        reply is Value
    } else {
        reply is Records
    };
    if reply is Failed {
        Err(ErrorView::AssertValueFailed)
    } else if !expected_kind {
        Err(unexpected_reply())
    } else if assert_value.holds(asserted_value(reply)->0) {
        Ok(Progress { state: state.advanced(), mutations: Seq::empty() })
    } else {
        Err(ErrorView::AssertValueFailed)
    }
}

/// What one operation does, given what the store answered and the random
/// number that picks a document identifier.
pub open spec fn kv_step(
    state: WriterView,
    op: Operation,
    change_id: u64,
    reply: ReplyView,
    seed: u64,
) -> Result<Progress, ErrorView> {
    let context = state.context;
    match op {
        Operation::AccountId { account_id } => unasked(
            reply,
            state.with_context(Context { account_id, ..context }),
            Seq::empty(),
        ),
        Operation::Collection { collection } => unasked(
            reply,
            state.with_context(Context { collection, ..context }),
            Seq::empty(),
        ),
        Operation::DocumentId { document_id } => unasked(
            reply,
            state.with_context(Context { document_id, ..context }),
            Seq::empty(),
        ),
        Operation::Value { class, op } => value_step(state, class, op, reply),
        Operation::Index { field, key, set } => {
            let index_key = key_bytes(
                SUBSPACE_INDEXES,
                index_key_body(
                    context.account_id,
                    context.collection,
                    context.document_id,
                    field,
                    key@,
                ),
                true,
            );
            if set {
                unasked(
                    reply,
                    state,
                    seq![MutationView::Put { key: index_key, value: Seq::empty() }],
                )
            } else {
                unasked(reply, state, seq![MutationView::Clear { key: index_key }])
            }
        },
        Operation::Bitmap { class, set } => bitmap_step(state, class, set, reply, seed),
        Operation::Log { set } => {
            let log_key = key_bytes(
                SUBSPACE_LOGS,
                log_key_body(context.account_id, context.collection, change_id),
                true,
            );
            match set.resolved(state.assigned) {
                Some(value) => unasked(
                    reply,
                    state,
                    seq![MutationView::Put { key: log_key, value }],
                ),
                None => if reply is Nothing {
                    Err(unassigned_id())
                } else {
                    Err(unexpected_reply())
                },
            }
        },
        Operation::AssertValue { class, assert_value } => assert_step(
            state,
            class,
            assert_value,
            reply,
        ),
    }
}

/// What the writer does with an answer: the next operation of the batch.
/// Beyond the end of the batch no answer is expected.
pub open spec fn kv_apply(
    state: WriterView,
    ops: Seq<Operation>,
    change_id: u64,
    reply: ReplyView,
    seed: u64,
) -> Result<Progress, ErrorView> {
    if state.position < ops.len() {
        kv_step(state, ops[state.position as int], change_id, reply, seed)
    } else {
        Err(unexpected_reply())
    }
}

/// Whether `result` and the state `after` are what `expected` says.  An
/// operation that fails leaves the writer as it was.
pub open spec fn kv_applied(
    expected: Result<Progress, ErrorView>,
    before: WriterView,
    result: Result<Vec<Mutation>, Error>,
    after: WriterView,
) -> bool {
    match expected {
        Ok(progress) => {
            &&& result matches Ok(mutations)
            &&& mutation_views(mutations@) == progress.mutations
            &&& after == progress.state
        },
        Err(error) => {
            &&& result matches Err(e)
            &&& e@ == error
            &&& after == before
        },
    }
}

/// Goes through a batch and turns it into mutations of a key-value store.
pub struct KvWriter {
    context: Context,
    assigned: AssignedIds,
    position: usize,
    max_value_size: usize,
}

impl View for KvWriter {
    type V = WriterView;

    closed spec fn view(&self) -> WriterView {
        WriterView {
            context: self.context,
            assigned: self.assigned@,
            position: self.position as nat,
            max_value_size: self.max_value_size as nat,
        }
    }
}

/// The mutation that deletes every key from `from` up to, not including,
/// `to`.
pub fn delete_range<F: Key, T: Key>(from: &F, to: &T) -> (mutation: Mutation)
    ensures
        mutation@ == (MutationView::ClearRange {
            begin: key_bytes(from.subspace_spec(), from.body(), true),
            end: key_bytes(to.subspace_spec(), to.body(), true),
        }),
{
    Mutation::ClearRange { begin: from.serialize(true), end: to.serialize(true) }
}

fn only(mutation: Mutation) -> (mutations: Vec<Mutation>)
    ensures
        mutation_views(mutations@) == seq![mutation@],
{
    let mut mutations: Vec<Mutation> = Vec::with_capacity(1);
    mutations.push(mutation);
    assert(mutation_views(mutations@) =~= seq![mutation@]);
    mutations
}

fn no_mutation() -> (mutations: Vec<Mutation>)
    ensures
        mutation_views(mutations@) == Seq::<MutationView>::empty(),
{
    let mutations: Vec<Mutation> = Vec::new();
    assert(mutation_views(mutations@) =~= Seq::<MutationView>::empty());
    mutations
}

impl KvWriter {
    /// A writer is for a store whose values can hold at least one byte.
    pub open spec fn wf(&self) -> bool {
        self@.max_value_size > 0
    }

    /// A writer at the start of a batch, for a store whose values hold at
    /// most `max_value_size` bytes.
    pub fn new(max_value_size: usize) -> (writer: KvWriter)
        requires
            max_value_size > 0,
        ensures
            writer.wf(),
            writer@ == WriterView::start(max_value_size as nat),
    {
        KvWriter {
            context: Context::new(),
            assigned: AssignedIds::new(),
            position: 0,
            max_value_size,
        }
    }

    /// How many operations of the batch are done.
    pub fn position(&self) -> (position: usize)
        ensures
            position == self@.position,
    {
        self.position
    }

    /// What the next operation is about.
    pub fn context(&self) -> (context: Context)
        ensures
            context == self@.context,
    {
        self.context
    }

    /// The identifiers assigned so far.
    pub fn assigned(&self) -> (assigned: &AssignedIds)
        ensures
            assigned@ == self@.assigned,
    {
        &self.assigned
    }

    /// The identifiers that the batch was assigned: what a write returns once
    /// the transaction has committed.
    pub fn finish(self) -> (assigned: AssignedIds)
        ensures
            assigned@ == self@.assigned,
    {
        self.assigned
    }

    /// What the writer needs next.
    pub fn request(&self, batch: &Batch) -> (request: Request)
        ensures
            request@ == kv_next_request(self@, batch.ops@),
    {
        if self.position >= batch.ops.len() {
            return Request::Commit;
        }
        let context = self.context;
        match &batch.ops[self.position] {
            Operation::Value { class, op } => {
                match op {
                    ValueOp::AddAndGet(_) => Request::Get {
                        key: class.serialize(
                            context.account_id,
                            context.collection,
                            context.document_id,
                            true,
                        ),
                    },
                    _ => Request::Nothing,
                }
            },
            Operation::Bitmap { class, set } => {
                if *set && class.is_document_ids() && context.document_id == NONE_U32 {
                    let documents = BitmapClass::DocumentIds;
                    Request::GetKeys {
                        begin: documents.serialize(context.account_id, context.collection, 0, true),
                        end: documents.serialize(
                            context.account_id,
                            context.collection,
                            NONE_U32,
                            true,
                        ),
                    }
                } else {
                    Request::Nothing
                }
            },
            Operation::AssertValue { class, assert_value } => {
                let key = class.serialize(
                    context.account_id,
                    context.collection,
                    context.document_id,
                    true,
                );
                if class.is_counter() {
                    Request::Get { key }
                } else {
                    let end = extended(key.as_slice(), CHUNK_RANGE_END);
                    Request::GetRange { begin: key, end, snapshot: false }
                }
            },
            _ => Request::Nothing,
        }
    }

    /// Does the next operation of the batch, given what the store answered to
    /// the writer's request, and returns the mutations that the operation
    /// makes.  A document identifier is picked at random among the free ones.
    pub fn apply(&mut self, batch: &Batch, reply: Reply) -> (result: Result<Vec<Mutation>, Error>)
        requires
            old(self).wf(),
        ensures
            final(self).wf(),
            exists|seed: u64|
                kv_applied(
                    #[trigger] kv_apply(old(self)@, batch.ops@, batch.change_id, reply@, seed),
                    old(self)@,
                    result,
                    final(self)@,
                ),
    {
        let seed = if self.allocates_next(batch) {
            random_between(0, u64::MAX)
        } else {
            0
        };
        self.apply_seeded(batch, reply, seed)
    }

    /// Whether the next operation allocates a document.
    fn allocates_next(&self, batch: &Batch) -> (allocating: bool)
        ensures
            allocating == (self@.position < batch.ops@.len() && (batch.ops@[self@.position as int]
                matches Operation::Bitmap { class, set } && allocates(self@.context, class, set))),
    {
        if self.position >= batch.ops.len() {
            return false;
        }
        match &batch.ops[self.position] {
            Operation::Bitmap { class, set } => {
                *set && class.is_document_ids() && self.context.document_id == NONE_U32
            },
            _ => false,
        }
    }

    /// Does the next operation of the batch as [`KvWriter::apply`] does, with
    /// `seed` in place of a random number.
    pub fn apply_seeded(&mut self, batch: &Batch, reply: Reply, seed: u64) -> (result: Result<
        Vec<Mutation>,
        Error,
    >)
        requires
            old(self).wf(),
        ensures
            final(self).wf(),
            kv_applied(
                kv_apply(old(self)@, batch.ops@, batch.change_id, reply@, seed),
                old(self)@,
                result,
                final(self)@,
            ),
    {
        if self.position >= batch.ops.len() {
            return Err(Error::internal("Unexpected reply from the backend"));
        }
        let context = self.context;
        let asked_nothing = match &reply {
            Reply::Nothing => true,
            _ => false,
        };
        match &batch.ops[self.position] {
            Operation::AccountId { account_id } => {
                if !asked_nothing {
                    return Err(Error::internal("Unexpected reply from the backend"));
                }
                self.context.account_id = *account_id;
                self.position = self.position + 1;
                Ok(no_mutation())
            },
            Operation::Collection { collection } => {
                if !asked_nothing {
                    return Err(Error::internal("Unexpected reply from the backend"));
                }
                self.context.collection = *collection;
                self.position = self.position + 1;
                Ok(no_mutation())
            },
            Operation::DocumentId { document_id } => {
                if !asked_nothing {
                    return Err(Error::internal("Unexpected reply from the backend"));
                }
                self.context.document_id = *document_id;
                self.position = self.position + 1;
                Ok(no_mutation())
            },
            Operation::Value { class, op } => self.apply_value(class, op, reply),
            Operation::Index { field, key, set } => {
                if !asked_nothing {
                    return Err(Error::internal("Unexpected reply from the backend"));
                }
                let index_key = IndexKey {
                    account_id: context.account_id,
                    collection: context.collection,
                    document_id: context.document_id,
                    field: *field,
                    key: key.as_slice(),
                }.serialize(true);
                self.position = self.position + 1;
                if *set {
                    Ok(only(Mutation::Put { key: index_key, value: Vec::new() }))
                } else {
                    Ok(only(Mutation::Clear { key: index_key }))
                }
            },
            Operation::Bitmap { class, set } => self.apply_bitmap(class, *set, reply, seed),
            Operation::Log { set } => {
                if !asked_nothing {
                    return Err(Error::internal("Unexpected reply from the backend"));
                }
                let log_key = LogKey {
                    account_id: context.account_id,
                    collection: context.collection,
                    change_id: batch.change_id,
                }.serialize(true);
                let value = match set.resolve(&self.assigned) {
                    Ok(value) => value,
                    Err(e) => {
                        return Err(e);
                    },
                };
                self.position = self.position + 1;
                Ok(only(Mutation::Put { key: log_key, value }))
            },
            Operation::AssertValue { class, assert_value } => {
                let holds = match reply {
                    Reply::Failed(_) => false,
                    Reply::Value(found) => {
                        if !class.is_counter() {
                            return Err(Error::internal("Unexpected reply from the backend"));
                        }
                        match found {
                            Some(bytes) => assert_value.matches(bytes.as_slice()),
                            None => assert_value.is_none(),
                        }
                    },
                    Reply::Records(records) => {
                        if class.is_counter() {
                            return Err(Error::internal("Unexpected reply from the backend"));
                        }
                        match reassemble(&records) {
                            Some(bytes) => assert_value.matches(bytes.as_slice()),
                            None => assert_value.is_none(),
                        }
                    },
                    _ => {
                        return Err(Error::internal("Unexpected reply from the backend"));
                    },
                };
                if !holds {
                    return Err(Error::AssertValueFailed);
                }
                self.position = self.position + 1;
                Ok(no_mutation())
            },
        }
    }

    fn apply_value(&mut self, class: &ValueClass, op: &ValueOp, reply: Reply) -> (result: Result<
        Vec<Mutation>,
        Error,
    >)
        requires
            old(self).max_value_size > 0,
            old(self).position < usize::MAX,
        ensures
            kv_applied(
                value_step(old(self)@, *class, *op, reply@),
                old(self)@,
                result,
                final(self)@,
            ),
            final(self).max_value_size > 0,
    {
        let context = self.context;
        let key = class.serialize(
            context.account_id,
            context.collection,
            context.document_id,
            true,
        );
        let asked_nothing = match &reply {
            Reply::Nothing => true,
            _ => false,
        };
        match op {
            ValueOp::Put(payload) => {
                if !asked_nothing {
                    return Err(Error::internal("Unexpected reply from the backend"));
                }
                let value = match payload.resolve(&self.assigned) {
                    Ok(value) => value,
                    Err(e) => {
                        return Err(e);
                    },
                };
                let mutations = if class.is_counter() {
                    only(Mutation::Put { key, value })
                } else {
                    match chunk_value(key.as_slice(), value.as_slice(), self.max_value_size) {
                        Ok(mutations) => mutations,
                        Err(e) => {
                            return Err(e);
                        },
                    }
                };
                self.position = self.position + 1;
                Ok(mutations)
            },
            ValueOp::AtomicAdd(by) => {
                if !asked_nothing {
                    return Err(Error::internal("Unexpected reply from the backend"));
                }
                self.position = self.position + 1;
                Ok(only(Mutation::Add { key, delta: *by }))
            },
            ValueOp::AddAndGet(by) => {
                let found = match reply {
                    Reply::Value(found) => found,
                    Reply::Failed(message) => {
                        return Err(Error::Backend(message));
                    },
                    _ => {
                        return Err(Error::internal("Unexpected reply from the backend"));
                    },
                };
                let sum = match found {
                    Some(bytes) => match deserialize_i64_le(bytes.as_slice()) {
                        Some(stored) => stored.wrapping_add(*by),
                        None => {
                            return Err(
                                Error::internal("Failed to deserialize i64 value: invalid length"),
                            );
                        },
                    },
                    None => *by,
                };
                self.assigned.push_counter_id(sum);
                self.position = self.position + 1;
                Ok(only(Mutation::Put { key, value: serialize_i64_le(sum) }))
            },
            ValueOp::Clear => {
                if !asked_nothing {
                    return Err(Error::internal("Unexpected reply from the backend"));
                }
                self.position = self.position + 1;
                if class.is_counter() {
                    Ok(only(Mutation::Clear { key }))
                } else {
                    let end = extended(key.as_slice(), CHUNK_RANGE_END);
                    Ok(only(Mutation::ClearRange { begin: key, end }))
                }
            },
        }
    }

    fn apply_bitmap(&mut self, class: &BitmapClass, set: bool, reply: Reply, seed: u64) -> (result:
        Result<Vec<Mutation>, Error>)
        requires
            old(self).max_value_size > 0,
            old(self).position < usize::MAX,
        ensures
            kv_applied(
                bitmap_step(old(self)@, *class, set, reply@, seed),
                old(self)@,
                result,
                final(self)@,
            ),
            final(self).max_value_size > 0,
    {
        let context = self.context;
        if set && class.is_document_ids() && context.document_id == NONE_U32 {
            let keys = match reply {
                Reply::Keys(keys) => keys,
                Reply::Failed(message) => {
                    return Err(Error::Backend(message));
                },
                _ => {
                    return Err(Error::internal("Unexpected reply from the backend"));
                },
            };
            let begin = class.serialize(context.account_id, context.collection, 0, true);
            proof {
                lemma_document_key_shape(context.account_id, context.collection, 0, true);
            }
            let found = found_document_ids(&keys, begin.len());
            let id = match allocate_id(&found, seed) {
                Some(id) => id,
                None => {
                    return Err(Error::internal("No document ids available"));
                },
            };
            let key = class.serialize(context.account_id, context.collection, id, true);
            let mut end = class.serialize(context.account_id, context.collection, id + 1, true);
            self.context.document_id = id;
            self.assigned.push_document_id(id);
            self.position = self.position + 1;
            let mut mutations: Vec<Mutation> = Vec::with_capacity(2);
            mutations.push(Mutation::ReadConflictRange { begin: key.clone(), end });
            mutations.push(Mutation::Put { key, value: Vec::new() });
            assert(mutation_views(mutations@) =~= seq![mutations@[0]@, mutations@[1]@]);
            Ok(mutations)
        } else {
            let asked_nothing = match &reply {
                Reply::Nothing => true,
                _ => false,
            };
            if !asked_nothing {
                return Err(Error::internal("Unexpected reply from the backend"));
            }
            let key = class.serialize(
                context.account_id,
                context.collection,
                context.document_id,
                true,
            );
            self.position = self.position + 1;
            if set {
                Ok(only(Mutation::Put { key, value: Vec::new() }))
            } else {
                Ok(only(Mutation::Clear { key }))
            }
        }
    }
}

} // verus!
