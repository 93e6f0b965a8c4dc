//! Batches: the operations that callers submit, and the identifiers that a
//! batch is given while it runs.

use crate::bytes::{be32, be64, be_i64, push_be32, push_be64, serialize_i64_be, U32_LEN, U64_LEN};
use crate::error::{unassigned_id, Error};
use vstd::prelude::*;

verus! {

/// The value of a context slot that has not been set.  For the document slot
/// it also means: allocate a fresh identifier on the next
/// `Bitmap { DocumentIds, set: true }`.
pub const NONE_U32: u32 = 0xFFFF_FFFF;

/// The value of the collection slot that has not been set.
pub const NONE_U8: u8 = 0xFF;

/// Identifiers that a batch was given while it ran, in the order in which they
/// were given.  Later operations of the same batch refer to them by position.
#[derive(Debug, Clone, PartialEq, Eq)]
pub struct AssignedIds {
    /// Freshly allocated document identifiers.
    pub document_ids: Vec<u32>,
    /// Values of counters after `AddAndGet`.
    pub counter_ids: Vec<i64>,
}

/// Mathematical image of [`AssignedIds`].
pub struct AssignedIdsView {
    pub document_ids: Seq<u32>,
    pub counter_ids: Seq<i64>,
}

impl View for AssignedIds {
    type V = AssignedIdsView;

    open spec fn view(&self) -> AssignedIdsView {
        AssignedIdsView { document_ids: self.document_ids@, counter_ids: self.counter_ids@ }
    }
}

impl AssignedIdsView {
    /// No identifier yet.
    pub open spec fn empty() -> AssignedIdsView {
        AssignedIdsView { document_ids: Seq::empty(), counter_ids: Seq::empty() }
    }

    pub open spec fn with_document_id(self, id: u32) -> AssignedIdsView {
        AssignedIdsView { document_ids: self.document_ids.push(id), ..self }
    }

    pub open spec fn with_counter_id(self, value: i64) -> AssignedIdsView {
        AssignedIdsView { counter_ids: self.counter_ids.push(value), ..self }
    }
}

impl AssignedIds {
    /// No identifier yet: what every attempt at a batch starts from.
    pub fn new() -> (ids: AssignedIds)
        ensures
            ids@ == AssignedIdsView::empty(),
    {
        AssignedIds { document_ids: Vec::new(), counter_ids: Vec::new() }
    }

    /// Records a freshly allocated document identifier.
    pub fn push_document_id(&mut self, id: u32)
        ensures
            final(self)@ == old(self)@.with_document_id(id),
    {
        self.document_ids.push(id);
    }

    /// Records the value of a counter after `AddAndGet`.
    pub fn push_counter_id(&mut self, value: i64)
        ensures
            final(self)@ == old(self)@.with_counter_id(value),
    {
        self.counter_ids.push(value);
    }

    /// The most recently allocated document identifier, if there is one.
    pub fn last_document_id(&self) -> (id: Option<u32>)
        ensures
            id == if self@.document_ids.len() > 0 {
                Some(self@.document_ids.last())
            } else {
                None
            },
    {
        if self.document_ids.len() > 0 {
            Some(self.document_ids[self.document_ids.len() - 1])
        } else {
            None
        }
    }

    /// The most recent counter value, if there is one.
    pub fn last_counter_id(&self) -> (value: Option<i64>)
        ensures
            value == if self@.counter_ids.len() > 0 {
                Some(self@.counter_ids.last())
            } else {
                None
            },
    {
        if self.counter_ids.len() > 0 {
            Some(self.counter_ids[self.counter_ids.len() - 1])
        } else {
            None
        }
    }
}

/// Bytes to store: given, or standing for an identifier that the batch is
/// assigned while it runs.
#[derive(Debug, Clone, PartialEq, Eq)]
pub enum Payload {
    /// These bytes.
    Static(Vec<u8>),
    /// The document identifier allocated at this position, as four big-endian
    /// bytes.
    DocumentId(usize),
    /// The counter value obtained at this position, as eight big-endian bytes.
    Counter(usize),
}

impl Payload {
    /// The bytes that the payload stands for once `ids` have been assigned;
    /// `None` where it refers to a position that `ids` does not have.
    pub open spec fn resolved(&self, ids: AssignedIdsView) -> Option<Seq<u8>> {
        match self {
            Payload::Static(bytes) => Some(bytes@),
            Payload::DocumentId(position) => if *position < ids.document_ids.len() {
                Some(be32(ids.document_ids[*position as int]))
            } else {
                None
            },
            Payload::Counter(position) => if *position < ids.counter_ids.len() {
                Some(be_i64(ids.counter_ids[*position as int]))
            } else {
                None
            },
        }
    }

    /// Replaces a placeholder by the identifier it stands for.
    pub fn resolve(&self, ids: &AssignedIds) -> (r: Result<Vec<u8>, Error>)
        ensures
            match self.resolved(ids@) {
                Some(bytes) => r matches Ok(out) && out@ == bytes,
                None => r matches Err(e) && e@ == unassigned_id(),
            },
    {
        match self {
            Payload::Static(bytes) => Ok(bytes.clone()),
            Payload::DocumentId(position) => {
                if *position < ids.document_ids.len() {
                    let mut out: Vec<u8> = Vec::with_capacity(U32_LEN);
                    push_be32(&mut out, ids.document_ids[*position]);
                    assert(out@ =~= be32(ids.document_ids@[*position as int]));
                    Ok(out)
                } else {
                    Err(Error::internal("No assigned id at this position"))
                }
            },
            Payload::Counter(position) => {
                if *position < ids.counter_ids.len() {
                    Ok(serialize_i64_be(ids.counter_ids[*position]))
                } else {
                    Err(Error::internal("No assigned id at this position"))
                }
            },
        }
    }
}

/// What to do to a value.
#[derive(Debug, Clone, PartialEq, Eq)]
pub enum ValueOp {
    /// Store these bytes.
    Put(Payload),
    /// Add to the counter, on the backend's side.
    AtomicAdd(i64),
    /// Add to the counter and record its new value among the assigned ids.
    AddAndGet(i64),
    /// Delete the value.
    Clear,
}

/// The kind of a value: with the context it gives the key, and it tells the
/// subspace in which the value lives.
#[derive(Debug, Clone, PartialEq, Eq)]
pub enum ValueClass {
    /// A property of the current document.
    Property(u8),
    /// A named counter of the current account.
    Counter(Vec<u8>),
    /// The quota that the current account has used.
    Quota,
}

/// The kind of a membership bit.
#[derive(Debug, Clone, PartialEq, Eq)]
pub enum BitmapClass {
    /// The document exists in its collection.
    DocumentIds,
    /// The document carries a tag.
    Tag { field: u8, value: Vec<u8> },
    /// The document holds a word in one of its text fields.
    Text { field: u8, token: Vec<u8> },
}

impl BitmapClass {
    pub open spec fn is_document_ids_spec(&self) -> bool {
        self is DocumentIds
    }

    /// Whether this is the bitmap of the documents that exist.
    #[verifier::when_used_as_spec(is_document_ids_spec)]
    pub fn is_document_ids(&self) -> (b: bool)
        ensures
            b == self.is_document_ids_spec(),
    {
        match self {
            BitmapClass::DocumentIds => true,
            _ => false,
        }
    }
}

/// What a batch expects to find under a key before it writes.
#[derive(Debug, Clone, PartialEq, Eq)]
pub enum AssertValue {
    /// Four big-endian bytes that denote this number.
    U32(u32),
    /// Eight big-endian bytes that denote this number.
    U64(u64),
    /// Exactly these bytes.
    Bytes(Vec<u8>),
    /// No value at all.
    Missing,
}

/// Whether two byte strings are the same.
pub fn bytes_equal(a: &[u8], b: &[u8]) -> (same: bool)
    ensures
        same == (a@ == b@),
{
    if a.len() != b.len() {
        return false;
    }
    let mut i: usize = 0;
    while i < a.len()
        invariant
            a@.len() == b@.len(),
            i <= a@.len(),
            forall|j: int| 0 <= j < i ==> a@[j] == b@[j],
        decreases a@.len() - i,
    {
        if a[i] != b[i] {
            return false;
        }
        i += 1;
    }
    assert(a@ =~= b@);
    true
}

impl AssertValue {
    /// Whether a stored value is the expected one.
    pub open spec fn matches_spec(&self, bytes: Seq<u8>) -> bool {
        match self {
            AssertValue::U32(expected) => bytes == be32(*expected),
            AssertValue::U64(expected) => bytes == be64(*expected),
            AssertValue::Bytes(expected) => bytes == expected@,
            AssertValue::Missing => false,
        }
    }

    pub open spec fn is_none_spec(&self) -> bool {
        self is Missing
    }

    /// Whether the expectation holds of what a read found: the stored bytes,
    /// or `None` for a missing key.
    pub open spec fn holds(&self, found: Option<Seq<u8>>) -> bool {
        match found {
            Some(bytes) => self.matches_spec(bytes),
            None => self.is_none_spec(),
        }
    }

    /// Whether a stored value is the expected one.
    pub fn matches(&self, bytes: &[u8]) -> (b: bool)
        ensures
            b == self.matches_spec(bytes@),
    {
        match self {
            AssertValue::U32(expected) => {
                let mut image: Vec<u8> = Vec::with_capacity(U32_LEN);
                push_be32(&mut image, *expected);
                assert(image@ =~= be32(*expected));
                bytes_equal(bytes, image.as_slice())
            },
            AssertValue::U64(expected) => {
                let mut image: Vec<u8> = Vec::with_capacity(U64_LEN);
                push_be64(&mut image, *expected);
                assert(image@ =~= be64(*expected));
                bytes_equal(bytes, image.as_slice())
            },
            AssertValue::Bytes(expected) => bytes_equal(bytes, expected.as_slice()),
            AssertValue::Missing => false,
        }
    }

    /// Whether the key is expected to be missing.
    #[verifier::when_used_as_spec(is_none_spec)]
    pub fn is_none(&self) -> (b: bool)
        ensures
            b == self.is_none_spec(),
    {
        match self {
            AssertValue::Missing => true,
            _ => false,
        }
    }
}

/// One step of a batch.
#[derive(Debug, Clone, PartialEq, Eq)]
#[allow(inconsistent_fields)]
pub enum Operation {
    /// The operations that follow are about this account.
    AccountId { account_id: u32 },
    /// The operations that follow are about this collection.
    Collection { collection: u8 },
    /// The operations that follow are about this document.
    DocumentId { document_id: u32 },
    /// Write, add to or delete a value.
    Value { class: ValueClass, op: ValueOp },
    /// Insert or delete an index entry, which has no value.
    Index { field: u8, key: Vec<u8>, set: bool },
    /// Set or clear a membership bit.  Setting `DocumentIds` while no document
    /// is current allocates a fresh document identifier.
    Bitmap { class: BitmapClass, set: bool },
    /// Write the change-log entry of this batch.
    Log { set: Payload },
    /// Go on only if the stored value is the expected one.
    AssertValue { class: ValueClass, assert_value: AssertValue },
}

/// Operations that are written together or not at all.
#[derive(Debug, Clone, PartialEq, Eq)]
pub struct Batch {
    /// The operations, in the order in which they apply.
    pub ops: Vec<Operation>,
    /// Stamps the change-log entries of the batch.
    pub change_id: u64,
}

/// The account, collection and document that an operation is about.
#[derive(Debug, Clone, Copy, PartialEq, Eq, Structural)]
pub struct Context {
    pub account_id: u32,
    pub collection: u8,
    pub document_id: u32,
}

impl Context {
    /// Nothing set.
    pub open spec fn unset() -> Context {
        Context { account_id: NONE_U32, collection: NONE_U8, document_id: NONE_U32 }
    }

    /// The context with which every attempt at a batch starts.
    pub fn new() -> (context: Context)
        ensures
            context == Context::unset(),
    {
        Context { account_id: NONE_U32, collection: NONE_U8, document_id: NONE_U32 }
    }
}

} // verus!
