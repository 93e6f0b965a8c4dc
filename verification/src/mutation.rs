//! What the engine asks of an ordered key-value store, and what it is told.

use vstd::prelude::*;

verus! {

/// A key with the value stored under it.
#[derive(Debug, Clone, PartialEq, Eq)]
pub struct Record {
    pub key: Vec<u8>,
    pub value: Vec<u8>,
}

/// Mathematical image of a [`Record`].
pub struct RecordView {
    pub key: Seq<u8>,
    pub value: Seq<u8>,
}

impl View for Record {
    type V = RecordView;

    open spec fn view(&self) -> RecordView {
        RecordView { key: self.key@, value: self.value@ }
    }
}

/// The images of a sequence of records.
pub open spec fn record_views(records: Seq<Record>) -> Seq<RecordView> {
    Seq::new(records.len(), |i: int| records[i]@)
}

/// The images of a sequence of keys.
pub open spec fn key_views(keys: Seq<Vec<u8>>) -> Seq<Seq<u8>> {
    Seq::new(keys.len(), |i: int| keys[i]@)
}

/// A change to an ordered key-value store, to be made when the transaction
/// commits.
#[derive(Debug, Clone, PartialEq, Eq)]
pub enum Mutation {
    /// Store `value` under `key`, in place of what is there.
    Put { key: Vec<u8>, value: Vec<u8> },
    /// Delete `key`.
    Clear { key: Vec<u8> },
    /// Delete every key from `begin` up to, not including, `end`.
    ClearRange { begin: Vec<u8>, end: Vec<u8> },
    /// Add `delta` to the little-endian 64-bit integer under `key`, a missing
    /// key counting as zero.
    Add { key: Vec<u8>, delta: i64 },
    /// Delete `key` if the value under it is the little-endian image of
    /// `expected`.
    CompareAndClear { key: Vec<u8>, expected: i64 },
    /// Let the transaction fail if another one writes a key from `begin` up
    /// to, not including, `end` before this one commits.
    ReadConflictRange { begin: Vec<u8>, end: Vec<u8> },
}

/// Mathematical image of a [`Mutation`].
pub enum MutationView {
    Put { key: Seq<u8>, value: Seq<u8> },
    Clear { key: Seq<u8> },
    ClearRange { begin: Seq<u8>, end: Seq<u8> },
    Add { key: Seq<u8>, delta: i64 },
    CompareAndClear { key: Seq<u8>, expected: i64 },
    ReadConflictRange { begin: Seq<u8>, end: Seq<u8> },
}

impl View for Mutation {
    type V = MutationView;

    open spec fn view(&self) -> MutationView {
        match self {
            Mutation::Put { key, value } => MutationView::Put { key: key@, value: value@ },
            Mutation::Clear { key } => MutationView::Clear { key: key@ },
            Mutation::ClearRange { begin, end } => MutationView::ClearRange {
                begin: begin@,
                end: end@,
            },
            Mutation::Add { key, delta } => MutationView::Add { key: key@, delta: *delta },
            Mutation::CompareAndClear { key, expected } => MutationView::CompareAndClear {
                key: key@,
                expected: *expected,
            },
            Mutation::ReadConflictRange { begin, end } => MutationView::ReadConflictRange {
                begin: begin@,
                end: end@,
            },
        }
    }
}

/// The images of a sequence of mutations.
pub open spec fn mutation_views(mutations: Seq<Mutation>) -> Seq<MutationView> {
    Seq::new(mutations.len(), |i: int| mutations[i]@)
}

/// A copy of the bytes from `from` up to, not including, `to`.
pub fn copy_range(bytes: &[u8], from: usize, to: usize) -> (out: Vec<u8>)
    requires
        from <= to <= bytes@.len(),
    ensures
        out@ == bytes@.subrange(from as int, to as int),
{
    let mut out: Vec<u8> = Vec::with_capacity(to - from);
    let mut i: usize = from;
    while i < to
        invariant
            from <= i <= to <= bytes@.len(),
            out@ == bytes@.subrange(from as int, i as int),
        decreases to - i,
    {
        out.push(bytes[i]);
        assert(out@ =~= bytes@.subrange(from as int, i + 1));
        i += 1;
    }
    out
}

/// A copy of `bytes` with `last` behind it.
pub fn extended(bytes: &[u8], last: u8) -> (out: Vec<u8>)
    ensures
        out@ == bytes@.push(last),
{
    let mut out = copy_range(bytes, 0, bytes.len());
    assert(bytes@.subrange(0, bytes@.len() as int) =~= bytes@);
    out.push(last);
    out
}

} // verus!
