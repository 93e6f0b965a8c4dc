//! Keys: where in a backend each entity of the data model lives.
//!
//! A key is made of the account, the collection and the document it is about,
//! and of what its class adds.  Integers are written big-endian, so that keys
//! sort as the numbers do.  Every key belongs to a subspace, named by one byte;
//! an ordered key-value store holds all subspaces in one key space and puts
//! that byte in front of the key, a relational backend has a table for each.

use crate::batch::{BitmapClass, ValueClass};
use crate::bytes::{be32, be64, push_be32, push_be64};
use vstd::prelude::*;

verus! {

/// Subspace of membership bits (`b`).
pub const SUBSPACE_BITMAPS: u8 = 98;

/// Subspace of index entries (`i`).
pub const SUBSPACE_INDEXES: u8 = 105;

/// Subspace of change-log entries (`l`).
pub const SUBSPACE_LOGS: u8 = 108;

/// Subspace of counters (`n`).
pub const SUBSPACE_COUNTER: u8 = 110;

/// Subspace of document properties (`p`).
pub const SUBSPACE_PROPERTY: u8 = 112;

/// Subspace of used quotas (`u`).
pub const SUBSPACE_QUOTA: u8 = 117;

/// The key as the backend sees it: with the subspace in front where the
/// backend keeps all subspaces in one key space.
pub open spec fn key_bytes(subspace: u8, body: Seq<u8>, with_subspace: bool) -> Seq<u8> {
    if with_subspace {
        seq![subspace] + body
    } else {
        body
    }
}

/// What all keys of a collection start with.
pub open spec fn collection_prefix(account_id: u32, collection: u8) -> Seq<u8> {
    be32(account_id).push(collection)
}

/// The key of a value, without its subspace.
pub open spec fn value_key_body(
    class: ValueClass,
    account_id: u32,
    collection: u8,
    document_id: u32,
) -> Seq<u8> {
    match class {
        ValueClass::Property(field) => collection_prefix(account_id, collection) + be32(
            document_id,
        ).push(field),
        ValueClass::Counter(name) => be32(account_id) + name@,
        ValueClass::Quota => be32(account_id),
    }
}

/// What a bitmap class adds to a key.
pub open spec fn bitmap_class_part(class: BitmapClass) -> Seq<u8> {
    match class {
        BitmapClass::DocumentIds => seq![0u8],
        BitmapClass::Tag { field, value } => seq![1u8, field] + value@,
        BitmapClass::Text { field, token } => seq![2u8, field] + token@,
    }
}

/// The key of a membership bit, without its subspace.  It ends with the
/// document.
pub open spec fn bitmap_key_body(
    class: BitmapClass,
    account_id: u32,
    collection: u8,
    document_id: u32,
) -> Seq<u8> {
    collection_prefix(account_id, collection) + bitmap_class_part(class) + be32(document_id)
}

/// The key of an index entry, without its subspace.
pub open spec fn index_key_body(
    account_id: u32,
    collection: u8,
    document_id: u32,
    field: u8,
    key: Seq<u8>,
) -> Seq<u8> {
    collection_prefix(account_id, collection).push(field) + key + be32(document_id)
}

/// The key of a change-log entry, without its subspace.
pub open spec fn log_key_body(account_id: u32, collection: u8, change_id: u64) -> Seq<u8> {
    collection_prefix(account_id, collection) + be64(change_id)
}

/// Starts a key: its subspace, if that is asked for.
fn start_key(subspace: u8, with_subspace: bool) -> (key: Vec<u8>)
    ensures
        key@ == key_bytes(subspace, Seq::empty(), with_subspace),
{
    let mut key: Vec<u8> = Vec::new();
    if with_subspace {
        key.push(subspace);
    }
    assert(key@ =~= key_bytes(subspace, Seq::empty(), with_subspace));
    key
}

impl ValueClass {
    pub open spec fn subspace_spec(&self) -> u8 {
        match self {
            ValueClass::Property(_) => SUBSPACE_PROPERTY,
            ValueClass::Counter(_) => SUBSPACE_COUNTER,
            ValueClass::Quota => SUBSPACE_QUOTA,
        }
    }

    pub open spec fn is_counter_spec(&self) -> bool {
        !(self is Property)
    }

    /// The subspace in which values of this class live.
    #[verifier::when_used_as_spec(subspace_spec)]
    pub fn subspace(&self) -> (subspace: u8)
        ensures
            subspace == self.subspace_spec(),
    {
        match self {
            ValueClass::Property(_) => SUBSPACE_PROPERTY,
            ValueClass::Counter(_) => SUBSPACE_COUNTER,
            ValueClass::Quota => SUBSPACE_QUOTA,
        }
    }

    /// Whether values of this class are 64-bit integers that the backend adds
    /// to.  Such a value is one record, always.
    #[verifier::when_used_as_spec(is_counter_spec)]
    pub fn is_counter(&self) -> (counter: bool)
        ensures
            counter == self.is_counter_spec(),
    {
        match self {
            ValueClass::Property(_) => false,
            _ => true,
        }
    }

    /// The key of the value of this class in the given context.
    pub fn serialize(
        &self,
        account_id: u32,
        collection: u8,
        document_id: u32,
        with_subspace: bool,
    ) -> (key: Vec<u8>)
        ensures
            key@ == key_bytes(
                self.subspace_spec(),
                value_key_body(*self, account_id, collection, document_id),
                with_subspace,
            ),
    {
        let mut key = start_key(self.subspace(), with_subspace);
        push_be32(&mut key, account_id);
        match self {
            ValueClass::Property(field) => {
                key.push(collection);
                push_be32(&mut key, document_id);
                key.push(*field);
            },
            ValueClass::Counter(name) => {
                key.extend_from_slice(name.as_slice());
            },
            ValueClass::Quota => {},
        }
        assert(key@ =~= key_bytes(
            self.subspace_spec(),
            value_key_body(*self, account_id, collection, document_id),
            with_subspace,
        ));
        key
    }
}

impl BitmapClass {
    /// The key of the membership bit of this class in the given context.
    pub fn serialize(
        &self,
        account_id: u32,
        collection: u8,
        document_id: u32,
        with_subspace: bool,
    ) -> (key: Vec<u8>)
        ensures
            key@ == key_bytes(
                SUBSPACE_BITMAPS,
                bitmap_key_body(*self, account_id, collection, document_id),
                with_subspace,
            ),
    {
        let mut key = start_key(SUBSPACE_BITMAPS, with_subspace);
        push_be32(&mut key, account_id);
        key.push(collection);
        match self {
            BitmapClass::DocumentIds => {
                key.push(0);
            },
            BitmapClass::Tag { field, value } => {
                key.push(1);
                key.push(*field);
                key.extend_from_slice(value.as_slice());
            },
            BitmapClass::Text { field, token } => {
                key.push(2);
                key.push(*field);
                key.extend_from_slice(token.as_slice());
            },
        }
        push_be32(&mut key, document_id);
        assert(key@ =~= key_bytes(
            SUBSPACE_BITMAPS,
            bitmap_key_body(*self, account_id, collection, document_id),
            with_subspace,
        ));
        key
    }
}

/// Something that has a place in a backend.
pub trait Key {
    /// The subspace of the key.
    spec fn subspace_spec(&self) -> u8;

    /// The key without its subspace.
    spec fn body(&self) -> Seq<u8>;

    /// The subspace of the key.
    fn subspace(&self) -> (subspace: u8)
        ensures
            subspace == self.subspace_spec(),
    ;

    /// The bytes of the key, with the subspace in front if asked for.
    fn serialize(&self, with_subspace: bool) -> (key: Vec<u8>)
        ensures
            key@ == key_bytes(self.subspace_spec(), self.body(), with_subspace),
    ;
}

/// The key of a value.
pub struct ValueKey<'a> {
    pub account_id: u32,
    pub collection: u8,
    pub document_id: u32,
    pub class: &'a ValueClass,
}

/// The key of a membership bit.
pub struct BitmapKey<'a> {
    pub account_id: u32,
    pub collection: u8,
    pub class: &'a BitmapClass,
    pub document_id: u32,
}

/// The key of an index entry.
pub struct IndexKey<'a> {
    pub account_id: u32,
    pub collection: u8,
    pub document_id: u32,
    pub field: u8,
    pub key: &'a [u8],
}

/// The key of a change-log entry.
pub struct LogKey {
    pub account_id: u32,
    pub collection: u8,
    pub change_id: u64,
}

impl<'a> Key for ValueKey<'a> {
    open spec fn subspace_spec(&self) -> u8 {
        self.class.subspace_spec()
    }

    open spec fn body(&self) -> Seq<u8> {
        value_key_body(*self.class, self.account_id, self.collection, self.document_id)
    }

    fn subspace(&self) -> (subspace: u8) {
        self.class.subspace()
    }

    fn serialize(&self, with_subspace: bool) -> (key: Vec<u8>) {
        self.class.serialize(self.account_id, self.collection, self.document_id, with_subspace)
    }
}

impl<'a> Key for BitmapKey<'a> {
    open spec fn subspace_spec(&self) -> u8 {
        SUBSPACE_BITMAPS
    }

    open spec fn body(&self) -> Seq<u8> {
        bitmap_key_body(*self.class, self.account_id, self.collection, self.document_id)
    }

    fn subspace(&self) -> (subspace: u8) {
        SUBSPACE_BITMAPS
    }

    fn serialize(&self, with_subspace: bool) -> (key: Vec<u8>) {
        self.class.serialize(self.account_id, self.collection, self.document_id, with_subspace)
    }
}

impl<'a> Key for IndexKey<'a> {
    open spec fn subspace_spec(&self) -> u8 {
        SUBSPACE_INDEXES
    }

    open spec fn body(&self) -> Seq<u8> {
        index_key_body(self.account_id, self.collection, self.document_id, self.field, self.key@)
    }

    fn subspace(&self) -> (subspace: u8) {
        SUBSPACE_INDEXES
    }

    fn serialize(&self, with_subspace: bool) -> (key: Vec<u8>) {
        let mut key = start_key(SUBSPACE_INDEXES, with_subspace);
        push_be32(&mut key, self.account_id);
        key.push(self.collection);
        key.push(self.field);
        key.extend_from_slice(self.key);
        push_be32(&mut key, self.document_id);
        assert(key@ =~= key_bytes(SUBSPACE_INDEXES, self.body(), with_subspace));
        key
    }
}

impl Key for LogKey {
    open spec fn subspace_spec(&self) -> u8 {
        SUBSPACE_LOGS
    }

    open spec fn body(&self) -> Seq<u8> {
        log_key_body(self.account_id, self.collection, self.change_id)
    }

    fn subspace(&self) -> (subspace: u8) {
        SUBSPACE_LOGS
    }

    fn serialize(&self, with_subspace: bool) -> (key: Vec<u8>) {
        let mut key = start_key(SUBSPACE_LOGS, with_subspace);
        push_be32(&mut key, self.account_id);
        key.push(self.collection);
        push_be64(&mut key, self.change_id);
        assert(key@ =~= key_bytes(SUBSPACE_LOGS, self.body(), with_subspace));
        key
    }
}

/// The keys of the documents of a collection all have one length and end with
/// the document, so that the document can be read back from the key.
pub proof fn lemma_document_key_shape(
    account_id: u32,
    collection: u8,
    document_id: u32,
    with_subspace: bool,
)
    ensures
        ({
            let key = key_bytes(
                SUBSPACE_BITMAPS,
                bitmap_key_body(BitmapClass::DocumentIds, account_id, collection, document_id),
                with_subspace,
            );
            &&& key.len() == document_key_len(with_subspace)
            &&& key.subrange(key.len() - 4, key.len() as int) == be32(document_id)
        }),
{
    let key = key_bytes(
        SUBSPACE_BITMAPS,
        bitmap_key_body(BitmapClass::DocumentIds, account_id, collection, document_id),
        with_subspace,
    );
    assert(key.subrange(key.len() - 4, key.len() as int) =~= be32(document_id));
}

/// Length of the key of a document's membership in its collection.
pub open spec fn document_key_len(with_subspace: bool) -> nat {
    if with_subspace {
        11
    } else {
        10
    }
}

} // verus!
