use roaring::RoaringBitmap;
use store::allocator::{
    allocate_id, available_ids, found_document_ids, pick_available, random_available_id,
};
use store::batch::{AssertValue, AssignedIds, BitmapClass, Context, Payload, ValueClass};
use store::bytes::{
    deserialize_be_u32, deserialize_i64_le, push_be32, push_be64, serialize_i64_be,
    serialize_i64_le, to_signed64, to_unsigned64,
};
use store::error::Error;
use store::key::{BitmapKey, IndexKey, Key, LogKey, ValueKey};

#[test]
fn integers_are_written_big_endian_in_keys() {
    let mut out = vec![9u8];
    push_be32(&mut out, 0x0102_0304);
    assert_eq!(out, vec![9, 1, 2, 3, 4]);
    let mut out = Vec::new();
    push_be64(&mut out, 0x0102_0304_0506_0708);
    assert_eq!(out, vec![1, 2, 3, 4, 5, 6, 7, 8]);
    assert_eq!(serialize_i64_be(-2), vec![0xFF, 0xFF, 0xFF, 0xFF, 0xFF, 0xFF, 0xFF, 0xFE]);
}

#[test]
fn counters_are_little_endian() {
    assert_eq!(serialize_i64_le(1), vec![1, 0, 0, 0, 0, 0, 0, 0]);
    assert_eq!(serialize_i64_le(-1), vec![0xFF; 8]);
    assert_eq!(serialize_i64_le(0x0102_0304_0506_0708), vec![8, 7, 6, 5, 4, 3, 2, 1]);
    assert_eq!(serialize_i64_le(i64::MIN), i64::MIN.to_le_bytes().to_vec());
    for n in [0i64, 1, -1, 255, 256, -256, i64::MAX, i64::MIN, 1 << 40, -(1 << 40)] {
        assert_eq!(serialize_i64_le(n), n.to_le_bytes().to_vec());
        assert_eq!(deserialize_i64_le(&serialize_i64_le(n)), Some(n));
        assert_eq!(to_signed64(to_unsigned64(n)), n);
        assert_eq!(to_unsigned64(n), n as u64);
    }
}

#[test]
fn counter_of_wrong_length_is_not_read() {
    assert_eq!(deserialize_i64_le(&[1, 2, 3]), None);
    assert_eq!(deserialize_i64_le(&[0; 9]), None);
    assert_eq!(deserialize_i64_le(&[]), None);
}

#[test]
fn trailing_u32_is_read_back() {
    let bytes = [7u8, 0, 0, 1, 2];
    assert_eq!(deserialize_be_u32(&bytes, 1), Some(258));
    assert_eq!(deserialize_be_u32(&bytes, 0), Some(0x0700_0001));
    assert_eq!(deserialize_be_u32(&bytes, 2), None);
    assert_eq!(deserialize_be_u32(&bytes[..3], 0), None);
    assert_eq!(deserialize_be_u32(&[0xFF; 4], 0), Some(u32::MAX));
}

#[test]
fn value_keys() {
    let property = ValueClass::Property(5);
    assert_eq!(property.serialize(1, 2, 3, true), vec![b'p', 0, 0, 0, 1, 2, 0, 0, 0, 3, 5]);
    assert_eq!(property.serialize(1, 2, 3, false), vec![0, 0, 0, 1, 2, 0, 0, 0, 3, 5]);
    assert_eq!(property.subspace(), b'p');
    assert!(!property.is_counter());

    let counter = ValueClass::Counter(b"seq".to_vec());
    assert_eq!(counter.serialize(1, 2, 3, true), vec![b'n', 0, 0, 0, 1, b's', b'e', b'q']);
    assert_eq!(counter.subspace(), b'n');
    assert!(counter.is_counter());

    let quota = ValueClass::Quota;
    assert_eq!(quota.serialize(0x0A0B_0C0D, 2, 3, true), vec![b'u', 0x0A, 0x0B, 0x0C, 0x0D]);
    assert_eq!(quota.serialize(0x0A0B_0C0D, 2, 3, false), vec![0x0A, 0x0B, 0x0C, 0x0D]);
    assert_eq!(quota.subspace(), b'u');
    assert!(quota.is_counter());
}

#[test]
fn bitmap_keys_end_with_the_document() {
    let documents = BitmapClass::DocumentIds;
    assert_eq!(documents.serialize(1, 2, 258, true), vec![b'b', 0, 0, 0, 1, 2, 0, 0, 0, 1, 2]);
    assert_eq!(documents.serialize(1, 2, 258, false), vec![0, 0, 0, 1, 2, 0, 0, 0, 1, 2]);
    assert!(documents.is_document_ids());
    let tag = BitmapClass::Tag { field: 9, value: b"x".to_vec() };
    assert_eq!(tag.serialize(1, 2, 3, true), vec![b'b', 0, 0, 0, 1, 2, 1, 9, b'x', 0, 0, 0, 3]);
    assert!(!tag.is_document_ids());
    let text = BitmapClass::Text { field: 9, token: b"yz".to_vec() };
    assert_eq!(
        text.serialize(1, 2, 3, false),
        vec![0, 0, 0, 1, 2, 2, 9, b'y', b'z', 0, 0, 0, 3]
    );
}

#[test]
fn keys_of_every_kind() {
    let class = ValueClass::Property(7);
    let value = ValueKey { account_id: 1, collection: 2, document_id: 3, class: &class };
    assert_eq!(value.serialize(true), class.serialize(1, 2, 3, true));
    assert_eq!(value.subspace(), b'p');

    let documents = BitmapClass::DocumentIds;
    let bitmap = BitmapKey { account_id: 1, collection: 2, class: &documents, document_id: 3 };
    assert_eq!(bitmap.serialize(false), documents.serialize(1, 2, 3, false));
    assert_eq!(bitmap.subspace(), b'b');

    let index = IndexKey { account_id: 1, collection: 2, document_id: 3, field: 4, key: b"ab" };
    assert_eq!(index.serialize(true), vec![b'i', 0, 0, 0, 1, 2, 4, b'a', b'b', 0, 0, 0, 3]);
    assert_eq!(index.serialize(false), vec![0, 0, 0, 1, 2, 4, b'a', b'b', 0, 0, 0, 3]);
    assert_eq!(index.subspace(), b'i');

    let log = LogKey { account_id: 1, collection: 2, change_id: 0x0102 };
    assert_eq!(log.serialize(true), vec![b'l', 0, 0, 0, 1, 2, 0, 0, 0, 0, 0, 0, 1, 2]);
    assert_eq!(log.subspace(), b'l');
}

#[test]
fn payloads_resolve_against_assigned_ids() {
    let mut ids = AssignedIds::new();
    assert_eq!(ids.last_document_id(), None);
    assert_eq!(ids.last_counter_id(), None);
    ids.push_document_id(258);
    ids.push_document_id(7);
    ids.push_counter_id(-2);
    assert_eq!(ids.document_ids, vec![258, 7]);
    assert_eq!(ids.counter_ids, vec![-2]);
    assert_eq!(ids.last_document_id(), Some(7));
    assert_eq!(ids.last_counter_id(), Some(-2));

    assert_eq!(Payload::Static(b"abc".to_vec()).resolve(&ids), Ok(b"abc".to_vec()));
    assert_eq!(Payload::DocumentId(0).resolve(&ids), Ok(vec![0, 0, 1, 2]));
    assert_eq!(Payload::DocumentId(1).resolve(&ids), Ok(vec![0, 0, 0, 7]));
    assert_eq!(
        Payload::Counter(0).resolve(&ids),
        Ok(vec![0xFF, 0xFF, 0xFF, 0xFF, 0xFF, 0xFF, 0xFF, 0xFE])
    );
    let missing = Error::InternalError("No assigned id at this position".to_string());
    assert_eq!(Payload::DocumentId(2).resolve(&ids), Err(missing.clone()));
    assert_eq!(Payload::Counter(1).resolve(&ids), Err(missing));
}

#[test]
fn asserted_values_match_exactly() {
    assert!(AssertValue::U32(258).matches(&[0, 0, 1, 2]));
    assert!(!AssertValue::U32(258).matches(&[0, 0, 1, 3]));
    assert!(!AssertValue::U32(258).matches(&[0, 0, 0, 0, 1, 2]));
    assert!(AssertValue::U64(258).matches(&[0, 0, 0, 0, 0, 0, 1, 2]));
    assert!(!AssertValue::U64(258).matches(&[0, 0, 1, 2]));
    assert!(AssertValue::Bytes(b"v0".to_vec()).matches(b"v0"));
    assert!(!AssertValue::Bytes(b"v0".to_vec()).matches(b"v1"));
    assert!(!AssertValue::Bytes(b"v0".to_vec()).matches(b"v0x"));
    assert!(!AssertValue::Missing.matches(b""));
    assert!(AssertValue::Missing.is_none());
    assert!(!AssertValue::U32(0).is_none());
}

#[test]
fn errors_have_messages() {
    assert_eq!(Error::AssertValueFailed.message(), "Assert value failed");
    assert_eq!(Error::internal("Value too large").message(), "Value too large");
    assert_eq!(Error::internal("x"), Error::InternalError("x".to_string()));
    assert_eq!(Error::Backend("gone".to_string()).message(), "gone");
}

#[test]
fn context_starts_unset() {
    assert_eq!(
        Context::new(),
        Context { account_id: u32::MAX, collection: u8::MAX, document_id: u32::MAX }
    );
}

fn document_keys(ids: &[u32]) -> Vec<Vec<u8>> {
    ids.iter().map(|id| BitmapClass::DocumentIds.serialize(1, 2, *id, false)).collect()
}

#[test]
fn document_ids_are_read_from_keys_of_the_right_length() {
    let mut keys = document_keys(&[0, 5, 258, u32::MAX]);
    keys.push(vec![0, 0, 0, 1, 2, 0, 0, 0, 0, 9, 9]);
    keys.push(vec![1, 2, 3]);
    let found = found_document_ids(&keys, 10);
    assert_eq!(found.iter().collect::<Vec<u32>>(), vec![0, 5, 258, u32::MAX]);
    assert_eq!(found_document_ids(&Vec::new(), 10), RoaringBitmap::new());
    assert_eq!(found_document_ids(&keys, 3), RoaringBitmap::new());
    assert_eq!(found_document_ids(&keys, 11).iter().collect::<Vec<u32>>(), vec![0x0909]);
}

#[test]
fn free_ids_are_counted_below_the_sentinel() {
    let found = found_document_ids(&document_keys(&[0, 1, 2, u32::MAX]), 10);
    assert_eq!(available_ids(&found), u32::MAX as u64 - 3);
    assert_eq!(available_ids(&RoaringBitmap::new()), u32::MAX as u64);
}

#[test]
fn kth_free_id_is_picked() {
    let found = found_document_ids(&document_keys(&[0, 1, 2, 5, 7]), 10);
    assert_eq!(pick_available(&found, 0), 3);
    assert_eq!(pick_available(&found, 1), 4);
    assert_eq!(pick_available(&found, 2), 6);
    assert_eq!(pick_available(&found, 3), 8);
    assert_eq!(pick_available(&found, 100), 105);
    assert_eq!(pick_available(&found, u32::MAX as u64 - 6), u32::MAX - 1);
    let empty = RoaringBitmap::new();
    assert_eq!(pick_available(&empty, 0), 0);
    assert_eq!(pick_available(&empty, 41), 41);
}

#[test]
fn seed_selects_among_free_ids() {
    let found = found_document_ids(&document_keys(&[0, 1, 2]), 10);
    let free = u32::MAX as u64 - 3;
    assert_eq!(allocate_id(&found, 0), Some(3));
    assert_eq!(allocate_id(&found, 10), Some(13));
    assert_eq!(allocate_id(&found, free), Some(3));
    assert_eq!(allocate_id(&found, free + 2), Some(5));
}

#[test]
fn random_id_is_free() {
    let taken: Vec<u32> = (0..1000).collect();
    let found = found_document_ids(&document_keys(&taken), 10);
    for _ in 0..100 {
        let id = random_available_id(&found).unwrap();
        assert!(id >= 1000);
        assert!(id < u32::MAX);
        assert!(!found.contains(id));
    }
}

#[test]
fn no_id_is_allocated_when_all_are_taken() {
    let mut found = RoaringBitmap::full();
    assert_eq!(available_ids(&found), 0);
    assert_eq!(allocate_id(&found, 0), None);
    assert_eq!(allocate_id(&found, 12345), None);
    assert_eq!(random_available_id(&found), None);

    found.remove(u32::MAX);
    assert_eq!(allocate_id(&found, 7), None);

    found.remove(12345);
    assert_eq!(available_ids(&found), 1);
    assert_eq!(allocate_id(&found, 0), Some(12345));
    assert_eq!(allocate_id(&found, u64::MAX), Some(12345));
    assert_eq!(random_available_id(&found), Some(12345));

    found.remove(u32::MAX - 1);
    assert_eq!(pick_available(&found, 1), u32::MAX - 1);
}
