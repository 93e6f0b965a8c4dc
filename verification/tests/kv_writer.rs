use std::collections::BTreeMap;

use store::batch::{
    AssertValue, AssignedIds, Batch, BitmapClass, Context, Operation, Payload, ValueClass, ValueOp,
};
use store::error::Error;
use store::key::{BitmapKey, IndexKey, Key, LogKey, ValueKey};
use store::kv::{delete_range, KvWriter, Reply, Request, MAX_VALUE_SIZE};
use store::mutation::{Mutation, Record};

type Store = BTreeMap<Vec<u8>, Vec<u8>>;

fn commit(store: &mut Store, mutations: &[Mutation]) {
    for mutation in mutations {
        match mutation {
            Mutation::Put { key, value } => {
                store.insert(key.clone(), value.clone());
            }
            Mutation::Clear { key } => {
                store.remove(key);
            }
            Mutation::ClearRange { begin, end } => {
                store.retain(|key, _| !(key >= begin && key < end));
            }
            Mutation::Add { key, delta } => {
                let mut bytes = [0u8; 8];
                if let Some(value) = store.get(key) {
                    for (to, from) in bytes.iter_mut().zip(value.iter()) {
                        *to = *from;
                    }
                }
                let sum = i64::from_le_bytes(bytes).wrapping_add(*delta);
                store.insert(key.clone(), sum.to_le_bytes().to_vec());
            }
            Mutation::CompareAndClear { key, expected } => {
                if store.get(key) == Some(&expected.to_le_bytes().to_vec()) {
                    store.remove(key);
                }
            }
            Mutation::ReadConflictRange { .. } => {}
        }
    }
}

fn scan(store: &Store, begin: &[u8], end: &[u8]) -> Vec<Record> {
    store
        .iter()
        .filter(|(key, _)| key.as_slice() >= begin && key.as_slice() < end)
        .map(|(key, value)| Record { key: key.clone(), value: value.clone() })
        .collect()
}

fn answer(store: &Store, request: &Request) -> Reply {
    match request {
        Request::Nothing | Request::Commit => Reply::Nothing,
        Request::Get { key } => Reply::Value(store.get(key).cloned()),
        Request::GetRange { begin, end, .. } => Reply::Records(scan(store, begin, end)),
        Request::GetKeys { begin, end } => {
            Reply::Keys(scan(store, begin, end).into_iter().map(|record| record.key).collect())
        }
    }
}

/// One attempt at a batch against a store: the mutations are made as soon
/// as they are known, on a copy that replaces the store if all goes well.
fn attempt(
    store: &mut Store,
    batch: &Batch,
    max_value_size: usize,
    seed: u64,
) -> Result<AssignedIds, Error> {
    let mut writer = KvWriter::new(max_value_size);
    let mut transaction = store.clone();
    loop {
        let request = writer.request(batch);
        if request == Request::Commit {
            *store = transaction;
            return Ok(writer.finish());
        }
        let reply = answer(&transaction, &request);
        let mutations = writer.apply_seeded(batch, reply, seed)?;
        commit(&mut transaction, &mutations);
    }
}

fn about(account_id: u32, collection: u8, document_id: u32) -> Vec<Operation> {
    vec![
        Operation::AccountId { account_id },
        Operation::Collection { collection },
        Operation::DocumentId { document_id },
    ]
}

fn batch(ops: Vec<Operation>) -> Batch {
    Batch { ops, change_id: 9 }
}

fn put(field: u8, value: &[u8]) -> Operation {
    Operation::Value {
        class: ValueClass::Property(field),
        op: ValueOp::Put(Payload::Static(value.to_vec())),
    }
}

fn counter(name: &[u8], op: ValueOp) -> Operation {
    Operation::Value { class: ValueClass::Counter(name.to_vec()), op }
}

fn property_key(field: u8) -> Vec<u8> {
    ValueClass::Property(field).serialize(1, 2, 3, true)
}

#[test]
fn chunked_set_and_clear() {
    let mut store = Store::new();
    let mut ops = about(1, 2, 3);
    ops.push(put(7, b"abcdefghi"));
    assert_eq!(attempt(&mut store, &batch(ops), 4, 0), Ok(AssignedIds::new()));

    let key = property_key(7);
    let mut second = key.clone();
    second.push(0);
    let mut third = key.clone();
    third.push(1);
    assert_eq!(
        store.iter().map(|(k, v)| (k.clone(), v.clone())).collect::<Vec<_>>(),
        vec![
            (key.clone(), b"abcd".to_vec()),
            (second, b"efgh".to_vec()),
            (third, b"i".to_vec()),
        ]
    );

    let mut read = about(1, 2, 3);
    read.push(Operation::AssertValue {
        class: ValueClass::Property(7),
        assert_value: AssertValue::Bytes(b"abcdefghi".to_vec()),
    });
    assert_eq!(attempt(&mut store, &batch(read), 4, 0), Ok(AssignedIds::new()));

    let mut clear = about(1, 2, 3);
    clear.push(Operation::Value { class: ValueClass::Property(7), op: ValueOp::Clear });
    assert_eq!(attempt(&mut store, &batch(clear), 4, 0), Ok(AssignedIds::new()));
    assert!(store.is_empty());
}

#[test]
fn clear_of_a_chunked_value_spares_the_neighbours() {
    let mut store = Store::new();
    let mut ops = about(1, 2, 3);
    ops.push(put(6, b"before"));
    ops.push(put(7, b"abcdefghi"));
    ops.push(put(8, b"after"));
    ops.push(Operation::Value { class: ValueClass::Property(7), op: ValueOp::Clear });
    attempt(&mut store, &batch(ops), 4, 0).unwrap();
    let left: Vec<Vec<u8>> =
        scan(&store, &[], &[0xFF]).into_iter().map(|record| record.key).collect();
    let mut chunk = property_key(6);
    chunk.push(0);
    let mut chunk8 = property_key(8);
    chunk8.push(0);
    assert_eq!(left, vec![property_key(6), chunk, property_key(8), chunk8]);
}

#[test]
fn small_value_is_one_record() {
    let mut writer = KvWriter::new(4);
    let ops = vec![put(7, b"abcd")];
    let mutations = writer.apply_seeded(&batch(ops), Reply::Nothing, 0).unwrap();
    assert_eq!(
        mutations,
        vec![Mutation::Put {
            key: ValueClass::Property(7).serialize(u32::MAX, u8::MAX, u32::MAX, true),
            value: b"abcd".to_vec()
        }]
    );
}

#[test]
fn oversized_value_fails_and_leaves_no_record() {
    let mut store = Store::new();
    let mut ops = about(1, 2, 3);
    ops.push(put(6, b"kept?"));
    ops.push(put(7, &vec![1u8; 4 * 256 + 1]));
    assert_eq!(
        attempt(&mut store, &batch(ops), 4, 0),
        Err(Error::InternalError("Value too large".to_string()))
    );
    assert!(store.is_empty());

    let mut ops = about(1, 2, 3);
    ops.push(put(7, &vec![1u8; 4 * 256]));
    assert_eq!(attempt(&mut store, &batch(ops), 4, 0), Ok(AssignedIds::new()));
    assert_eq!(store.len(), 256);
}

#[test]
fn counters_are_never_chunked() {
    let mut writer = KvWriter::new(4);
    let ops = vec![counter(b"c", ValueOp::Put(Payload::Static(b"0123456789".to_vec())))];
    let mutations = writer.apply_seeded(&batch(ops), Reply::Nothing, 0).unwrap();
    assert_eq!(
        mutations,
        vec![Mutation::Put {
            key: ValueClass::Counter(b"c".to_vec()).serialize(u32::MAX, 0, 0, true),
            value: b"0123456789".to_vec()
        }]
    );
    let mut writer = KvWriter::new(4);
    let ops = vec![counter(b"c", ValueOp::Clear)];
    assert_eq!(
        writer.apply_seeded(&batch(ops), Reply::Nothing, 0).unwrap(),
        vec![Mutation::Clear {
            key: ValueClass::Counter(b"c".to_vec()).serialize(u32::MAX, 0, 0, true)
        }]
    );
}

#[test]
fn atomic_adds_converge() {
    let mut store = Store::new();
    let mut ops = about(1, 2, 3);
    ops.push(counter(b"hits", ValueOp::AtomicAdd(1)));
    let batch = batch(ops);
    for _ in 0..25 {
        attempt(&mut store, &batch, 4, 0).unwrap();
    }
    let key = ValueClass::Counter(b"hits".to_vec()).serialize(1, 2, 3, true);
    assert_eq!(store.get(&key), Some(&25i64.to_le_bytes().to_vec()));
}

#[test]
fn atomic_add_is_one_mutation() {
    let mut writer = KvWriter::new(4);
    let ops = vec![Operation::AccountId { account_id: 1 }, counter(b"c", ValueOp::AtomicAdd(-3))];
    let batch = batch(ops);
    assert_eq!(writer.request(&batch), Request::Nothing);
    assert_eq!(writer.apply_seeded(&batch, Reply::Nothing, 0), Ok(Vec::new()));
    assert_eq!(writer.request(&batch), Request::Nothing);
    assert_eq!(
        writer.apply_seeded(&batch, Reply::Nothing, 0),
        Ok(vec![Mutation::Add {
            key: ValueClass::Counter(b"c".to_vec()).serialize(1, 0, 0, true),
            delta: -3
        }])
    );
    assert_eq!(writer.request(&batch), Request::Commit);
    assert_eq!(writer.position(), 2);
}

#[test]
fn add_and_get_returns_contiguous_values() {
    let mut store = Store::new();
    let mut ops = about(1, 2, 3);
    ops.push(counter(b"next", ValueOp::AddAndGet(1)));
    let batch = batch(ops);
    let first = attempt(&mut store, &batch, 4, 0).unwrap();
    let second = attempt(&mut store, &batch, 4, 0).unwrap();
    assert_eq!(first.counter_ids, vec![1]);
    assert_eq!(second.counter_ids, vec![2]);
    let key = ValueClass::Counter(b"next".to_vec()).serialize(1, 2, 3, true);
    assert_eq!(store.get(&key), Some(&2i64.to_le_bytes().to_vec()));
    for expected in 3..=20 {
        assert_eq!(attempt(&mut store, &batch, 4, 0).unwrap().counter_ids, vec![expected]);
    }
}

#[test]
fn add_and_get_reads_then_writes() {
    let ops = vec![counter(b"c", ValueOp::AddAndGet(5))];
    let batch = batch(ops);
    let key = ValueClass::Counter(b"c".to_vec()).serialize(u32::MAX, 0, 0, true);

    let mut writer = KvWriter::new(4);
    assert_eq!(writer.request(&batch), Request::Get { key: key.clone() });
    let stored = 37i64.to_le_bytes().to_vec();
    assert_eq!(
        writer.apply_seeded(&batch, Reply::Value(Some(stored)), 0),
        Ok(vec![Mutation::Put { key: key.clone(), value: 42i64.to_le_bytes().to_vec() }])
    );
    assert_eq!(writer.assigned().counter_ids, vec![42]);

    let mut writer = KvWriter::new(4);
    assert_eq!(
        writer.apply_seeded(&batch, Reply::Value(Some(i64::MAX.to_le_bytes().to_vec())), 0),
        Ok(vec![Mutation::Put { key: key.clone(), value: (i64::MIN + 4).to_le_bytes().to_vec() }])
    );

    let mut writer = KvWriter::new(4);
    assert_eq!(
        writer.apply_seeded(&batch, Reply::Value(Some(vec![1, 2, 3])), 0),
        Err(Error::InternalError("Failed to deserialize i64 value: invalid length".to_string()))
    );
    assert_eq!(writer.position(), 0);
    assert_eq!(writer.assigned().counter_ids, Vec::<i64>::new());

    let mut writer = KvWriter::new(4);
    assert_eq!(
        writer.apply_seeded(&batch, Reply::Failed("timed out".to_string()), 0),
        Err(Error::Backend("timed out".to_string()))
    );
}

fn allocate() -> Batch {
    batch(vec![
        Operation::AccountId { account_id: 1 },
        Operation::Collection { collection: 2 },
        Operation::Bitmap { class: BitmapClass::DocumentIds, set: true },
        put(7, b"doc"),
        Operation::Log { set: Payload::DocumentId(0) },
    ])
}

#[test]
fn document_id_is_allocated_and_becomes_current() {
    let mut store = Store::new();
    let ids = attempt(&mut store, &allocate(), 4, 41).unwrap();
    assert_eq!(ids.document_ids, vec![41]);
    assert!(store.contains_key(&BitmapClass::DocumentIds.serialize(1, 2, 41, true)));
    assert_eq!(
        store.get(&ValueClass::Property(7).serialize(1, 2, 41, true)),
        Some(&b"doc".to_vec())
    );
    let log = LogKey { account_id: 1, collection: 2, change_id: 9 }.serialize(true);
    assert_eq!(store.get(&log), Some(&vec![0, 0, 0, 41]));
}

#[test]
fn allocation_declares_the_key_read() {
    let batch = allocate();
    let mut writer = KvWriter::new(4);
    writer.apply_seeded(&batch, Reply::Nothing, 0).unwrap();
    writer.apply_seeded(&batch, Reply::Nothing, 0).unwrap();
    assert_eq!(
        writer.request(&batch),
        Request::GetKeys {
            begin: BitmapClass::DocumentIds.serialize(1, 2, 0, true),
            end: BitmapClass::DocumentIds.serialize(1, 2, u32::MAX, true),
        }
    );
    let taken = vec![
        BitmapClass::DocumentIds.serialize(1, 2, 0, true),
        BitmapClass::DocumentIds.serialize(1, 2, 1, true),
        BitmapClass::DocumentIds.serialize(1, 2, 3, true),
        vec![b'b', 0, 0, 0, 1, 2, 0, 0, 0, 0, 2, 0],
    ];
    let mutations = writer.apply_seeded(&batch, Reply::Keys(taken), 1).unwrap();
    let key = BitmapClass::DocumentIds.serialize(1, 2, 4, true);
    assert_eq!(
        mutations,
        vec![
            Mutation::ReadConflictRange {
                begin: key.clone(),
                end: BitmapClass::DocumentIds.serialize(1, 2, 5, true)
            },
            Mutation::Put { key, value: Vec::new() },
        ]
    );
    assert_eq!(writer.context(), Context { account_id: 1, collection: 2, document_id: 4 });
    assert_eq!(writer.assigned().document_ids, vec![4]);
    assert_eq!(writer.position(), 3);
}

#[test]
fn allocation_under_contention() {
    let mut store = Store::new();
    let batch = allocate();
    let snapshot = store.clone();

    let mut winner_view = snapshot.clone();
    let winner = attempt(&mut winner_view, &batch, 4, 77).unwrap();
    let mut loser_view = snapshot.clone();
    let loser = attempt(&mut loser_view, &batch, 4, 77).unwrap();
    assert_eq!(winner.document_ids, loser.document_ids);
    store = winner_view;

    let retried = attempt(&mut store, &batch, 4, 77).unwrap();
    assert_ne!(retried.document_ids, winner.document_ids);
    assert!(retried.document_ids[0] < u32::MAX);
    assert!(winner.document_ids[0] < u32::MAX);
    for id in [winner.document_ids[0], retried.document_ids[0]] {
        assert!(store.contains_key(&BitmapClass::DocumentIds.serialize(1, 2, id, true)));
    }
}

#[test]
fn many_allocations_never_collide() {
    let mut store = Store::new();
    let batch = batch(vec![
        Operation::AccountId { account_id: 1 },
        Operation::Collection { collection: 2 },
        Operation::Bitmap { class: BitmapClass::DocumentIds, set: true },
    ]);
    let mut seen = std::collections::BTreeSet::new();
    for round in 0..200u64 {
        let mut writer = KvWriter::new(4);
        let mut transaction = store.clone();
        loop {
            let request = writer.request(&batch);
            if request == Request::Commit {
                break;
            }
            let reply = answer(&transaction, &request);
            let seed = round % 3;
            let mutations = if round % 2 == 0 {
                writer.apply(&batch, reply).unwrap()
            } else {
                writer.apply_seeded(&batch, reply, seed).unwrap()
            };
            commit(&mut transaction, &mutations);
        }
        store = transaction;
        let id = writer.finish().document_ids[0];
        assert!(seen.insert(id));
        assert!(store.contains_key(&BitmapClass::DocumentIds.serialize(1, 2, id, true)));
    }
    assert_eq!(store.len(), 200);
}

#[test]
fn preset_document_is_not_allocated() {
    let mut ops = about(1, 2, 3);
    ops.push(Operation::Bitmap { class: BitmapClass::DocumentIds, set: true });
    ops.push(Operation::Bitmap { class: BitmapClass::Tag { field: 1, value: b"t".to_vec() }, set: true });
    ops.push(Operation::Bitmap { class: BitmapClass::DocumentIds, set: false });
    let batch = batch(ops);
    let mut writer = KvWriter::new(4);
    let mut all = Vec::new();
    while writer.request(&batch) != Request::Commit {
        assert_eq!(writer.request(&batch), Request::Nothing);
        all.extend(writer.apply_seeded(&batch, Reply::Nothing, 0).unwrap());
    }
    let documents = BitmapClass::DocumentIds;
    let key = BitmapKey { account_id: 1, collection: 2, class: &documents, document_id: 3 }
        .serialize(true);
    assert_eq!(
        all,
        vec![
            Mutation::Put { key: key.clone(), value: Vec::new() },
            Mutation::Put {
                key: BitmapClass::Tag { field: 1, value: b"t".to_vec() }.serialize(1, 2, 3, true),
                value: Vec::new()
            },
            Mutation::Clear { key },
        ]
    );
    assert_eq!(writer.finish(), AssignedIds::new());
}

#[test]
fn unset_document_bit_without_document_does_not_allocate() {
    let batch = batch(vec![Operation::Bitmap { class: BitmapClass::DocumentIds, set: false }]);
    let mut writer = KvWriter::new(4);
    assert_eq!(writer.request(&batch), Request::Nothing);
    assert_eq!(
        writer.apply_seeded(&batch, Reply::Nothing, 0),
        Ok(vec![Mutation::Clear {
            key: BitmapClass::DocumentIds.serialize(u32::MAX, u8::MAX, u32::MAX, true)
        }])
    );
}

#[test]
fn index_entries_have_no_value() {
    let mut ops = about(1, 2, 3);
    ops.push(Operation::Index { field: 4, key: b"ab".to_vec(), set: true });
    ops.push(Operation::Index { field: 4, key: b"ab".to_vec(), set: false });
    let batch = batch(ops);
    let mut writer = KvWriter::new(4);
    let mut all = Vec::new();
    while writer.request(&batch) != Request::Commit {
        all.extend(writer.apply_seeded(&batch, Reply::Nothing, 0).unwrap());
    }
    let key = IndexKey { account_id: 1, collection: 2, document_id: 3, field: 4, key: b"ab" }
        .serialize(true);
    assert_eq!(
        all,
        vec![Mutation::Put { key: key.clone(), value: Vec::new() }, Mutation::Clear { key }]
    );
}

#[test]
fn log_entry_is_stamped_with_the_change() {
    let mut ops = about(1, 2, 3);
    ops.push(Operation::Log { set: Payload::Static(b"changes".to_vec()) });
    ops.push(Operation::Log { set: Payload::Counter(0) });
    let batch = Batch { ops, change_id: 0x0102 };
    let mut store = Store::new();
    assert_eq!(
        attempt(&mut store, &batch, 4, 0),
        Err(Error::InternalError("No assigned id at this position".to_string()))
    );
    assert!(store.is_empty());
    let batch = Batch { ops: batch.ops[..4].to_vec(), change_id: 0x0102 };
    attempt(&mut store, &batch, 4, 0).unwrap();
    assert_eq!(
        store.into_iter().collect::<Vec<_>>(),
        vec![(vec![b'l', 0, 0, 0, 1, 2, 0, 0, 0, 0, 0, 0, 1, 2], b"changes".to_vec())]
    );
}

fn assert_then_put(expected: AssertValue, value: &[u8]) -> Batch {
    let mut ops = about(1, 2, 3);
    ops.push(Operation::AssertValue { class: ValueClass::Property(7), assert_value: expected });
    ops.push(put(7, value));
    batch(ops)
}

#[test]
fn lost_assertion_writes_nothing() {
    let mut store = Store::new();
    let mut ops = about(1, 2, 3);
    ops.push(put(7, b"v0"));
    attempt(&mut store, &batch(ops), 100, 0).unwrap();

    let a = assert_then_put(AssertValue::Bytes(b"v0".to_vec()), b"v1");
    let b = assert_then_put(AssertValue::Bytes(b"v0".to_vec()), b"v2");
    assert_eq!(attempt(&mut store, &a, 100, 0), Ok(AssignedIds::new()));
    let before = store.clone();
    assert_eq!(attempt(&mut store, &b, 100, 0), Err(Error::AssertValueFailed));
    assert_eq!(store, before);
    assert_eq!(store.get(&property_key(7)), Some(&b"v1".to_vec()));
}

#[test]
fn assertion_on_a_missing_key() {
    let mut store = Store::new();
    let fresh = assert_then_put(AssertValue::Missing, b"v0");
    assert_eq!(attempt(&mut store, &fresh, 100, 0), Ok(AssignedIds::new()));
    assert_eq!(attempt(&mut store, &fresh, 100, 0), Err(Error::AssertValueFailed));
    let mut empty = Store::new();
    let stale = assert_then_put(AssertValue::U32(1), b"v0");
    assert_eq!(attempt(&mut empty, &stale, 100, 0), Err(Error::AssertValueFailed));
    assert!(empty.is_empty());
}

#[test]
fn assertion_reads_a_chunked_value_whole() {
    let batch = assert_then_put(AssertValue::Bytes(b"abcdefghi".to_vec()), b"x");
    let key = property_key(7);
    let mut end = key.clone();
    end.push(0xFF);
    let mut writer = KvWriter::new(4);
    for _ in 0..3 {
        writer.apply_seeded(&batch, Reply::Nothing, 0).unwrap();
    }
    assert_eq!(
        writer.request(&batch),
        Request::GetRange { begin: key.clone(), end, snapshot: false }
    );
    let mut second = key.clone();
    second.push(0);
    let mut third = key.clone();
    third.push(1);
    let records = vec![
        Record { key: key.clone(), value: b"abcd".to_vec() },
        Record { key: second, value: b"efgh".to_vec() },
        Record { key: third, value: b"i".to_vec() },
    ];
    assert_eq!(writer.apply_seeded(&batch, Reply::Records(records), 0), Ok(Vec::new()));
    assert_eq!(writer.position(), 4);

    let mut writer = KvWriter::new(4);
    for _ in 0..3 {
        writer.apply_seeded(&batch, Reply::Nothing, 0).unwrap();
    }
    let records = vec![Record { key, value: b"abcd".to_vec() }];
    assert_eq!(
        writer.apply_seeded(&batch, Reply::Records(records), 0),
        Err(Error::AssertValueFailed)
    );
    assert_eq!(writer.position(), 3);
    assert_eq!(
        writer.apply_seeded(&batch, Reply::Failed("unreachable".to_string()), 0),
        Err(Error::AssertValueFailed)
    );
}

#[test]
fn assertion_on_a_counter_reads_one_key() {
    let ops = vec![Operation::AssertValue {
        class: ValueClass::Quota,
        assert_value: AssertValue::Bytes(5i64.to_le_bytes().to_vec()),
    }];
    let batch = batch(ops);
    let mut writer = KvWriter::new(4);
    let key = ValueClass::Quota.serialize(u32::MAX, 0, 0, true);
    assert_eq!(writer.request(&batch), Request::Get { key });
    assert_eq!(
        writer.apply_seeded(&batch, Reply::Value(Some(5i64.to_le_bytes().to_vec())), 0),
        Ok(Vec::new())
    );
    let mut writer = KvWriter::new(4);
    assert_eq!(
        writer.apply_seeded(&batch, Reply::Records(Vec::new()), 0),
        Err(Error::InternalError("Unexpected reply from the backend".to_string()))
    );
}

#[test]
fn unexpected_replies_are_refused() {
    let unexpected = Err(Error::InternalError("Unexpected reply from the backend".to_string()));
    let batch = batch(vec![Operation::AccountId { account_id: 1 }, put(7, b"v")]);
    let mut writer = KvWriter::new(4);
    assert_eq!(writer.apply_seeded(&batch, Reply::Value(None), 0), unexpected);
    assert_eq!(writer.position(), 0);
    assert_eq!(writer.context(), Context::new());
    writer.apply_seeded(&batch, Reply::Nothing, 0).unwrap();
    assert_eq!(writer.apply_seeded(&batch, Reply::Keys(Vec::new()), 0), unexpected);
    writer.apply_seeded(&batch, Reply::Nothing, 0).unwrap();
    assert_eq!(writer.request(&batch), Request::Commit);
    assert_eq!(writer.apply_seeded(&batch, Reply::Nothing, 0), unexpected);
}

#[test]
fn retried_batch_yields_the_same_state() {
    let mut ops = about(1, 2, 3);
    ops.push(put(7, b"abcdefghi"));
    ops.push(counter(b"hits", ValueOp::AtomicAdd(1)));
    ops.push(counter(b"next", ValueOp::AddAndGet(1)));
    let batch = batch(ops);

    let mut once = Store::new();
    let ids_once = attempt(&mut once, &batch, 4, 5).unwrap();

    let mut twice = Store::new();
    let mut conflicted = twice.clone();
    attempt(&mut conflicted, &batch, 4, 5).unwrap();
    let ids_twice = attempt(&mut twice, &batch, 4, 5).unwrap();
    assert_eq!(once, twice);
    assert_eq!(ids_once, ids_twice);
}

#[test]
fn delete_range_removes_the_keys_in_between() {
    let mut store = Store::new();
    let class = ValueClass::Property(0);
    let keys: Vec<ValueKey> = (1..=4)
        .map(|document_id| ValueKey { account_id: 1, collection: 2, document_id, class: &class })
        .collect();
    for key in &keys {
        store.insert(key.serialize(true), b"v".to_vec());
    }
    let mutation = delete_range(&keys[1], &keys[3]);
    assert_eq!(
        mutation,
        Mutation::ClearRange { begin: keys[1].serialize(true), end: keys[3].serialize(true) }
    );
    commit(&mut store, &[mutation]);
    assert_eq!(
        store.keys().cloned().collect::<Vec<_>>(),
        vec![keys[0].serialize(true), keys[3].serialize(true)]
    );
}

#[test]
fn default_value_size() {
    assert_eq!(MAX_VALUE_SIZE, 100000);
    let mut writer = KvWriter::new(MAX_VALUE_SIZE);
    let batch = batch(vec![put(7, &vec![0u8; 250_000])]);
    let mutations = writer.apply_seeded(&batch, Reply::Nothing, 0).unwrap();
    let sizes: Vec<usize> = mutations
        .iter()
        .map(|mutation| match mutation {
            Mutation::Put { value, .. } => value.len(),
            other => panic!("not a put: {:?}", other),
        })
        .collect();
    assert_eq!(sizes, vec![100_000, 100_000, 50_000]);
}
