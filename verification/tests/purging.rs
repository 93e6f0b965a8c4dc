use store::key::{SUBSPACE_COUNTER, SUBSPACE_QUOTA};
use store::kv::Request;
use store::mutation::{Mutation, Record};
use store::purge::{
    all_zero, collect_zero_keys, purge_batches, purge_scan, purge_scans, purge_statements,
    PURGE_BATCH,
};
use store::sql::{Statement, StatementKind};

fn record(key: &[u8], value: i64) -> Record {
    Record { key: key.to_vec(), value: value.to_le_bytes().to_vec() }
}

#[test]
fn purge_scans_counters_then_quotas() {
    assert_eq!(
        purge_scans(),
        vec![
            Request::GetRange {
                begin: vec![b'n', 0],
                end: vec![b'n', 0xFF, 0xFF, 0xFF, 0xFF, 0xFF],
                snapshot: true
            },
            Request::GetRange {
                begin: vec![b'u', 0],
                end: vec![b'u', 0xFF, 0xFF, 0xFF, 0xFF, 0xFF],
                snapshot: true
            },
        ]
    );
    assert_eq!(purge_scan(SUBSPACE_COUNTER), purge_scans()[0]);
    assert_eq!(purge_scan(SUBSPACE_QUOTA), purge_scans()[1]);
}

#[test]
fn zero_is_every_byte_zero() {
    assert!(all_zero(&[0; 8]));
    assert!(all_zero(&[]));
    assert!(!all_zero(&[0, 0, 0, 0, 0, 0, 0, 1]));
    assert!(!all_zero(&3i64.to_le_bytes()));
}

#[test]
fn purge_only_zeros() {
    let records = vec![record(b"nA", 0), record(b"nB", 3), record(b"nC", 0)];
    let mut keys = vec![b"uQ".to_vec()];
    collect_zero_keys(&records, &mut keys);
    assert_eq!(keys, vec![b"uQ".to_vec(), b"nA".to_vec(), b"nC".to_vec()]);

    let mut keys = Vec::new();
    collect_zero_keys(&records, &mut keys);
    let batches = purge_batches(&keys);
    assert_eq!(
        batches,
        vec![vec![
            Mutation::CompareAndClear { key: b"nA".to_vec(), expected: 0 },
            Mutation::CompareAndClear { key: b"nC".to_vec(), expected: 0 },
        ]]
    );

    let mut store: std::collections::BTreeMap<Vec<u8>, Vec<u8>> =
        records.iter().map(|r| (r.key.clone(), r.value.clone())).collect();
    store.insert(b"nA".to_vec(), 1i64.to_le_bytes().to_vec());
    for mutation in &batches[0] {
        if let Mutation::CompareAndClear { key, expected } = mutation {
            if store.get(key) == Some(&expected.to_le_bytes().to_vec()) {
                store.remove(key);
            }
        }
    }
    assert_eq!(
        store.into_iter().collect::<Vec<_>>(),
        vec![
            (b"nA".to_vec(), 1i64.to_le_bytes().to_vec()),
            (b"nB".to_vec(), 3i64.to_le_bytes().to_vec()),
        ]
    );
}

#[test]
fn nothing_to_purge() {
    let mut keys = Vec::new();
    collect_zero_keys(&vec![record(b"nB", 3)], &mut keys);
    assert!(keys.is_empty());
    assert_eq!(purge_batches(&keys), Vec::<Vec<Mutation>>::new());
}

#[test]
fn purge_deletes_in_batches() {
    assert_eq!(PURGE_BATCH, 1024);
    let keys: Vec<Vec<u8>> = (0..2500u32).map(|n| n.to_be_bytes().to_vec()).collect();
    let batches = purge_batches(&keys);
    assert_eq!(batches.iter().map(|batch| batch.len()).collect::<Vec<_>>(), vec![1024, 1024, 452]);
    let flat: Vec<Mutation> = batches.into_iter().flatten().collect();
    let expected: Vec<Mutation> = keys
        .iter()
        .map(|key| Mutation::CompareAndClear { key: key.clone(), expected: 0 })
        .collect();
    assert_eq!(flat, expected);
    let exact: Vec<Vec<u8>> = keys[..2048].to_vec();
    assert_eq!(purge_batches(&exact).len(), 2);
}

#[test]
fn purge_statements_delete_zero_rows() {
    let statements = purge_statements();
    assert_eq!(
        statements,
        vec![
            Statement { kind: StatementKind::DeleteZero, table: b'u', params: Vec::new() },
            Statement { kind: StatementKind::DeleteZero, table: b'n', params: Vec::new() },
        ]
    );
    assert_eq!(statements[0].sql(), "DELETE FROM u WHERE v = 0");
    assert_eq!(statements[1].sql(), "DELETE FROM n WHERE v = 0");
}
