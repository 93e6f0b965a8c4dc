use store::chunk::{chunk_value, reassemble};
use store::error::Error;
use store::mutation::{Mutation, Record};

fn records_of(mutations: &[Mutation]) -> Vec<Record> {
    mutations
        .iter()
        .map(|mutation| match mutation {
            Mutation::Put { key, value } => Record { key: key.clone(), value: value.clone() },
            other => panic!("not a put: {:?}", other),
        })
        .collect()
}

#[test]
fn chunked_value_is_split_under_extended_keys() {
    let mutations = chunk_value(b"K", b"abcdefghi", 4).unwrap();
    assert_eq!(
        mutations,
        vec![
            Mutation::Put { key: b"K".to_vec(), value: b"abcd".to_vec() },
            Mutation::Put { key: b"K\x00".to_vec(), value: b"efgh".to_vec() },
            Mutation::Put { key: b"K\x01".to_vec(), value: b"i".to_vec() },
        ]
    );
    assert_eq!(reassemble(&records_of(&mutations)), Some(b"abcdefghi".to_vec()));
}

#[test]
fn value_that_fits_is_one_record() {
    let mutations = chunk_value(b"K", b"abcd", 4).unwrap();
    assert_eq!(mutations, vec![Mutation::Put { key: b"K".to_vec(), value: b"abcd".to_vec() }]);
    let empty = chunk_value(b"K", b"", 4).unwrap();
    assert_eq!(empty, vec![Mutation::Put { key: b"K".to_vec(), value: Vec::new() }]);
}

#[test]
fn largest_value_has_256_chunks() {
    let value = vec![7u8; 512];
    let mutations = chunk_value(b"K", &value, 2).unwrap();
    assert_eq!(mutations.len(), 256);
    assert_eq!(
        mutations[255],
        Mutation::Put { key: b"K\xfe".to_vec(), value: vec![7u8, 7u8] }
    );
    assert_eq!(reassemble(&records_of(&mutations)), Some(value));
}

#[test]
fn value_of_more_than_256_chunks_is_refused() {
    let value = vec![7u8; 513];
    assert_eq!(
        chunk_value(b"K", &value, 2),
        Err(Error::InternalError("Value too large".to_string()))
    );
}

#[test]
fn nothing_read_is_no_value() {
    assert_eq!(reassemble(&Vec::new()), None);
}
