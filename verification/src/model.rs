//! The ordered key-value store as a mathematical object: what its keys are,
//! how they are ordered, what a mutation does to it and what a read finds in
//! it.  Nothing here runs; the laws of the engine are stated over it.

use crate::batch::{AssignedIdsView, Operation};
use crate::bytes::{le_i64, le_i64_value, wrapping_sum};
use crate::error::ErrorView;
use crate::kv::{kv_step, Progress, ReplyView, RequestView, WriterView};
use crate::mutation::{MutationView, RecordView};
use vstd::prelude::*;

verus! {

/// `a` and `b` agree before position `at`, where `a` ends or has the smaller
/// byte.
pub open spec fn precedes_at(a: Seq<u8>, b: Seq<u8>, at: int) -> bool {
    &&& 0 <= at <= a.len()
    &&& at < b.len()
    &&& forall|j: int| 0 <= j < at ==> a[j] == b[j]
    &&& at < a.len() ==> a[at] < b[at]
}

/// The order of keys: byte by byte, a key before its extensions.
pub open spec fn key_lt(a: Seq<u8>, b: Seq<u8>) -> bool {
    exists|at: int| precedes_at(a, b, at)
}

pub open spec fn key_le(a: Seq<u8>, b: Seq<u8>) -> bool {
    a == b || key_lt(a, b)
}

/// Whether `key` lies from `begin` up to, not including, `end`.
pub open spec fn in_range(key: Seq<u8>, begin: Seq<u8>, end: Seq<u8>) -> bool {
    key_le(begin, key) && key_lt(key, end)
}

/// No key is before itself, and of two keys at most one is before the other.
pub proof fn lemma_key_lt_asymmetric(a: Seq<u8>, b: Seq<u8>)
    requires
        key_lt(a, b),
    ensures
        a != b,
        !key_lt(b, a),
{
    let i = choose|at: int| precedes_at(a, b, at);
    if key_lt(b, a) {
        let j = choose|at: int| precedes_at(b, a, at);
        if i < j {
            assert(b[i] == a[i]);
        } else if j < i {
            assert(a[j] == b[j]);
        }
    }
}

/// A key is before each of its extensions by one byte, and these are ordered
/// by that byte.
pub proof fn lemma_extension_order(key: Seq<u8>, x: u8, y: u8)
    ensures
        key_lt(key, key.push(x)),
        x < y ==> key_lt(key.push(x), key.push(y)),
{
    assert(precedes_at(key, key.push(x), key.len() as int));
    if x < y {
        assert(precedes_at(key.push(x), key.push(y), key.len() as int));
    }
}

/// The store: the keys that exist, each with its value.
pub type Store = Map<Seq<u8>, Seq<u8>>;

/// What a point read finds.
pub open spec fn get(store: Store, key: Seq<u8>) -> Option<Seq<u8>> {
    if store.dom().contains(key) {
        Some(store[key])
    } else {
        None
    }
}

/// The first eight bytes of a value, with zeros where it is shorter: what
/// the store's addition takes the value for.
pub open spec fn counter_bytes(value: Seq<u8>) -> Seq<u8> {
    Seq::new(
        8,
        |i: int|
            if i < value.len() {
                value[i]
            } else {
                0u8
            },
    )
}

/// The integer that the store's addition finds under a key.
pub open spec fn counter_of(store: Store, key: Seq<u8>) -> i64 {
    match get(store, key) {
        Some(value) => le_i64_value(counter_bytes(value)),
        None => 0,
    }
}

/// The store after a mutation.  Declaring a range read changes nothing.
pub open spec fn apply(store: Store, mutation: MutationView) -> Store {
    match mutation {
        MutationView::Put { key, value } => store.insert(key, value),
        MutationView::Clear { key } => store.remove(key),
        MutationView::ClearRange { begin, end } => Map::new(
            |k: Seq<u8>| store.dom().contains(k) && !in_range(k, begin, end),
            |k: Seq<u8>| store[k],
        ),
        MutationView::Add { key, delta } => store.insert(
            key,
            le_i64(wrapping_sum(counter_of(store, key), delta)),
        ),
        MutationView::CompareAndClear { key, expected } => if get(store, key) == Some(
            le_i64(expected),
        ) {
            store.remove(key)
        } else {
            store
        },
        MutationView::ReadConflictRange { begin, end } => store,
    }
}

/// The store after some mutations, made in order.
pub open spec fn apply_all(store: Store, mutations: Seq<MutationView>) -> Store
    decreases mutations.len(),
{
    if mutations.len() == 0 {
        store
    } else {
        apply(apply_all(store, mutations.drop_last()), mutations.last())
    }
}

/// Whether the keys of the records go up.
pub open spec fn ascending(records: Seq<RecordView>) -> bool {
    forall|i: int, j: int|
        0 <= i < j < records.len() ==> key_lt(
            (#[trigger] records[i]).key,
            (#[trigger] records[j]).key,
        )
}

/// Whether `records` is what a read of the range from `begin` to `end`
/// finds: the records of the store in that range, all of them, in the order
/// of their keys.
pub open spec fn is_scan(store: Store, begin: Seq<u8>, end: Seq<u8>, records: Seq<RecordView>)
    -> bool {
    &&& ascending(records)
    &&& forall|i: int|
        0 <= i < records.len() ==> {
            &&& in_range((#[trigger] records[i]).key, begin, end)
            &&& get(store, records[i].key) == Some(records[i].value)
        }
    &&& forall|key: Seq<u8>|
        #[trigger] store.dom().contains(key) && in_range(key, begin, end) ==> exists|i: int|
            0 <= i < records.len() && (#[trigger] records[i]).key == key
}

/// Whether `keys` holds every key of the store from `begin` up to, not
/// including, `end`.
pub open spec fn is_key_scan(store: Store, begin: Seq<u8>, end: Seq<u8>, keys: Seq<Seq<u8>>)
    -> bool {
    &&& forall|i: int|
        0 <= i < keys.len() ==> in_range(#[trigger] keys[i], begin, end) && store.dom().contains(
            keys[i],
        )
    &&& forall|key: Seq<u8>|
        #[trigger] store.dom().contains(key) && in_range(key, begin, end) ==> exists|i: int|
            0 <= i < keys.len() && #[trigger] keys[i] == key
}

/// Whether `reply` is what the store answers to `request`.
pub open spec fn answers(store: Store, request: RequestView, reply: ReplyView) -> bool {
    match request {
        RequestView::Nothing => reply is Nothing,
        RequestView::Get { key } => reply == ReplyView::Value(get(store, key)),
        RequestView::GetRange { begin, end, snapshot } => reply matches ReplyView::Records(records)
            && is_scan(store, begin, end, records),
        RequestView::GetKeys { begin, end } => reply matches ReplyView::Keys(keys) && is_key_scan(
            store,
            begin,
            end,
            keys,
        ),
        RequestView::Commit => reply is Nothing,
    }
}

/// What the first `n` operations of a batch do, from the state `start`: the
/// state after them and their mutations, in order, or the error of the first
/// operation that fails.  `replies` and `seeds` give, for each operation, what
/// the store answered and the random number at hand.
pub open spec fn kv_run(
    start: WriterView,
    ops: Seq<Operation>,
    change_id: u64,
    replies: Seq<ReplyView>,
    seeds: Seq<u64>,
    n: nat,
) -> Result<Progress, ErrorView>
    decreases n,
{
    if n == 0 {
        Ok(Progress { state: start, mutations: Seq::empty() })
    } else {
        match kv_run(start, ops, change_id, replies, seeds, (n - 1) as nat) {
            Err(error) => Err(error),
            Ok(before) => match kv_step(
                before.state,
                ops[n - 1],
                change_id,
                replies[n - 1],
                seeds[n - 1],
            ) {
                Err(error) => Err(error),
                Ok(step) => Ok(
                    Progress {
                        state: step.state,
                        mutations: before.mutations + step.mutations,
                    },
                ),
            },
        }
    }
}

/// One attempt at a batch: what the store answered to each operation, the
/// random numbers, and whether the commit met a conflict.
pub struct Attempt {
    pub replies: Seq<ReplyView>,
    pub seeds: Seq<u64>,
    pub conflict: bool,
}

/// What an attempt at a whole batch does, from the start.
pub open spec fn kv_attempt(
    max_value_size: nat,
    ops: Seq<Operation>,
    change_id: u64,
    attempt: Attempt,
) -> Result<Progress, ErrorView> {
    kv_run(
        WriterView::start(max_value_size),
        ops,
        change_id,
        attempt.replies,
        attempt.seeds,
        ops.len(),
    )
}

/// The store after an attempt that was committed, if it got that far: an
/// attempt that fails changes nothing.
pub open spec fn committed(store: Store, outcome: Result<Progress, ErrorView>) -> Store {
    match outcome {
        Ok(progress) => apply_all(store, progress.mutations),
        Err(_) => store,
    }
}

/// How a write ended: the store after it, and what the caller got, if the
/// attempts sufficed to tell.
pub struct Written {
    pub store: Store,
    pub result: Option<Result<AssignedIdsView, ErrorView>>,
}

/// A write, as a sequence of attempts.  An attempt that fails ends the write
/// with its error.  An attempt whose commit meets a conflict leaves the store
/// as it was, and the next attempt starts from the beginning.  The first
/// attempt that commits ends the write.
pub open spec fn written(
    store: Store,
    max_value_size: nat,
    ops: Seq<Operation>,
    change_id: u64,
    attempts: Seq<Attempt>,
) -> Written
    decreases attempts.len(),
{
    if attempts.len() == 0 {
        Written { store, result: None }
    } else {
        match kv_attempt(max_value_size, ops, change_id, attempts[0]) {
            Err(error) => Written { store, result: Some(Err(error)) },
            Ok(progress) => if attempts[0].conflict {
                written(store, max_value_size, ops, change_id, attempts.skip(1))
            } else {
                Written {
                    store: apply_all(store, progress.mutations),
                    result: Some(Ok(progress.state.assigned)),
                }
            },
        }
    }
}

/// Two reads of the same records give the same: records in the order of
/// their keys are determined by their keys and values.
pub proof fn lemma_ascending_unique(a: Seq<RecordView>, b: Seq<RecordView>)
    requires
        ascending(a),
        ascending(b),
        forall|i: int| 0 <= i < a.len() ==> b.contains(#[trigger] a[i]),
        forall|j: int| 0 <= j < b.len() ==> a.contains(#[trigger] b[j]),
    ensures
        a == b,
    decreases a.len(),
{
    if a.len() == 0 {
        if b.len() > 0 {
            assert(a.contains(b[0]));
        }
        assert(a =~= b);
    } else {
        assert(b.contains(a[0]));
        let j = choose|j: int| 0 <= j < b.len() && b[j] == a[0];
        assert(a.contains(b[0]));
        let i = choose|i: int| 0 <= i < a.len() && a[i] == b[0];
        if j > 0 {
            assert(key_lt(b[0].key, b[j].key));
            if i > 0 {
                assert(key_lt(a[0].key, a[i].key));
            }
            lemma_key_lt_asymmetric(b[0].key, a[0].key);
        }
        assert(a[0] == b[0]);
        let ta = a.skip(1);
        let tb = b.skip(1);
        assert forall|i: int| 0 <= i < ta.len() implies tb.contains(#[trigger] ta[i]) by {
            assert(b.contains(a[i + 1]));
            let j = choose|j: int| 0 <= j < b.len() && b[j] == a[i + 1];
            assert(key_lt(a[0].key, a[i + 1].key));
            lemma_key_lt_asymmetric(a[0].key, a[i + 1].key);
            assert(j > 0);
            assert(tb[j - 1] == ta[i]);
        }
        assert forall|j: int| 0 <= j < tb.len() implies ta.contains(#[trigger] tb[j]) by {
            assert(a.contains(b[j + 1]));
            let i = choose|i: int| 0 <= i < a.len() && a[i] == b[j + 1];
            assert(key_lt(b[0].key, b[j + 1].key));
            lemma_key_lt_asymmetric(b[0].key, b[j + 1].key);
            assert(i > 0);
            assert(ta[i - 1] == tb[j]);
        }
        assert(ascending(ta)) by {
            assert forall|i: int, j: int| 0 <= i < j < ta.len() implies key_lt(
                (#[trigger] ta[i]).key,
                (#[trigger] ta[j]).key,
            ) by {
                assert(key_lt(a[i + 1].key, a[j + 1].key));
            }
        }
        assert(ascending(tb)) by {
            assert forall|i: int, j: int| 0 <= i < j < tb.len() implies key_lt(
                (#[trigger] tb[i]).key,
                (#[trigger] tb[j]).key,
            ) by {
                assert(key_lt(b[i + 1].key, b[j + 1].key));
            }
        }
        lemma_ascending_unique(ta, tb);
        assert(a =~= seq![a[0]] + ta);
        assert(b =~= seq![b[0]] + tb);
    }
}

} // verus!
