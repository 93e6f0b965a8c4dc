//! What holds of the engine whatever the batch and the store: the laws that
//! its callers rely on, proved from the definitions of the other modules.

use crate::allocator::{allocated, document_ids_of, lemma_allocated_is_free};
use crate::batch::{
    AssertValue, AssignedIdsView, BitmapClass, Context, Operation, Payload, ValueClass, ValueOp,
    NONE_U32,
};
use crate::bytes::{be32, le_i64, lemma_be32_round_trip, lemma_le_i64_round_trip, wrapping_sum};
use crate::chunk::{
    chunk_key, chunk_puts, chunk_range_end, chunk_records, chunk_values, fits, lemma_chunk_count,
    lemma_chunk_sizes, lemma_reassemble_chunks, reassembled, MAX_CHUNKS,
};
use crate::error::{ids_exhausted, invalid_counter, unassigned_id, value_too_large, ErrorView};
use crate::key::{document_key_len, lemma_document_key_shape};
use crate::kv::{
    add_and_get_step, allocates, asserted_value, bitmap_step, kv_bitmap_key, kv_request, kv_step,
    kv_value_key, Progress, ReplyView, WriterView,
};
use crate::model::{
    answers, apply, apply_all, ascending, committed, counter_bytes, counter_of, get, in_range,
    is_key_scan, is_scan, key_lt, kv_attempt, kv_run, lemma_ascending_unique,
    lemma_extension_order, lemma_key_lt_asymmetric, precedes_at, written, Attempt, Store,
};
use crate::mutation::{MutationView, RecordView};
use crate::purge::{purge_batch, purge_batch_count, purge_batch_len, PURGE_BATCH};
use vstd::prelude::*;

verus! {

/// Whether the range of the chunks of `key` holds nothing but the first
/// `count` chunks of `key`, as far as the store has them: no chunk that an
/// earlier, longer value left behind.
pub open spec fn only_chunks_in_range(store: Store, key: Seq<u8>, count: int) -> bool {
    forall|k: Seq<u8>|
        #[trigger] store.dom().contains(k) && in_range(k, key, chunk_range_end(key)) ==> exists|
            i: int,
        |
            0 <= i < count && k == chunk_key(key, i)
}

/// The keys of the chunks of a value are different, go up with the chunks,
/// and lie in the range of the key.
pub proof fn lemma_chunk_keys(key: Seq<u8>, i: int, j: int)
    requires
        0 <= i < j < MAX_CHUNKS,
    ensures
        key_lt(chunk_key(key, i), chunk_key(key, j)),
        chunk_key(key, i) != chunk_key(key, j),
        in_range(chunk_key(key, i), key, chunk_range_end(key)),
        in_range(chunk_key(key, j), key, chunk_range_end(key)),
{
    lemma_extension_order(key, (j - 1) as u8, 0xFF);
    if i > 0 {
        lemma_extension_order(key, (i - 1) as u8, (j - 1) as u8);
        lemma_extension_order(key, (i - 1) as u8, 0xFF);
    }
    lemma_key_lt_asymmetric(chunk_key(key, i), chunk_key(key, j));
}

/// A store after the chunks of a value were put: it holds each chunk under
/// its key, and besides them what it held before.
pub proof fn lemma_chunks_stored(store: Store, key: Seq<u8>, value: Seq<u8>, max: nat, done: int)
    requires
        max > 0,
        fits(value.len(), max),
        0 <= done <= chunk_values(value, max).len(),
    ensures
        ({
            let after = apply_all(store, chunk_puts(key, value, max).take(done));
            &&& forall|i: int|
                0 <= i < done ==> get(after, #[trigger] chunk_key(key, i)) == Some(
                    chunk_values(value, max)[i],
                )
            &&& forall|k: Seq<u8>|
                (forall|i: int| 0 <= i < done ==> k != chunk_key(key, i)) ==> #[trigger] get(
                    after,
                    k,
                ) == get(store, k)
        }),
    decreases done,
{
    let puts = chunk_puts(key, value, max);
    lemma_chunk_count(value, max, MAX_CHUNKS as nat);
    if done > 0 {
        lemma_chunks_stored(store, key, value, max, done - 1);
        assert(puts.take(done).drop_last() =~= puts.take(done - 1));
        assert(puts.take(done).last() == puts[done - 1]);
        let before = apply_all(store, puts.take(done - 1));
        let after = apply_all(store, puts.take(done));
        assert(after == before.insert(chunk_key(key, done - 1), chunk_values(value, max)[done - 1]));
        assert forall|i: int| 0 <= i < done implies get(after, #[trigger] chunk_key(key, i))
            == Some(chunk_values(value, max)[i]) by {
            if i < done - 1 {
                lemma_chunk_keys(key, i, done - 1);
            }
        }
        assert forall|k: Seq<u8>|
            (forall|i: int| 0 <= i < done ==> k != chunk_key(key, i)) implies #[trigger] get(
            after,
            k,
        ) == get(store, k) by {
            assert(k != chunk_key(key, done - 1));
            assert(get(before, k) == get(store, k));
        }
    } else {
        assert(puts.take(0).len() == 0);
    }
}

/// What was written is what is read: after the records of a value were put,
/// a read of the range of its key finds exactly these records, whose values,
/// one behind the other, are the value.  This holds where the range held no
/// chunk beyond those that the value overwrites.
pub proof fn law_chunks_read_back(
    store: Store,
    key: Seq<u8>,
    value: Seq<u8>,
    max: nat,
    records: Seq<RecordView>,
)
    requires
        max > 0,
        fits(value.len(), max),
        only_chunks_in_range(store, key, chunk_values(value, max).len() as int),
        is_scan(apply_all(store, chunk_puts(key, value, max)), key, chunk_range_end(key), records),
    ensures
        records == chunk_records(key, value, max),
        reassembled(records) == Some(value),
        value.len() <= max ==> records == seq![RecordView { key, value }],
{
    let puts = chunk_puts(key, value, max);
    let expected = chunk_records(key, value, max);
    let count = chunk_values(value, max).len() as int;
    let after = apply_all(store, puts);
    lemma_chunk_count(value, max, MAX_CHUNKS as nat);
    lemma_chunk_sizes(value, max);
    lemma_chunks_stored(store, key, value, max, count);
    assert(puts.take(count) =~= puts);
    assert(ascending(expected)) by {
        assert forall|i: int, j: int| 0 <= i < j < expected.len() implies key_lt(
            (#[trigger] expected[i]).key,
            (#[trigger] expected[j]).key,
        ) by {
            lemma_chunk_keys(key, i, j);
        }
    }
    assert forall|i: int| 0 <= i < records.len() implies expected.contains(
        #[trigger] records[i],
    ) by {
        let k = records[i].key;
        assert(after.dom().contains(k));
        if forall|j: int| 0 <= j < count ==> k != chunk_key(key, j) {
            assert(get(after, k) == get(store, k));
            assert(store.dom().contains(k));
        }
        let j = choose|j: int| 0 <= j < count && k == chunk_key(key, j);
        assert(get(after, chunk_key(key, j)) == Some(chunk_values(value, max)[j]));
        assert(expected[j] == records[i]);
    }
    assert forall|j: int| 0 <= j < expected.len() implies records.contains(
        #[trigger] expected[j],
    ) by {
        let k = chunk_key(key, j);
        assert(get(after, k) == Some(chunk_values(value, max)[j]));
        if j == 0 {
            if count > 1 {
                lemma_chunk_keys(key, 0, 1);
            } else {
                lemma_extension_order(key, 0xFF, 0xFF);
            }
        } else {
            lemma_chunk_keys(key, 0, j);
        }
        assert(after.dom().contains(k) && in_range(k, key, chunk_range_end(key)));
        let i = choose|i: int| 0 <= i < records.len() && (#[trigger] records[i]).key == k;
        assert(records[i] == expected[j]);
    }
    lemma_ascending_unique(records, expected);
    lemma_reassemble_chunks(key, value, max);
    if value.len() <= max {
        assert(expected =~= seq![RecordView { key, value }]);
    }
}

/// Deleting a value deletes all its chunks: after the range of the key was
/// cleared, a read of the range finds nothing, whatever the value was, and
/// the keys outside the range are as they were.
pub proof fn law_clear_removes_chunks(store: Store, key: Seq<u8>, records: Seq<RecordView>)
    requires
        is_scan(
            apply(store, MutationView::ClearRange { begin: key, end: chunk_range_end(key) }),
            key,
            chunk_range_end(key),
            records,
        ),
    ensures
        reassembled(records) is None,
        forall|index: int|
            0 <= index < MAX_CHUNKS ==> get(
                apply(store, MutationView::ClearRange { begin: key, end: chunk_range_end(key) }),
                #[trigger] chunk_key(key, index),
            ) is None,
        forall|k: Seq<u8>|
            !in_range(k, key, chunk_range_end(key)) ==> #[trigger] get(
                apply(store, MutationView::ClearRange { begin: key, end: chunk_range_end(key) }),
                k,
            ) == get(store, k),
{
    let after = apply(store, MutationView::ClearRange { begin: key, end: chunk_range_end(key) });
    if records.len() > 0 {
        assert(in_range(records[0].key, key, chunk_range_end(key)));
        assert(get(after, records[0].key) == Some(records[0].value));
    }
    assert forall|index: int| 0 <= index < MAX_CHUNKS implies get(
        after,
        #[trigger] chunk_key(key, index),
    ) is None by {
        if index == 0 {
            lemma_chunk_keys(key, 0, 1);
        } else {
            lemma_chunk_keys(key, 0, index);
        }
    }
}

/// The store after one mutation.
pub proof fn lemma_apply_one(store: Store, mutation: MutationView)
    ensures
        apply_all(store, seq![mutation]) == apply(store, mutation),
{
    let one = seq![mutation];
    assert(one.drop_last().len() == 0);
    assert(apply_all(store, one.drop_last()) == store);
    assert(one.last() == mutation);
}

/// A value that was stored is the value that a later assertion reads: after
/// the mutations of a `Put` were made, the answer to the read of an
/// `AssertValue` of the same class carries the payload that was written.  A
/// value of at most `max_value_size` bytes is one record.  For a chunked
/// value this holds where the range of the key held no chunk beyond those
/// that the value overwrites.
pub proof fn law_write_then_read(
    state: WriterView,
    class: ValueClass,
    payload: Payload,
    expected: AssertValue,
    change_id: u64,
    seed: u64,
    store: Store,
    reply: ReplyView,
)
    requires
        state.max_value_size > 0,
        kv_step(
            state,
            Operation::Value { class, op: ValueOp::Put(payload) },
            change_id,
            ReplyView::Nothing,
            seed,
        ) is Ok,
        ({
            let progress = kv_step(
                state,
                Operation::Value { class, op: ValueOp::Put(payload) },
                change_id,
                ReplyView::Nothing,
                seed,
            )->Ok_0;
            &&& !class.is_counter_spec() ==> only_chunks_in_range(
                store,
                kv_value_key(class, state.context),
                progress.mutations.len() as int,
            )
            &&& answers(
                apply_all(store, progress.mutations),
                kv_request(state, Operation::AssertValue { class, assert_value: expected }),
                reply,
            )
        }),
    ensures
        asserted_value(reply) == Some(payload.resolved(state.assigned)),
        payload.resolved(state.assigned) matches Some(value) && (value.len()
            <= state.max_value_size ==> kv_step(
            state,
            Operation::Value { class, op: ValueOp::Put(payload) },
            change_id,
            ReplyView::Nothing,
            seed,
        )->Ok_0.mutations == seq![
            MutationView::Put { key: kv_value_key(class, state.context), value },
        ]),
{
    let key = kv_value_key(class, state.context);
    let value = payload.resolved(state.assigned)->0;
    let max = state.max_value_size;
    if class.is_counter_spec() {
        lemma_apply_one(store, MutationView::Put { key, value });
    } else {
        let records = reply->Records_0;
        assert(chunk_puts(key, value, max).len() == chunk_values(value, max).len());
        law_chunks_read_back(store, key, value, max, records);
        if value.len() <= max {
            assert(chunk_puts(key, value, max) =~= seq![MutationView::Put { key, value }]);
        }
    }
}

/// A value that was deleted is gone with all its chunks: after the mutations
/// of a `Clear` were made, the read of an `AssertValue` of the same class
/// finds nothing.
pub proof fn law_clear_then_read(
    state: WriterView,
    class: ValueClass,
    expected: AssertValue,
    change_id: u64,
    seed: u64,
    store: Store,
    reply: ReplyView,
)
    requires
        answers(
            apply_all(
                store,
                kv_step(
                    state,
                    Operation::Value { class, op: ValueOp::Clear },
                    change_id,
                    ReplyView::Nothing,
                    seed,
                )->Ok_0.mutations,
            ),
            kv_request(state, Operation::AssertValue { class, assert_value: expected }),
            reply,
        ),
    ensures
        kv_step(
            state,
            Operation::Value { class, op: ValueOp::Clear },
            change_id,
            ReplyView::Nothing,
            seed,
        ) is Ok,
        asserted_value(reply) == Some(None::<Seq<u8>>),
{
    let key = kv_value_key(class, state.context);
    if class.is_counter_spec() {
        lemma_apply_one(store, MutationView::Clear { key });
    } else {
        let clear = MutationView::ClearRange { begin: key, end: chunk_range_end(key) };
        lemma_apply_one(store, clear);
        law_clear_removes_chunks(store, key, reply->Records_0);
    }
}

/// A value of more than [`MAX_CHUNKS`] chunks is refused, and the operation
/// makes no mutation.
pub proof fn law_oversized_value_refused(
    state: WriterView,
    class: ValueClass,
    payload: Payload,
    change_id: u64,
    seed: u64,
)
    requires
        !class.is_counter_spec(),
        payload.resolved(state.assigned) matches Some(value) && value.len() > MAX_CHUNKS
            * state.max_value_size,
    ensures
        kv_step(
            state,
            Operation::Value { class, op: ValueOp::Put(payload) },
            change_id,
            ReplyView::Nothing,
            seed,
        ) == Err::<Progress, ErrorView>(value_too_large()),
{
}

/// Once an operation has failed, the attempt has failed: the operations
/// after it are not done.
pub proof fn lemma_failure_is_final(
    start: WriterView,
    ops: Seq<Operation>,
    change_id: u64,
    replies: Seq<ReplyView>,
    seeds: Seq<u64>,
    failed: nat,
    n: nat,
)
    requires
        kv_run(start, ops, change_id, replies, seeds, failed) is Err,
        failed <= n,
    ensures
        kv_run(start, ops, change_id, replies, seeds, n) == kv_run(
            start,
            ops,
            change_id,
            replies,
            seeds,
            failed,
        ),
    decreases n - failed,
{
    if failed < n {
        lemma_failure_is_final(start, ops, change_id, replies, seeds, failed, (n - 1) as nat);
    }
}

/// An attempt in which an operation fails leaves no record: whatever the
/// operations before it did, nothing of the batch is committed.  So a value
/// that is too large leaves no chunk behind, and a batch whose assertion does
/// not hold writes nothing.
pub proof fn law_failed_attempt_writes_nothing(
    store: Store,
    max_value_size: nat,
    ops: Seq<Operation>,
    change_id: u64,
    attempt: Attempt,
    at: nat,
)
    requires
        at < ops.len(),
        kv_run(
            WriterView::start(max_value_size),
            ops,
            change_id,
            attempt.replies,
            attempt.seeds,
            at,
        ) matches Ok(before) && kv_step(
            before.state,
            ops[at as int],
            change_id,
            attempt.replies[at as int],
            attempt.seeds[at as int],
        ) is Err,
    ensures
        kv_attempt(max_value_size, ops, change_id, attempt) is Err,
        committed(store, kv_attempt(max_value_size, ops, change_id, attempt)) == store,
        written(store, max_value_size, ops, change_id, seq![attempt]).store == store,
{
    let start = WriterView::start(max_value_size);
    assert(kv_run(start, ops, change_id, attempt.replies, attempt.seeds, at + 1) is Err);
    lemma_failure_is_final(
        start,
        ops,
        change_id,
        attempt.replies,
        attempt.seeds,
        at + 1,
        ops.len(),
    );
    assert(seq![attempt][0] == attempt);
}

/// An assertion that does not hold of what the store has ends the attempt
/// with `AssertValueFailed`, and nothing that the batch writes persists,
/// neither before nor after the assertion.
pub proof fn law_stale_assertion_writes_nothing(
    store: Store,
    max_value_size: nat,
    ops: Seq<Operation>,
    change_id: u64,
    attempt: Attempt,
    at: nat,
)
    requires
        at < ops.len(),
        ops[at as int] matches Operation::AssertValue { class, assert_value } && (asserted_value(
            attempt.replies[at as int],
        ) matches Some(found) && !assert_value.holds(found) && (class.is_counter_spec()
            <==> attempt.replies[at as int] is Value)),
    ensures
        kv_attempt(max_value_size, ops, change_id, attempt) is Err,
        kv_run(
            WriterView::start(max_value_size),
            ops,
            change_id,
            attempt.replies,
            attempt.seeds,
            at,
        ) is Ok ==> kv_attempt(max_value_size, ops, change_id, attempt) == Err::<
            Progress,
            ErrorView,
        >(ErrorView::AssertValueFailed),
        committed(store, kv_attempt(max_value_size, ops, change_id, attempt)) == store,
        written(store, max_value_size, ops, change_id, seq![attempt]).store == store,
{
    let start = WriterView::start(max_value_size);
    let before = kv_run(start, ops, change_id, attempt.replies, attempt.seeds, at);
    assert(seq![attempt][0] == attempt);
    if before is Ok {
        law_failed_attempt_writes_nothing(store, max_value_size, ops, change_id, attempt, at);
        lemma_failure_is_final(
            start,
            ops,
            change_id,
            attempt.replies,
            attempt.seeds,
            at + 1,
            ops.len(),
        );
    } else {
        lemma_failure_is_final(
            start,
            ops,
            change_id,
            attempt.replies,
            attempt.seeds,
            at,
            ops.len(),
        );
    }
}

/// An attempt whose commit met a conflict is as if it had not been made: the
/// write ends as it would have ended without that attempt, with the same
/// store and the same result.
pub proof fn law_retry_is_invisible(
    store: Store,
    max_value_size: nat,
    ops: Seq<Operation>,
    change_id: u64,
    failed: Attempt,
    rest: Seq<Attempt>,
)
    requires
        kv_attempt(max_value_size, ops, change_id, failed) is Ok,
        failed.conflict,
    ensures
        written(store, max_value_size, ops, change_id, seq![failed] + rest) == written(
            store,
            max_value_size,
            ops,
            change_id,
            rest,
        ),
{
    let attempts = seq![failed] + rest;
    assert(attempts[0] == failed);
    assert(attempts.skip(1) =~= rest);
}

/// The counter that a store holds after the image of a number was put.
pub proof fn lemma_counter_stored(store: Store, key: Seq<u8>, n: i64)
    ensures
        counter_of(store.insert(key, le_i64(n)), key) == n,
{
    lemma_le_i64_round_trip(n);
    assert(counter_bytes(le_i64(n)) =~= le_i64(n));
}

/// The same mutation, `n` times.
pub open spec fn repeated(mutation: MutationView, n: nat) -> Seq<MutationView> {
    Seq::new(n, |i: int| mutation)
}

/// Counters converge: each `AtomicAdd(1)` is one addition on the side of the
/// store, and `n` of them, committed in whatever order, raise the counter by
/// exactly `n`.  A counter that did not exist ends at `n`.
pub proof fn law_atomic_adds_converge(
    state: WriterView,
    class: ValueClass,
    change_id: u64,
    seed: u64,
    store: Store,
    n: nat,
)
    requires
        counter_of(store, kv_value_key(class, state.context)) + n <= i64::MAX,
    ensures
        kv_step(
            state,
            Operation::Value { class, op: ValueOp::AtomicAdd(1) },
            change_id,
            ReplyView::Nothing,
            seed,
        ) == Ok::<Progress, ErrorView>(
            Progress {
                state: state.advanced(),
                mutations: seq![
                    MutationView::Add { key: kv_value_key(class, state.context), delta: 1 },
                ],
            },
        ),
        counter_of(
            apply_all(
                store,
                repeated(
                    MutationView::Add { key: kv_value_key(class, state.context), delta: 1 },
                    n,
                ),
            ),
            kv_value_key(class, state.context),
        ) == counter_of(store, kv_value_key(class, state.context)) + n,
    decreases n,
{
    let key = kv_value_key(class, state.context);
    let add = MutationView::Add { key, delta: 1 };
    if n > 0 {
        law_atomic_adds_converge(state, class, change_id, seed, store, (n - 1) as nat);
        assert(repeated(add, n).drop_last() =~= repeated(add, (n - 1) as nat));
        let before = apply_all(store, repeated(add, (n - 1) as nat));
        lemma_counter_stored(before, key, wrapping_sum(counter_of(before, key), 1));
    } else {
        assert(repeated(add, 0).len() == 0);
    }
}

/// The store after `n` transactions that each add `by` to a counter and get
/// its new value, one after the other.
pub open spec fn add_and_get_store(
    store: Store,
    state: WriterView,
    class: ValueClass,
    by: i64,
    n: nat,
) -> Store
    decreases n,
{
    if n == 0 {
        store
    } else {
        let before = add_and_get_store(store, state, class, by, (n - 1) as nat);
        committed(
            before,
            add_and_get_step(
                state,
                class,
                by,
                ReplyView::Value(get(before, kv_value_key(class, state.context))),
            ),
        )
    }
}

/// The value that the transaction number `n`, counted from one, gets.
pub open spec fn add_and_get_result(
    store: Store,
    state: WriterView,
    class: ValueClass,
    by: i64,
    n: nat,
) -> Option<i64> {
    let before = add_and_get_store(store, state, class, by, (n - 1) as nat);
    match add_and_get_step(
        state,
        class,
        by,
        ReplyView::Value(get(before, kv_value_key(class, state.context))),
    ) {
        Ok(progress) => Some(progress.state.assigned.counter_ids.last()),
        Err(_) => None,
    }
}

/// The values that `AddAndGet(1)` returns follow the order of the commits
/// without a gap: from a counter that does not exist, the transaction number
/// `n` gets `n`, and the counter then holds `n`.
pub proof fn law_add_and_get_is_contiguous(
    store: Store,
    state: WriterView,
    class: ValueClass,
    n: nat,
)
    requires
        get(store, kv_value_key(class, state.context)) is None,
        n <= i64::MAX,
    ensures
        n > 0 ==> add_and_get_result(store, state, class, 1, n) == Some(n as i64),
        n > 0 ==> get(
            add_and_get_store(store, state, class, 1, n),
            kv_value_key(class, state.context),
        ) == Some(le_i64(n as i64)),
        n == 0 ==> add_and_get_store(store, state, class, 1, n) == store,
    decreases n,
{
    let key = kv_value_key(class, state.context);
    if n > 0 {
        law_add_and_get_is_contiguous(store, state, class, (n - 1) as nat);
        let before = add_and_get_store(store, state, class, 1, (n - 1) as nat);
        lemma_le_i64_round_trip((n - 1) as i64);
        let sum = n as i64;
        lemma_apply_one(before, MutationView::Put { key, value: le_i64(sum) });
    }
}

/// Big-endian images are ordered as the numbers are: behind the same bytes,
/// the image of the smaller number comes first.
pub proof fn lemma_be32_order(prefix: Seq<u8>, a: u32, b: u32)
    requires
        a < b,
    ensures
        key_lt(prefix + be32(a), prefix + be32(b)),
{
    let x = prefix + be32(a);
    let y = prefix + be32(b);
    let n = prefix.len() as int;
    lemma_be32_round_trip(a);
    lemma_be32_round_trip(b);
    assert(x.len() == n + 4 && y.len() == n + 4);
    assert(forall|j: int| 0 <= j < n ==> x[j] == y[j]);
    assert(forall|j: int| 0 <= j < 4 ==> x[n + j] == be32(a)[j] && y[n + j] == be32(b)[j]);
    let a1 = a / 0x100;
    let a2 = a1 / 0x100;
    let a3 = a2 / 0x100;
    let b1 = b / 0x100;
    let b2 = b1 / 0x100;
    let b3 = b2 / 0x100;
    assert(a1 <= b1 && a2 <= b2 && a3 <= b3);
    if a3 != b3 {
        assert(precedes_at(x, y, n));
    } else if a2 != b2 {
        assert(be32(a)[1] < be32(b)[1]);
        assert(precedes_at(x, y, n + 1));
    } else if a1 != b1 {
        assert(be32(a)[2] < be32(b)[2]);
        assert(precedes_at(x, y, n + 2));
    } else {
        assert(be32(a)[3] < be32(b)[3]);
        assert(precedes_at(x, y, n + 3));
    }
}

/// The key of a document's membership in the collection of the context.
pub open spec fn document_key(context: Context, id: u32) -> Seq<u8> {
    kv_bitmap_key(BitmapClass::DocumentIds, context, id)
}

/// The keys of the documents of a collection are ordered as their
/// identifiers are.
pub proof fn lemma_document_keys_ordered(context: Context, a: u32, b: u32)
    requires
        a < b,
    ensures
        key_lt(document_key(context, a), document_key(context, b)),
{
    let prefix = seq![crate::key::SUBSPACE_BITMAPS] + (be32(context.account_id).push(
        context.collection,
    ) + seq![0u8]);
    lemma_be32_order(prefix, a, b);
    assert(document_key(context, a) =~= prefix + be32(a));
    assert(document_key(context, b) =~= prefix + be32(b));
}

/// The key of a document lies in the range of the documents of its
/// collection, and in the range from itself to the key of the next document.
pub proof fn lemma_document_key_in_range(context: Context, id: u32)
    requires
        id < NONE_U32,
    ensures
        in_range(
            document_key(context, id),
            document_key(context, 0),
            document_key(context, NONE_U32),
        ),
        in_range(
            document_key(context, id),
            document_key(context, id),
            document_key(context, (id + 1) as u32),
        ),
{
    lemma_document_keys_ordered(context, id, (id + 1) as u32);
    lemma_document_keys_ordered(context, id, NONE_U32);
    if id > 0 {
        lemma_document_keys_ordered(context, 0, id);
    }
}

/// A document whose key a scan has found is among the documents that the
/// scan is read for.
pub proof fn lemma_found_key_is_taken(context: Context, keys: Seq<Seq<u8>>, id: u32, at: int)
    requires
        0 <= at < keys.len(),
        keys[at] == document_key(context, id),
    ensures
        document_ids_of(keys, document_key_len(true) as int).contains(id),
{
    lemma_document_key_shape(context.account_id, context.collection, id, true);
    lemma_be32_round_trip(id);
}

/// The store after the mutations of an allocation holds the key of the new
/// document.
proof fn lemma_allocation_stored(store: Store, key: Seq<u8>, next: Seq<u8>)
    ensures
        get(
            apply_all(
                store,
                seq![
                    MutationView::ReadConflictRange { begin: key, end: next },
                    MutationView::Put { key, value: Seq::empty() },
                ],
            ),
            key,
        ) is Some,
{
    let conflict = MutationView::ReadConflictRange { begin: key, end: next };
    let put = MutationView::Put { key, value: Seq::empty() };
    let both = seq![conflict, put];
    assert(both.drop_last() =~= seq![conflict]);
    assert(both.last() == put);
    lemma_apply_one(store, conflict);
}

/// Allocation gives a fresh document: where the writer allocates and the
/// store answers with the documents it has, the identifier that the batch is
/// given is below the sentinel, is taken by no document of the store, becomes
/// the current document and the last of the assigned ones, and is taken once
/// the mutations are made.  The range that the transaction declares read
/// holds the key of the new document, so that a transaction that writes the
/// same key at the same time conflicts with this one.  Allocation fails only
/// where every identifier is taken.
pub proof fn law_allocation_is_fresh(
    state: WriterView,
    class: BitmapClass,
    set: bool,
    change_id: u64,
    seed: u64,
    store: Store,
    reply: ReplyView,
)
    requires
        allocates(state.context, class, set),
        answers(store, kv_request(state, Operation::Bitmap { class, set }), reply),
    ensures
        match kv_step(state, Operation::Bitmap { class, set }, change_id, reply, seed) {
            Ok(progress) => {
                let id = progress.state.context.document_id;
                &&& id < NONE_U32
                &&& progress.state.assigned == state.assigned.with_document_id(id)
                &&& get(store, document_key(state.context, id)) is None
                &&& get(apply_all(store, progress.mutations), document_key(state.context, id))
                    is Some
                &&& progress.mutations[0] matches MutationView::ReadConflictRange { begin, end }
                    && in_range(document_key(state.context, id), begin, end)
            },
            Err(error) => {
                &&& error == ids_exhausted()
                &&& forall|id: u32|
                    id < NONE_U32 ==> document_ids_of(
                        reply->Keys_0,
                        document_key_len(true) as int,
                    ).contains(id)
            },
        },
{
    let context = state.context;
    let keys = reply->Keys_0;
    let ids = document_ids_of(keys, document_key_len(true) as int);
    let step = bitmap_step(state, class, set, reply, seed);
    assert(kv_step(state, Operation::Bitmap { class, set }, change_id, reply, seed) == step);
    assert(reply is Keys);
    lemma_allocated_is_free(ids, seed);
    match allocated(ids, seed) {
        Some(id) => {
            let key = document_key(context, id);
            let next = document_key(context, (id + 1) as u32);
            assert(class == BitmapClass::DocumentIds);
            assert(step is Ok);
            let progress = step->Ok_0;
            assert(progress.mutations == seq![
                MutationView::ReadConflictRange { begin: key, end: next },
                MutationView::Put { key, value: Seq::empty() },
            ]);
            lemma_document_key_in_range(context, id);
            assert(get(store, key) is None) by {
                if store.dom().contains(key) {
                    assert(is_key_scan(
                        store,
                        document_key(context, 0),
                        document_key(context, NONE_U32),
                        keys,
                    ));
                    let at = choose|at: int| 0 <= at < keys.len() && #[trigger] keys[at] == key;
                    lemma_found_key_is_taken(context, keys, id, at);
                }
            }
            lemma_allocation_stored(store, key, next);
        },
        None => {
            assert(step == Err::<Progress, ErrorView>(ids_exhausted()));
        },
    }
}

/// Allocations do not collide: of two allocations in the same collection, the
/// second of which sees what the first has committed, each gets an identifier
/// of its own.
pub proof fn law_allocations_differ(
    first: WriterView,
    second: WriterView,
    class: BitmapClass,
    change_id: u64,
    seeds: (u64, u64),
    store: Store,
    replies: (ReplyView, ReplyView),
)
    requires
        allocates(first.context, class, true),
        second.context == first.context,
        answers(store, kv_request(first, Operation::Bitmap { class, set: true }), replies.0),
        kv_step(first, Operation::Bitmap { class, set: true }, change_id, replies.0, seeds.0)
            matches Ok(committed_first) && answers(
            apply_all(store, committed_first.mutations),
            kv_request(second, Operation::Bitmap { class, set: true }),
            replies.1,
        ),
    ensures
        kv_step(second, Operation::Bitmap { class, set: true }, change_id, replies.1, seeds.1)
            matches Ok(committed_second) ==> committed_second.state.context.document_id
            != kv_step(
            first,
            Operation::Bitmap { class, set: true },
            change_id,
            replies.0,
            seeds.0,
        )->Ok_0.state.context.document_id,
{
    let step = kv_step(first, Operation::Bitmap { class, set: true }, change_id, replies.0, seeds.0);
    let after = apply_all(store, step->Ok_0.mutations);
    law_allocation_is_fresh(first, class, true, change_id, seeds.0, store, replies.0);
    law_allocation_is_fresh(second, class, true, change_id, seeds.1, after, replies.1);
}

/// A counter or a quota is one record, whatever its length.
pub proof fn law_counters_are_one_record(
    state: WriterView,
    class: ValueClass,
    payload: Payload,
    change_id: u64,
    seed: u64,
)
    requires
        class.is_counter_spec(),
        payload.resolved(state.assigned) is Some,
    ensures
        kv_step(
            state,
            Operation::Value { class, op: ValueOp::Put(payload) },
            change_id,
            ReplyView::Nothing,
            seed,
        ) == Ok::<Progress, ErrorView>(
            Progress {
                state: state.advanced(),
                mutations: seq![
                    MutationView::Put {
                        key: kv_value_key(class, state.context),
                        value: payload.resolved(state.assigned)->0,
                    },
                ],
            },
        ),
{
}

/// Whether `later` holds the identifiers of `earlier`, at the same positions.
pub open spec fn extends(later: AssignedIdsView, earlier: AssignedIdsView) -> bool {
    &&& earlier.document_ids.is_prefix_of(later.document_ids)
    &&& earlier.counter_ids.is_prefix_of(later.counter_ids)
}

/// An operation takes no identifier back: what was assigned stays assigned,
/// at its position.
pub proof fn lemma_step_keeps_ids(
    state: WriterView,
    op: Operation,
    change_id: u64,
    reply: ReplyView,
    seed: u64,
)
    requires
        kv_step(state, op, change_id, reply, seed) is Ok,
    ensures
        extends(kv_step(state, op, change_id, reply, seed)->Ok_0.state.assigned, state.assigned),
        kv_step(state, op, change_id, reply, seed)->Ok_0.state.max_value_size
            == state.max_value_size,
        kv_step(state, op, change_id, reply, seed)->Ok_0.state.position == state.position + 1,
{
    let after = kv_step(state, op, change_id, reply, seed)->Ok_0.state.assigned;
    assert(state.assigned.document_ids.is_prefix_of(state.assigned.document_ids));
    assert(state.assigned.counter_ids.is_prefix_of(state.assigned.counter_ids));
    assert(forall|id: u32|
        state.assigned.document_ids.is_prefix_of(
            #[trigger] state.assigned.document_ids.push(id),
        ));
    assert(forall|value: i64|
        state.assigned.counter_ids.is_prefix_of(#[trigger] state.assigned.counter_ids.push(value)));
}

/// Within one attempt an identifier, once assigned, is stable: every later
/// operation finds it at the position at which it was assigned.
pub proof fn law_assigned_ids_are_stable(
    start: WriterView,
    ops: Seq<Operation>,
    change_id: u64,
    replies: Seq<ReplyView>,
    seeds: Seq<u64>,
    earlier: nat,
    later: nat,
)
    requires
        earlier <= later,
        kv_run(start, ops, change_id, replies, seeds, later) is Ok,
    ensures
        kv_run(start, ops, change_id, replies, seeds, earlier) is Ok,
        extends(
            kv_run(start, ops, change_id, replies, seeds, later)->Ok_0.state.assigned,
            kv_run(start, ops, change_id, replies, seeds, earlier)->Ok_0.state.assigned,
        ),
    decreases later - earlier,
{
    let last = kv_run(start, ops, change_id, replies, seeds, later)->Ok_0.state.assigned;
    if earlier < later {
        let before = kv_run(start, ops, change_id, replies, seeds, (later - 1) as nat)->Ok_0;
        law_assigned_ids_are_stable(
            start,
            ops,
            change_id,
            replies,
            seeds,
            earlier,
            (later - 1) as nat,
        );
        lemma_step_keeps_ids(
            before.state,
            ops[later - 1],
            change_id,
            replies[later - 1],
            seeds[later - 1],
        );
        let first = kv_run(start, ops, change_id, replies, seeds, earlier)->Ok_0.state.assigned;
        assert(first.document_ids.is_prefix_of(last.document_ids));
        assert(first.counter_ids.is_prefix_of(last.counter_ids));
    } else {
        assert(last.document_ids.is_prefix_of(last.document_ids));
        assert(last.counter_ids.is_prefix_of(last.counter_ids));
    }
}

/// A store that answers what it is asked is never taken for a stranger: if
/// the reply is the store's answer to the writer's request, the operation is
/// done, or fails for a reason of its own.
pub proof fn law_faithful_answers_are_accepted(
    state: WriterView,
    op: Operation,
    change_id: u64,
    seed: u64,
    store: Store,
    reply: ReplyView,
)
    requires
        answers(store, kv_request(state, op), reply),
    ensures
        match kv_step(state, op, change_id, reply, seed) {
            Ok(progress) => progress.state.position == state.position + 1,
            Err(error) => {
                ||| error == ErrorView::AssertValueFailed
                ||| error == value_too_large()
                ||| error == unassigned_id()
                ||| error == invalid_counter()
                ||| error == ids_exhausted()
            },
        },
{
}

/// Whether the transaction at `index` of a purge of `keys` names `key`.
pub open spec fn purged_in(keys: Seq<Seq<u8>>, index: int, key: Seq<u8>) -> bool {
    exists|i: int|
        0 <= i < purge_batch_len(keys.len() as int, index) && #[trigger] keys[index * PURGE_BATCH
            + i] == key
}

/// The store after the first `done` mutations of a transaction of a purge.
proof fn lemma_purge_prefix(
    store: Store,
    keys: Seq<Seq<u8>>,
    index: int,
    done: int,
    key: Seq<u8>,
)
    requires
        0 <= index < purge_batch_count(keys.len() as int),
        0 <= done <= purge_batch_len(keys.len() as int, index),
    ensures
        get(apply_all(store, purge_batch(keys, index).take(done)), key) == if (exists|i: int|
            0 <= i < done && #[trigger] keys[index * PURGE_BATCH + i] == key) && get(store, key)
            == Some(le_i64(0)) {
            None
        } else {
            get(store, key)
        },
    decreases done,
{
    let batch = purge_batch(keys, index);
    if done > 0 {
        lemma_purge_prefix(store, keys, index, done - 1, key);
        assert(batch.take(done).drop_last() =~= batch.take(done - 1));
        assert(batch.take(done).last() == batch[done - 1]);
        let named = keys[index * PURGE_BATCH + (done - 1)];
        assert(batch[done - 1] == (MutationView::CompareAndClear { key: named, expected: 0 }));
        if exists|i: int| 0 <= i < done - 1 && #[trigger] keys[index * PURGE_BATCH + i] == key {
            let i = choose|i: int|
                0 <= i < done - 1 && #[trigger] keys[index * PURGE_BATCH + i] == key;
            assert(0 <= i < done && keys[index * PURGE_BATCH + i] == key);
        }
    } else {
        assert(batch.take(0).len() == 0);
    }
}

/// A purge deletes zeros only: after a transaction of a purge has committed,
/// a key that it names is gone if its value was the integer zero when the
/// transaction committed, and every other key is as it was, one that was
/// added to since the scan too.
pub proof fn law_purge_deletes_only_zeros(
    store: Store,
    keys: Seq<Seq<u8>>,
    index: int,
    key: Seq<u8>,
)
    requires
        0 <= index < purge_batch_count(keys.len() as int),
    ensures
        get(apply_all(store, purge_batch(keys, index)), key) == if purged_in(keys, index, key)
            && get(store, key) == Some(le_i64(0)) {
            None
        } else {
            get(store, key)
        },
{
    let batch = purge_batch(keys, index);
    let len = purge_batch_len(keys.len() as int, index);
    assert(0 <= len);
    lemma_purge_prefix(store, keys, index, len, key);
    assert(batch.take(len) =~= batch);
}

/// Deleting a range deletes the keys from its beginning up to, not
/// including, its end, and no other.
pub proof fn law_delete_range(store: Store, begin: Seq<u8>, end: Seq<u8>, key: Seq<u8>)
    ensures
        get(apply(store, MutationView::ClearRange { begin, end }), key) == if in_range(
            key,
            begin,
            end,
        ) {
            None
        } else {
            get(store, key)
        },
{
}

} // verus!
