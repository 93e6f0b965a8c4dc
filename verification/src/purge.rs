//! Deleting the counters and quotas that have come down to zero.
//!
//! On a key-value store the subspaces of counters and of quotas are scanned
//! and the keys whose value is zero are deleted in batches, each key only if
//! its value is still zero when the deletion commits: a counter that somebody
//! added to in the meantime stays.  A relational database does the same with
//! one statement for each table.

use crate::key::{SUBSPACE_COUNTER, SUBSPACE_QUOTA};
use crate::kv::{Request, RequestView};
use crate::mutation::{
    key_views, mutation_views, record_views, Mutation, MutationView, Record, RecordView,
};
use crate::sql::{Statement, StatementKind, StatementView};
use vstd::prelude::*;

verus! {

/// The most keys that one transaction of a purge deletes.
pub const PURGE_BATCH: usize = 1024;

/// The first key of the scan of a subspace.
pub open spec fn purge_begin(subspace: u8) -> Seq<u8> {
    seq![subspace, 0u8]
}

/// The key at which the scan of a subspace ends.
pub open spec fn purge_end(subspace: u8) -> Seq<u8> {
    seq![subspace, 0xFFu8, 0xFFu8, 0xFFu8, 0xFFu8, 0xFFu8]
}

/// The read that finds the records of a subspace.
pub fn purge_scan(subspace: u8) -> (request: Request)
    ensures
        request@ == (RequestView::GetRange {
            begin: purge_begin(subspace),
            end: purge_end(subspace),
            snapshot: true,
        }),
{
    let mut begin: Vec<u8> = Vec::with_capacity(2);
    begin.push(subspace);
    begin.push(0);
    let mut end: Vec<u8> = Vec::with_capacity(6);
    end.push(subspace);
    end.push(0xFF);
    end.push(0xFF);
    end.push(0xFF);
    end.push(0xFF);
    end.push(0xFF);
    assert(begin@ =~= purge_begin(subspace));
    assert(end@ =~= purge_end(subspace));
    Request::GetRange { begin, end, snapshot: true }
}

/// The reads of a purge: the counters, then the quotas.
pub fn purge_scans() -> (requests: Vec<Request>)
    ensures
        requests@.len() == 2,
        requests@[0]@ == (RequestView::GetRange {
            begin: purge_begin(SUBSPACE_COUNTER),
            end: purge_end(SUBSPACE_COUNTER),
            snapshot: true,
        }),
        requests@[1]@ == (RequestView::GetRange {
            begin: purge_begin(SUBSPACE_QUOTA),
            end: purge_end(SUBSPACE_QUOTA),
            snapshot: true,
        }),
{
    let mut requests: Vec<Request> = Vec::with_capacity(2);
    requests.push(purge_scan(SUBSPACE_COUNTER));
    requests.push(purge_scan(SUBSPACE_QUOTA));
    requests
}

/// Whether every byte of a value is zero: the value is the integer zero.
pub open spec fn is_zero(value: Seq<u8>) -> bool {
    forall|i: int| 0 <= i < value.len() ==> value[i] == 0
}

/// The keys of the records whose value is zero, in the order of the records.
pub open spec fn zero_valued(records: Seq<RecordView>) -> Seq<Seq<u8>>
    decreases records.len(),
{
    if records.len() == 0 {
        Seq::empty()
    } else if is_zero(records.last().value) {
        zero_valued(records.drop_last()).push(records.last().key)
    } else {
        zero_valued(records.drop_last())
    }
}

/// Whether every byte of `value` is zero.
pub fn all_zero(value: &[u8]) -> (zero: bool)
    ensures
        zero == is_zero(value@),
{
    let mut i: usize = 0;
    while i < value.len()
        invariant
            i <= value@.len(),
            forall|j: int| 0 <= j < i ==> value@[j] == 0,
        decreases value@.len() - i,
    {
        if value[i] != 0 {
            return false;
        }
        i += 1;
    }
    true
}

/// Adds to `keys` the keys of the records whose value is zero.
pub fn collect_zero_keys(records: &Vec<Record>, keys: &mut Vec<Vec<u8>>)
    ensures
        key_views(final(keys)@) == key_views(old(keys)@) + zero_valued(record_views(records@)),
{
    let ghost views = record_views(records@);
    let ghost before = key_views(keys@);
    let mut i: usize = 0;
    assert(key_views(keys@) =~= before + zero_valued(views.take(0)));
    while i < records.len()
        invariant
            i <= records@.len(),
            views == record_views(records@),
            key_views(keys@) == before + zero_valued(views.take(i as int)),
        decreases records@.len() - i,
    {
        let record = &records[i];
        let ghost next = views.take(i + 1);
        proof {
            assert(next.drop_last() =~= views.take(i as int));
            assert(next.last() == views[i as int]);
            assert(views[i as int] == record@);
        }
        if all_zero(record.value.as_slice()) {
            let key = record.key.clone();
            let ghost held = keys@;
            assert(key@ =~= record.key@);
            keys.push(key);
            proof {
                assert(zero_valued(next) == zero_valued(views.take(i as int)).push(record@.key));
                assert(key_views(keys@) =~= key_views(held).push(record@.key));
                assert(key_views(keys@) =~= before + zero_valued(next));
            }
        } else {
            assert(zero_valued(next) == zero_valued(views.take(i as int)));
        }
        i += 1;
    }
    assert(views.take(i as int) =~= views);
}

/// How many transactions delete `count` keys.
pub open spec fn purge_batch_count(count: int) -> int {
    (count + PURGE_BATCH - 1) / (PURGE_BATCH as int)
}

/// How many keys the transaction at `index` deletes: [`PURGE_BATCH`], but for
/// the last, which deletes what is left.
pub open spec fn purge_batch_len(count: int, index: int) -> int {
    if count - index * PURGE_BATCH < PURGE_BATCH {
        count - index * PURGE_BATCH
    } else {
        PURGE_BATCH as int
    }
}

/// The mutations of the transaction at `index`: each of its keys is cleared
/// if its value is the integer zero.
pub open spec fn purge_batch(keys: Seq<Seq<u8>>, index: int) -> Seq<MutationView> {
    Seq::new(
        purge_batch_len(keys.len() as int, index) as nat,
        |i: int| MutationView::CompareAndClear { key: keys[index * PURGE_BATCH + i], expected: 0 },
    )
}

/// The transactions that delete the given keys, each key only if its value is
/// still zero.
pub fn purge_batches(keys: &Vec<Vec<u8>>) -> (batches: Vec<Vec<Mutation>>)
    ensures
        batches@.len() == purge_batch_count(keys@.len() as int),
        forall|index: int|
            0 <= index < batches@.len() ==> mutation_views(#[trigger] batches@[index]@)
                == purge_batch(key_views(keys@), index),
{
    let mut batches: Vec<Vec<Mutation>> = Vec::new();
    let mut done: usize = 0;
    while done < keys.len()
        invariant
            done <= keys@.len(),
            done == if batches@.len() * PURGE_BATCH < keys@.len() {
                batches@.len() * PURGE_BATCH
            } else {
                keys@.len() as int
            },
            batches@.len() == 0 || (batches@.len() - 1) * PURGE_BATCH < keys@.len(),
            forall|index: int|
                0 <= index < batches@.len() ==> mutation_views(#[trigger] batches@[index]@)
                    == purge_batch(key_views(keys@), index),
        decreases keys@.len() - done,
    {
        let left = keys.len() - done;
        let size = if left < PURGE_BATCH {
            left
        } else {
            PURGE_BATCH
        };
        let mut batch: Vec<Mutation> = Vec::with_capacity(size);
        let mut i: usize = 0;
        while i < size
            invariant
                i <= size,
                done + size <= keys@.len() <= usize::MAX,
                batch@.len() == i,
                forall|j: int|
                    0 <= j < i ==> (#[trigger] batch@[j])@ == (MutationView::CompareAndClear {
                        key: keys@[done + j]@,
                        expected: 0,
                    }),
            decreases size - i,
        {
            let key = keys[done + i].clone();
            assert(key@ =~= keys@[done + i]@);
            batch.push(Mutation::CompareAndClear { key, expected: 0 });
            i += 1;
        }
        proof {
            assert(mutation_views(batch@) =~= purge_batch(
                key_views(keys@),
                batches@.len() as int,
            ));
        }
        batches.push(batch);
        done = done + size;
    }
    batches
}

/// The statements of a purge: the quotas that are zero are deleted, then the
/// counters.
pub fn purge_statements() -> (statements: Vec<Statement>)
    ensures
        statements@.len() == 2,
        statements@[0]@ == (StatementView {
            kind: StatementKind::DeleteZero,
            table: SUBSPACE_QUOTA,
            params: Seq::empty(),
        }),
        statements@[1]@ == (StatementView {
            kind: StatementKind::DeleteZero,
            table: SUBSPACE_COUNTER,
            params: Seq::empty(),
        }),
{
    let mut statements: Vec<Statement> = Vec::with_capacity(2);
    statements.push(
        Statement { kind: StatementKind::DeleteZero, table: SUBSPACE_QUOTA, params: Vec::new() },
    );
    statements.push(
        Statement { kind: StatementKind::DeleteZero, table: SUBSPACE_COUNTER, params: Vec::new() },
    );
    assert(statements@[0]@.params =~= Seq::empty());
    assert(statements@[1]@.params =~= Seq::empty());
    statements
}

} // verus!
