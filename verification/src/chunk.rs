//! Values that do not fit in one record.
//!
//! A backend may bound the size of a value.  A longer value is cut into
//! consecutive chunks of that size, the last one possibly shorter.  The first
//! chunk is stored under the key itself, the chunks after it under the key
//! extended by one byte, which counts up from zero: all of them lie from the
//! key up to the key extended by `0xFF`, in the order of the chunks.

use crate::error::{value_too_large, Error};
use crate::mutation::{
    copy_range, extended, mutation_views, record_views, Mutation, MutationView, Record, RecordView,
};
use vstd::prelude::*;

verus! {

/// The most chunks that one value can have: the key itself and one for each
/// byte from `0x00` to `0xFE`.
pub const MAX_CHUNKS: usize = 256;

/// The byte behind the key that ends the range of the chunks of a value.
pub const CHUNK_RANGE_END: u8 = 0xFF;

/// The chunks of a value, in order.  A value that fits is its own single
/// chunk, the empty value too.
pub open spec fn chunk_values(value: Seq<u8>, max_value_size: nat) -> Seq<Seq<u8>>
    decreases value.len(),
    when max_value_size > 0
{
    if value.len() <= max_value_size {
        seq![value]
    } else {
        seq![value.take(max_value_size as int)] + chunk_values(
            value.skip(max_value_size as int),
            max_value_size,
        )
    }
}

/// The key under which the chunk at `index` is stored.
pub open spec fn chunk_key(key: Seq<u8>, index: int) -> Seq<u8> {
    if index == 0 {
        key
    } else {
        key.push((index - 1) as u8)
    }
}

/// The end of the range in which the chunks of the value under `key` lie.
pub open spec fn chunk_range_end(key: Seq<u8>) -> Seq<u8> {
    key.push(CHUNK_RANGE_END)
}

/// The records that hold a value under a key.
pub open spec fn chunk_records(key: Seq<u8>, value: Seq<u8>, max_value_size: nat) -> Seq<
    RecordView,
> {
    Seq::new(
        chunk_values(value, max_value_size).len(),
        |i: int| RecordView { key: chunk_key(key, i), value: chunk_values(value, max_value_size)[i] },
    )
}

/// The mutations that store a value under a key.
pub open spec fn chunk_puts(key: Seq<u8>, value: Seq<u8>, max_value_size: nat) -> Seq<
    MutationView,
> {
    Seq::new(
        chunk_values(value, max_value_size).len(),
        |i: int|
            MutationView::Put {
                key: chunk_key(key, i),
                value: chunk_values(value, max_value_size)[i],
            },
    )
}

/// Whether a value can be stored: it needs no more than [`MAX_CHUNKS`] chunks.
pub open spec fn fits(len: nat, max_value_size: nat) -> bool {
    len <= MAX_CHUNKS * max_value_size
}

/// The values of some records, one behind the other.
pub open spec fn joined(records: Seq<RecordView>) -> Seq<u8>
    decreases records.len(),
{
    if records.len() == 0 {
        Seq::empty()
    } else {
        joined(records.drop_last()) + records.last().value
    }
}

/// What a read of a possibly chunked value finds: nothing where there is no
/// record, else the values of the records in the order of their keys.
pub open spec fn reassembled(records: Seq<RecordView>) -> Option<Seq<u8>> {
    if records.len() == 0 {
        None
    } else {
        Some(joined(records))
    }
}

/// Every chunk holds at most `max_value_size` bytes, and all but the last
/// hold exactly as many.
pub proof fn lemma_chunk_sizes(value: Seq<u8>, max_value_size: nat)
    requires
        max_value_size > 0,
    ensures
        chunk_values(value, max_value_size).len() >= 1,
        forall|i: int|
            0 <= i < chunk_values(value, max_value_size).len() ==> {
                &&& #[trigger] chunk_values(value, max_value_size)[i].len() <= max_value_size
                &&& i + 1 < chunk_values(value, max_value_size).len() ==> chunk_values(
                    value,
                    max_value_size,
                )[i].len() == max_value_size
            },
    decreases value.len(),
{
    if value.len() > max_value_size {
        lemma_chunk_sizes(value.skip(max_value_size as int), max_value_size);
    }
}

/// A value has at most `n` chunks exactly if it has at most `n` times
/// `max_value_size` bytes: it has as many chunks as its length divided by
/// `max_value_size`, rounded up, and the empty value has one.
pub proof fn lemma_chunk_count(value: Seq<u8>, max_value_size: nat, n: nat)
    requires
        max_value_size > 0,
        n >= 1,
    ensures
        chunk_values(value, max_value_size).len() <= n <==> value.len() <= n * max_value_size,
    decreases value.len(),
{
    let rest = value.skip(max_value_size as int);
    if value.len() <= max_value_size {
        assert(max_value_size <= n * max_value_size) by (nonlinear_arith)
            requires
                n >= 1,
        ;
    } else if n == 1 {
        lemma_chunk_sizes(rest, max_value_size);
        assert(n * max_value_size == max_value_size) by (nonlinear_arith)
            requires
                n == 1,
        ;
    } else {
        lemma_chunk_count(rest, max_value_size, (n - 1) as nat);
        assert(n * max_value_size == (n - 1) * max_value_size + max_value_size)
            by (nonlinear_arith);
    }
}

/// Joining goes through concatenation.
pub proof fn lemma_joined_concat(a: Seq<RecordView>, b: Seq<RecordView>)
    ensures
        joined(a + b) == joined(a) + joined(b),
    decreases b.len(),
{
    if b.len() == 0 {
        assert(a + b =~= a);
        assert(joined(a) + joined(b) =~= joined(a));
    } else {
        lemma_joined_concat(a, b.drop_last());
        assert((a + b).drop_last() =~= a + b.drop_last());
        assert(joined(a + b) =~= joined(a) + joined(b));
    }
}

/// The chunks of a value, one behind the other, are the value: reading the
/// records back in the order of their keys gives what was stored.
pub proof fn lemma_reassemble_chunks(key: Seq<u8>, value: Seq<u8>, max_value_size: nat)
    requires
        max_value_size > 0,
    ensures
        reassembled(chunk_records(key, value, max_value_size)) == Some(value),
{
    lemma_chunk_sizes(value, max_value_size);
    lemma_joined_values(key, 0, value, max_value_size);
}

/// The records of the chunks of `value`, numbered from `first`.
spec fn records_from(key: Seq<u8>, first: int, value: Seq<u8>, max_value_size: nat) -> Seq<
    RecordView,
> {
    Seq::new(
        chunk_values(value, max_value_size).len(),
        |i: int|
            RecordView {
                key: chunk_key(key, first + i),
                value: chunk_values(value, max_value_size)[i],
            },
    )
}

proof fn lemma_joined_values(key: Seq<u8>, first: int, value: Seq<u8>, max_value_size: nat)
    requires
        max_value_size > 0,
    ensures
        joined(records_from(key, first, value, max_value_size)) == value,
        first == 0 ==> records_from(key, first, value, max_value_size) == chunk_records(
            key,
            value,
            max_value_size,
        ),
    decreases value.len(),
{
    let records = records_from(key, first, value, max_value_size);
    if first == 0 {
        assert(records =~= chunk_records(key, value, max_value_size));
    }
    if value.len() <= max_value_size {
        assert(records.drop_last() =~= Seq::<RecordView>::empty());
        assert(joined(records) =~= value) by {
            reveal_with_fuel(joined, 2);
        }
    } else {
        let head = value.take(max_value_size as int);
        let rest = value.skip(max_value_size as int);
        lemma_joined_values(key, first + 1, rest, max_value_size);
        let one = seq![RecordView { key: chunk_key(key, first), value: head }];
        let more = records_from(key, first + 1, rest, max_value_size);
        assert(records =~= one + more);
        lemma_joined_concat(one, more);
        assert(one.drop_last() =~= Seq::<RecordView>::empty());
        assert(joined(one) =~= head) by {
            reveal_with_fuel(joined, 2);
        }
        assert(head + rest =~= value);
    }
}

/// The key of the chunk at `index`.
fn key_of_chunk(key: &[u8], index: usize) -> (out: Vec<u8>)
    requires
        index <= MAX_CHUNKS,
    ensures
        out@ == chunk_key(key@, index as int),
{
    if index == 0 {
        let out = copy_range(key, 0, key.len());
        assert(key@.subrange(0, key@.len() as int) =~= key@);
        out
    } else {
        extended(key, (index - 1) as u8)
    }
}

/// The mutations that store `value` under `key` in a backend whose values
/// hold at most `max_value_size` bytes: one `Put` for each chunk.  A value
/// of more than [`MAX_CHUNKS`] chunks cannot be stored.
pub fn chunk_value(key: &[u8], value: &[u8], max_value_size: usize) -> (r: Result<
    Vec<Mutation>,
    Error,
>)
    requires
        max_value_size > 0,
    ensures
        fits(value@.len(), max_value_size as nat) ==> (r matches Ok(mutations) && mutation_views(
            mutations@,
        ) == chunk_puts(key@, value@, max_value_size as nat)),
        !fits(value@.len(), max_value_size as nat) ==> (r matches Err(e) && e@
            == value_too_large()),
{
    let ghost all = chunk_values(value@, max_value_size as nat);
    let mut mutations: Vec<Mutation> = Vec::new();
    let mut offset: usize = 0;
    let mut index: usize = 0;
    proof {
        assert(value@.skip(0) =~= value@);
        assert(all =~= all.take(0) + all);
    }
    loop
        invariant_except_break
            offset <= value@.len(),
            all == all.take(index as int) + chunk_values(
                value@.skip(offset as int),
                max_value_size as nat,
            ),
        invariant
            max_value_size > 0,
            all == chunk_values(value@, max_value_size as nat),
            index <= MAX_CHUNKS,
            index <= all.len(),
            mutations@.len() == index,
            forall|i: int|
                0 <= i < index ==> (#[trigger] mutations@[i])@ == (MutationView::Put {
                    key: chunk_key(key@, i),
                    value: all[i],
                }),
        ensures
            index == all.len(),
        decreases value@.len() - offset, MAX_CHUNKS - index,
    {
        let ghost rest = value@.skip(offset as int);
        proof {
            lemma_chunk_sizes(rest, max_value_size as nat);
            assert(all.len() == index + chunk_values(rest, max_value_size as nat).len());
        }
        if index == MAX_CHUNKS {
            proof {
                lemma_chunk_count(value@, max_value_size as nat, MAX_CHUNKS as nat);
            }
            return Err(Error::internal("Value too large"));
        }
        let left = value.len() - offset;
        let last = left <= max_value_size;
        let size = if last {
            left
        } else {
            max_value_size
        };
        let chunk = copy_range(value, offset, offset + size);
        let chunk_key = key_of_chunk(key, index);
        proof {
            let next = chunk_values(rest, max_value_size as nat);
            assert(chunk@ =~= next[0]) by {
                if last {
                    assert(rest.len() <= max_value_size);
                    assert(chunk@ =~= rest);
                } else {
                    assert(chunk@ =~= rest.take(max_value_size as int));
                }
            }
            assert(all[index as int] == next[0]);
            if !last {
                assert(value@.skip(offset + size) =~= rest.skip(max_value_size as int));
                assert(all.take(index + 1) =~= all.take(index as int).push(next[0]));
                assert(all =~= all.take(index + 1) + chunk_values(
                    value@.skip(offset + size),
                    max_value_size as nat,
                ));
            }
        }
        mutations.push(Mutation::Put { key: chunk_key, value: chunk });
        offset = offset + size;
        index = index + 1;
        if last {
            break ;
        }
    }
    proof {
        lemma_chunk_count(value@, max_value_size as nat, MAX_CHUNKS as nat);
        assert(mutation_views(mutations@) =~= chunk_puts(key@, value@, max_value_size as nat));
    }
    Ok(mutations)
}

/// What a read of a possibly chunked value found, from the records of its
/// range in the order of their keys.
pub fn reassemble(records: &Vec<Record>) -> (r: Option<Vec<u8>>)
    ensures
        match reassembled(record_views(records@)) {
            Some(value) => r matches Some(out) && out@ == value,
            None => r is None,
        },
{
    if records.len() == 0 {
        return None;
    }
    let mut out: Vec<u8> = Vec::new();
    let mut i: usize = 0;
    while i < records.len()
        invariant
            i <= records@.len(),
            out@ == joined(record_views(records@).take(i as int)),
        decreases records@.len() - i,
    {
        out.extend_from_slice(records[i].value.as_slice());
        proof {
            let views = record_views(records@);
            assert(views.take(i + 1).drop_last() =~= views.take(i as int));
            assert(out@ =~= joined(views.take(i as int)) + views[i as int].value);
        }
        i += 1;
    }
    assert(record_views(records@).take(i as int) =~= record_views(records@));
    Some(out)
}

} // verus!
