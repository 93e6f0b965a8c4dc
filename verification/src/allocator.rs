//! Fresh document identifiers.
//!
//! The documents of a collection are the keys of one range of the bitmap
//! subspace, each of which ends with the identifier of its document.  A new
//! document gets an identifier that none of these keys holds, picked at
//! random among those that are free, so that writers that allocate at the same
//! time seldom pick the same.

use crate::batch::NONE_U32;
use crate::bytes::{be32_value, deserialize_be_u32, U32_LEN};
use crate::mutation::key_views;
use rand::Rng;
use roaring::RoaringBitmap;
use vstd::prelude::*;

verus! {

/// `roaring::RoaringBitmap`, a set of 32-bit integers.  Nothing is known of a
/// value of it but what the items below state.
#[verifier::external_type_specification]
#[verifier::external_body]
pub struct ExRoaringBitmap(RoaringBitmap);

/// The integers that a bitmap holds.
pub uninterp spec fn bitmap_ids(bitmap: RoaringBitmap) -> Set<u32>;

/// How many members of `ids` are at most `x`.
pub open spec fn taken_upto(ids: Set<u32>, x: int) -> int
    decreases x + 1,
{
    if x < 0 {
        0
    } else {
        taken_upto(ids, x - 1) + if ids.contains(x as u32) {
            1int
        } else {
            0int
        }
    }
}

/// How many integers from 0 to `x` are not in `ids`.
pub open spec fn free_upto(ids: Set<u32>, x: int) -> int {
    x + 1 - taken_upto(ids, x)
}

/// How many identifiers can still be allocated.  The largest 32-bit integer is
/// not an identifier: it stands for "no document".
pub open spec fn free_ids(ids: Set<u32>) -> int {
    free_upto(ids, NONE_U32 - 1)
}

/// `id` is free, and exactly `k` smaller identifiers are free as well.
pub open spec fn is_kth_free(ids: Set<u32>, k: int, id: u32) -> bool {
    &&& id < NONE_U32
    &&& !ids.contains(id)
    &&& free_upto(ids, id - 1) == k
}

/// The free identifier with exactly `k` smaller free ones.
pub open spec fn kth_free(ids: Set<u32>, k: int) -> u32 {
    choose|id: u32| is_kth_free(ids, k, id)
}

/// The identifier that a given random number selects: none if none is free,
/// else each free one for as many random numbers as any other, give or take
/// one.
pub open spec fn allocated(ids: Set<u32>, seed: u64) -> Option<u32> {
    if free_ids(ids) <= 0 {
        None
    } else {
        Some(kth_free(ids, seed as int % free_ids(ids)))
    }
}

/// The identifiers that the keys of a collection's documents hold: of each
/// key of length `key_len`, the last four bytes, read big-endian.  Keys of
/// another length belong to something else, and a key of less than four bytes
/// holds no identifier.
pub open spec fn document_ids_of(keys: Seq<Seq<u8>>, key_len: int) -> Set<u32> {
    Set::new(
        |id: u32|
            key_len >= 4 && exists|i: int|
                0 <= i < keys.len() && (#[trigger] keys[i]).len() == key_len && be32_value(
                    keys[i].subrange(key_len - 4, key_len),
                ) == id,
    )
}

/// `RoaringBitmap::new` gives a bitmap that holds nothing.
pub assume_specification[ RoaringBitmap::new ]() -> (bitmap: RoaringBitmap)
    ensures
        bitmap_ids(bitmap) == Set::<u32>::empty(),
;

/// `RoaringBitmap::insert` adds the value to the set and tells whether it was
/// absent before.
pub assume_specification[ RoaringBitmap::insert ](bitmap: &mut RoaringBitmap, value: u32) -> (fresh:
    bool)
    ensures
        bitmap_ids(*final(bitmap)) == bitmap_ids(*old(bitmap)).insert(value),
        fresh == !bitmap_ids(*old(bitmap)).contains(value),
;

/// `RoaringBitmap::rank` counts the members that are at most `value`.
pub assume_specification[ RoaringBitmap::rank ](bitmap: &RoaringBitmap, value: u32) -> (rank: u64)
    ensures
        rank == taken_upto(bitmap_ids(*bitmap), value as int),
;

/// `rand::Rng::gen_range` on the thread's generator, with an inclusive range:
/// some number from `low` to `high`.  Which one is not known, and two calls
/// may differ.
#[verifier::external_body]
pub(crate) fn random_between(low: u64, high: u64) -> (n: u64)
    requires
        low <= high,
    ensures
        low <= n <= high,
{
    rand::thread_rng().gen_range(low..=high)
}

/// Of the integers from 0 to `x`, some are taken and the others are free.
pub proof fn lemma_taken_bounds(ids: Set<u32>, x: int)
    requires
        x >= -1,
    ensures
        0 <= taken_upto(ids, x) <= x + 1,
        0 <= free_upto(ids, x) <= x + 1,
    decreases x + 1,
{
    if x >= 0 {
        lemma_taken_bounds(ids, x - 1);
    }
}

/// The count of free integers grows with the bound, by at most one for each
/// step.
pub proof fn lemma_free_monotone(ids: Set<u32>, x: int, y: int)
    requires
        -1 <= x <= y,
    ensures
        free_upto(ids, x) <= free_upto(ids, y) <= free_upto(ids, x) + (y - x),
    decreases y - x,
{
    if x < y {
        lemma_free_monotone(ids, x, y - 1);
    }
}

/// No two identifiers are both the free one with `k` smaller free ones.
pub proof fn lemma_kth_free_unique(ids: Set<u32>, k: int, a: u32, b: u32)
    requires
        is_kth_free(ids, k, a),
        is_kth_free(ids, k, b),
    ensures
        a == b,
{
    if a < b {
        lemma_free_monotone(ids, a as int, b - 1);
    } else if b < a {
        lemma_free_monotone(ids, b as int, a - 1);
    }
}

/// An identifier is free exactly if it is the free one with some number of
/// smaller free ones; that number is below the count of all free identifiers.
pub proof fn lemma_free_has_rank(ids: Set<u32>, id: u32)
    requires
        id < NONE_U32,
        !ids.contains(id),
    ensures
        is_kth_free(ids, free_upto(ids, id - 1), id),
        0 <= free_upto(ids, id - 1) < free_ids(ids),
{
    lemma_taken_bounds(ids, id - 1);
    lemma_free_monotone(ids, id as int, NONE_U32 - 1);
}

/// Where more than `k` of the integers up to `x` are free, one of them is the
/// free one with `k` smaller free ones.
pub proof fn lemma_kth_free_exists(ids: Set<u32>, k: int, x: int)
    requires
        -1 <= x < NONE_U32,
        0 <= k < free_upto(ids, x),
    ensures
        exists|id: u32| id <= x && is_kth_free(ids, k, id),
    decreases x + 1,
{
    if x >= 0 {
        if free_upto(ids, x - 1) > k {
            lemma_kth_free_exists(ids, k, x - 1);
        } else {
            lemma_taken_bounds(ids, x - 1);
            assert(is_kth_free(ids, k, x as u32));
        }
    }
}

/// An identifier is allocated exactly if one is free, and the one that is
/// allocated is free.
pub proof fn lemma_allocated_is_free(ids: Set<u32>, seed: u64)
    ensures
        match allocated(ids, seed) {
            Some(id) => id < NONE_U32 && !ids.contains(id),
            None => forall|id: u32| id < NONE_U32 ==> ids.contains(id),
        },
{
    lemma_taken_bounds(ids, NONE_U32 - 1);
    if free_ids(ids) > 0 {
        let k = seed as int % free_ids(ids);
        lemma_kth_free_exists(ids, k, NONE_U32 - 1);
    } else {
        assert forall|id: u32| id < NONE_U32 implies ids.contains(id) by {
            if !ids.contains(id) {
                lemma_free_has_rank(ids, id);
            }
        }
    }
}

/// How many identifiers can still be allocated.
pub fn available_ids(found: &RoaringBitmap) -> (n: u64)
    ensures
        n == free_ids(bitmap_ids(*found)),
{
    proof {
        lemma_taken_bounds(bitmap_ids(*found), NONE_U32 - 1);
    }
    let taken = found.rank(NONE_U32 - 1);
    NONE_U32 as u64 - taken
}

/// The free identifier with exactly `k` smaller free ones.
pub fn pick_available(found: &RoaringBitmap, k: u64) -> (id: u32)
    requires
        k < free_ids(bitmap_ids(*found)),
    ensures
        is_kth_free(bitmap_ids(*found), k as int, id),
        id == kth_free(bitmap_ids(*found), k as int),
{
    let ghost ids = bitmap_ids(*found);
    let mut low: u32 = 0;
    let mut high: u32 = NONE_U32 - 1;
    while low < high
        invariant
            low <= high < NONE_U32,
            ids == bitmap_ids(*found),
            free_upto(ids, low - 1) <= k < free_upto(ids, high as int),
        decreases high - low,
    {
        let mid = low + (high - low) / 2;
        proof {
            lemma_taken_bounds(ids, mid as int);
        }
        let free = mid as u64 + 1 - found.rank(mid);
        if free > k {
            high = mid;
        } else {
            low = mid + 1;
        }
    }
    proof {
        assert(taken_upto(ids, low as int) == taken_upto(ids, low - 1) + if ids.contains(low) {
            1int
        } else {
            0int
        });
        assert(is_kth_free(ids, k as int, low));
        lemma_kth_free_unique(ids, k as int, low, kth_free(ids, k as int));
    }
    low
}

/// The identifier that `seed` selects among the free ones, if any is free.
pub fn allocate_id(found: &RoaringBitmap, seed: u64) -> (id: Option<u32>)
    ensures
        id == allocated(bitmap_ids(*found), seed),
        id matches Some(fresh) ==> is_kth_free(
            bitmap_ids(*found),
            seed as int % free_ids(bitmap_ids(*found)),
            fresh,
        ),
{
    let free = available_ids(found);
    if free == 0 {
        None
    } else {
        Some(pick_available(found, seed % free))
    }
}

/// Some identifier that is not in `found`, picked at random; none if every
/// identifier is in it.
pub fn random_available_id(found: &RoaringBitmap) -> (id: Option<u32>)
    ensures
        id is Some <==> free_ids(bitmap_ids(*found)) > 0,
        id matches Some(fresh) ==> fresh < NONE_U32 && !bitmap_ids(*found).contains(fresh),
        exists|seed: u64| id == allocated(bitmap_ids(*found), seed),
{
    let seed = random_between(0, u64::MAX);
    let id = allocate_id(found, seed);
    proof {
        let ids = bitmap_ids(*found);
        lemma_taken_bounds(ids, NONE_U32 - 1);
    }
    id
}

/// The identifiers of the documents that a scan of a collection's range
/// found.
pub fn found_document_ids(keys: &Vec<Vec<u8>>, key_len: usize) -> (found: RoaringBitmap)
    ensures
        bitmap_ids(found) == document_ids_of(key_views(keys@), key_len as int),
{
    let mut found = RoaringBitmap::new();
    if key_len < U32_LEN {
        assert(bitmap_ids(found) =~= document_ids_of(key_views(keys@), key_len as int));
        return found;
    }
    let mut i: usize = 0;
    assert(bitmap_ids(found) =~= document_ids_of(key_views(keys@).take(0), key_len as int));
    while i < keys.len()
        invariant
            key_len >= U32_LEN,
            i <= keys@.len(),
            bitmap_ids(found) == document_ids_of(key_views(keys@).take(i as int), key_len as int),
        decreases keys@.len() - i,
    {
        let key = &keys[i];
        let ghost before = bitmap_ids(found);
        let ghost views = key_views(keys@);
        if key.len() == key_len {
            let id = deserialize_be_u32(key.as_slice(), key_len - U32_LEN);
            match id {
                Some(id) => {
                    found.insert(id);
                },
                None => {},
            }
        }
        proof {
            let after = document_ids_of(views.take(i + 1), key_len as int);
            assert forall|id: u32| bitmap_ids(found).contains(id) <==> after.contains(id) by {
                if bitmap_ids(found).contains(id) {
                    if before.contains(id) {
                        let j = choose|j: int|
                            0 <= j < views.take(i as int).len() && (#[trigger] views.take(
                                i as int,
                            )[j]).len() == key_len && be32_value(
                                views.take(i as int)[j].subrange(key_len - 4, key_len as int),
                            ) == id;
                        assert(views.take(i + 1)[j] == views.take(i as int)[j]);
                    } else {
                        assert(views.take(i + 1)[i as int] == views[i as int]);
                    }
                }
                if after.contains(id) {
                    let j = choose|j: int|
                        0 <= j < views.take(i + 1).len() && (#[trigger] views.take(i + 1)[j]).len()
                            == key_len && be32_value(
                            views.take(i + 1)[j].subrange(key_len - 4, key_len as int),
                        ) == id;
                    if j < i {
                        assert(views.take(i as int)[j] == views.take(i + 1)[j]);
                    }
                }
            }
            assert(bitmap_ids(found) =~= after);
        }
        i += 1;
    }
    assert(key_views(keys@).take(i as int) =~= key_views(keys@));
    found
}

} // verus!
