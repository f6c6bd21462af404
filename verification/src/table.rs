//! Lists of records by id, in which an id stands once: a record that comes
//! with an id that is already there takes the place of the earlier one, as in
//! a map. The records stay in the order in which their ids first came, the
//! order of the archive. Painting depends on that order: of two shapes with
//! the same number the one that comes first is painted first, also where the
//! two stand in different groups, and a shape draws the stroke of the first
//! points file of its id. A hash map would hand the records out in an order
//! of its own.

use vstd::prelude::*;
use crate::error::NoteError;
use crate::id::UuidKey;
use crate::utils::reversed;

verus! {

/// The index of the entry with the given value of its id, if there is one.
pub open spec fn index_of<K: UuidKey, V>(entries: Seq<(K, V)>, value: u128) -> Option<int>
    decreases entries.len(),
{
    if entries.len() == 0 {
        None
    } else {
        match index_of(entries.drop_last(), value) {
            Some(i) => Some(i),
            None => if entries.last().0.value() == value {
                Some(entries.len() - 1)
            } else {
                None
            },
        }
    }
}

/// A list with the record put under its id: in the place of the record that
/// had the id, or at the end.
pub open spec fn put<K: UuidKey, V>(entries: Seq<(K, V)>, key: K, record: V) -> Seq<(K, V)> {
    match index_of(entries, key.value()) {
        Some(i) => entries.update(i, (key, record)),
        None => entries.push((key, record)),
    }
}

/// The list that putting the records of `pairs` one after the other gives.
pub open spec fn collected<K: UuidKey, V>(pairs: Seq<(K, V)>) -> Seq<(K, V)>
    decreases pairs.len(),
{
    if pairs.len() == 0 {
        Seq::empty()
    } else {
        put(collected(pairs.drop_last()), pairs.last().0, pairs.last().1)
    }
}

/// Whether no two entries of a list have the same id.
pub open spec fn distinct_ids<K: UuidKey, V>(entries: Seq<(K, V)>) -> bool {
    forall|i: int, j: int|
        0 <= i < j < entries.len() ==> (#[trigger] entries[i]).0.value() != (
        #[trigger] entries[j]).0.value()
}

/// The index that [`index_of`] gives is the first at which the id stands.
pub proof fn lemma_index_of<K: UuidKey, V>(entries: Seq<(K, V)>, value: u128)
    ensures
        match index_of(entries, value) {
            Some(i) => 0 <= i < entries.len() && entries[i].0.value() == value && forall|j: int|
                0 <= j < i ==> entries[j].0.value() != value,
            None => forall|j: int| 0 <= j < entries.len() ==> entries[j].0.value() != value,
        },
    decreases entries.len(),
{
    if entries.len() > 0 {
        lemma_index_of(entries.drop_last(), value);
        assert forall|j: int| 0 <= j < entries.len() - 1 implies entries.drop_last()[j]
            == entries[j] by {}
        match index_of(entries.drop_last(), value) {
            Some(i) => {
                assert(entries.drop_last()[i] == entries[i]);
                assert forall|j: int| 0 <= j < i implies entries[j].0.value() != value by {
                    assert(entries.drop_last()[j] == entries[j]);
                }
            },
            None => {
                assert forall|j: int| 0 <= j < entries.len() - 1 implies entries[j].0.value()
                    != value by {
                    assert(entries.drop_last()[j] == entries[j]);
                }
            },
        }
    }
}

/// Putting a record into a list without double ids gives such a list.
pub proof fn lemma_put_distinct<K: UuidKey, V>(entries: Seq<(K, V)>, key: K, record: V)
    requires
        distinct_ids(entries),
    ensures
        distinct_ids(put(entries, key, record)),
{
    lemma_index_of(entries, key.value());
    let r = put(entries, key, record);
    assert forall|i: int, j: int| 0 <= i < j < r.len() implies (#[trigger] r[i]).0.value() != (
    #[trigger] r[j]).0.value() by {
        match index_of(entries, key.value()) {
            Some(at) => {
                if i != at && j != at {
                    assert(entries[i].0.value() != entries[j].0.value());
                } else if i == at {
                    assert(entries[at].0.value() != entries[j].0.value());
                } else {
                    assert(entries[i].0.value() != entries[at].0.value());
                }
            },
            None => {
                if j < entries.len() {
                    assert(entries[i].0.value() != entries[j].0.value());
                }
            },
        }
    }
}

/// In the list that [`collected`] gives no id stands twice.
pub proof fn lemma_collected_distinct<K: UuidKey, V>(pairs: Seq<(K, V)>)
    ensures
        distinct_ids(collected(pairs)),
    decreases pairs.len(),
{
    if pairs.len() > 0 {
        lemma_collected_distinct(pairs.drop_last());
        lemma_put_distinct(collected(pairs.drop_last()), pairs.last().0, pairs.last().1);
    }
}

/// The index of the entry with the id `key`.
pub fn find<K: UuidKey, V>(entries: &Vec<(K, V)>, key: &K) -> (r: Option<usize>)
    ensures
        match r {
            Some(i) => i < entries@.len() && index_of(entries@, key.value()) == Some(i as int),
            None => index_of(entries@, key.value()) is None,
        },
{
    let wanted: u128 = key.as_u128();
    let mut i: usize = 0;
    while i < entries.len()
        invariant
            i <= entries@.len(),
            wanted == key.value(),
            forall|j: int| 0 <= j < i ==> entries@[j].0.value() != wanted,
        decreases entries@.len() - i,
    {
        if entries[i].0.as_u128() == wanted {
            proof {
                lemma_index_of(entries@, wanted);
            }
            return Some(i);
        }
        i = i + 1;
    }
    proof {
        lemma_index_of(entries@, wanted);
    }
    None
}

/// Puts records under their ids, one after the other: a record whose id is
/// already there takes the place of the earlier one.
pub fn collect<K: UuidKey, V>(pairs: Vec<(K, V)>) -> (r: Vec<(K, V)>)
    ensures
        r@ == collected(pairs@),
        distinct_ids(r@),
{
    let ghost all = pairs@;
    let mut rest = reversed(pairs);
    let mut entries: Vec<(K, V)> = Vec::new();
    assert(all.subrange(0, 0) =~= Seq::<(K, V)>::empty());
    while rest.len() > 0
        invariant
            rest@.len() <= all.len(),
            rest@ == all.reverse().subrange(0, rest@.len() as int),
            entries@ == collected(all.subrange(0, all.len() - rest@.len())),
        decreases rest@.len(),
    {
        let ghost done = all.len() - rest@.len();
        let (key, record) = rest.pop().unwrap();
        proof {
            assert((key, record) == all[done]);
            assert(all.subrange(0, done + 1).drop_last() =~= all.subrange(0, done));
        }
        match find(&entries, &key) {
            Some(i) => {
                entries.set(i, (key, record));
            },
            None => {
                entries.push((key, record));
            },
        }
    }
    assert(all.subrange(0, all.len() as int) =~= all);
    proof {
        lemma_collected_distinct(all);
    }
    entries
}

/// The index of the first item of a list of which `wanted` holds.
pub open spec fn first_where<T>(items: Seq<T>, wanted: spec_fn(T) -> bool) -> Option<int>
    decreases items.len(),
{
    if items.len() == 0 {
        None
    } else {
        match first_where(items.drop_last(), wanted) {
            Some(i) => Some(i),
            None => if wanted(items.last()) {
                Some(items.len() - 1)
            } else {
                None
            },
        }
    }
}

/// The index that [`first_where`] gives is the first of which `wanted` holds.
pub proof fn lemma_first_where<T>(items: Seq<T>, wanted: spec_fn(T) -> bool)
    ensures
        match first_where(items, wanted) {
            Some(i) => 0 <= i < items.len() && wanted(items[i]) && forall|j: int|
                0 <= j < i ==> !wanted(items[j]),
            None => forall|j: int| 0 <= j < items.len() ==> !wanted(items[j]),
        },
    decreases items.len(),
{
    if items.len() > 0 {
        lemma_first_where(items.drop_last(), wanted);
        assert forall|j: int| 0 <= j < items.len() - 1 implies items.drop_last()[j]
            == items[j] by {}
        match first_where(items.drop_last(), wanted) {
            Some(i) => {
                assert(items.drop_last()[i] == items[i]);
                assert forall|j: int| 0 <= j < i implies !wanted(items[j]) by {
                    assert(items.drop_last()[j] == items[j]);
                }
            },
            None => {
                assert forall|j: int| 0 <= j < items.len() - 1 implies !wanted(items[j]) by {
                    assert(items.drop_last()[j] == items[j]);
                }
            },
        }
    }
}

/// [`first_where`] gives an index if and only if `wanted` holds of some item.
pub proof fn lemma_first_where_exists<T>(items: Seq<T>, wanted: spec_fn(T) -> bool)
    ensures
        first_where(items, wanted) is Some <==> exists|i: int|
            0 <= i < items.len() && wanted(#[trigger] items[i]),
{
    lemma_first_where(items, wanted);
}

/// An index of which `wanted` holds, and before which it holds of none, is
/// the one that [`first_where`] gives.
pub proof fn lemma_first_where_is<T>(items: Seq<T>, wanted: spec_fn(T) -> bool, i: int)
    requires
        0 <= i < items.len(),
        wanted(items[i]),
        forall|j: int| 0 <= j < i ==> !wanted(items[j]),
    ensures
        first_where(items, wanted) == Some(i),
{
    lemma_first_where(items, wanted);
}

/// Where `wanted` holds of no item, [`first_where`] gives nothing.
pub proof fn lemma_first_where_none<T>(items: Seq<T>, wanted: spec_fn(T) -> bool)
    requires
        forall|j: int| 0 <= j < items.len() ==> !wanted(items[j]),
    ensures
        first_where(items, wanted) is None,
{
    lemma_first_where(items, wanted);
}

/// Whether `records` are what a decoder made of `files`, one for one: each
/// record has the id of its file and is a value that the decoder gives for
/// the bytes of the file.
pub open spec fn decoded_by<K: UuidKey, V, F: Fn(Vec<u8>) -> Result<V, NoteError>>(
    decode: F,
    files: Seq<(u128, Vec<u8>)>,
    records: Seq<(K, V)>,
) -> bool {
    &&& records.len() == files.len()
    &&& forall|i: int|
        0 <= i < files.len() ==> (#[trigger] records[i]).0.value() == files[i].0 && decode.ensures(
            (files[i].1,),
            Ok::<V, NoteError>(records[i].1),
        )
}

/// Whether `fault` is the error with which a decoder rejects the first of
/// `files` that it rejects: it gives a record for each file before that one.
pub open spec fn rejected_by<K: UuidKey, V, F: Fn(Vec<u8>) -> Result<V, NoteError>>(
    decode: F,
    files: Seq<(u128, Vec<u8>)>,
    fault: NoteError,
) -> bool {
    exists|n: int, records: Seq<(K, V)>|
        0 <= n < files.len() && #[trigger] decoded_by(decode, files.subrange(0, n), records)
            && decode.ensures((files[n].1,), Err::<V, NoteError>(fault))
}

/// Decodes the bytes of each file, in order, and stops at the first file that
/// the decoder rejects.
pub fn decode_files<K: UuidKey, V, F: Fn(Vec<u8>) -> Result<V, NoteError>>(
    files: Vec<(u128, Vec<u8>)>,
    decode: &F,
) -> (r: Result<Vec<(K, V)>, NoteError>)
    requires
        forall|bytes: Vec<u8>| decode.requires((bytes,)),
    ensures
        match r {
            Ok(records) => decoded_by(*decode, files@, records@),
            Err(fault) => rejected_by::<K, V, F>(*decode, files@, fault),
        },
{
    let ghost all = files@;
    let mut rest = reversed(files);
    let mut records: Vec<(K, V)> = Vec::new();
    while rest.len() > 0
        invariant
            all == files@,
            rest@.len() <= all.len(),
            rest@ == all.reverse().subrange(0, rest@.len() as int),
            forall|bytes: Vec<u8>| decode.requires((bytes,)),
            decoded_by(*decode, all.subrange(0, all.len() - rest@.len()), records@),
        decreases rest@.len(),
    {
        let ghost done = all.len() - rest@.len();
        let ghost before = records@;
        let (id, bytes) = rest.pop().unwrap();
        proof {
            assert((id, bytes) == all[done]);
        }
        match decode(bytes) {
            Err(fault) => {
                assert(decoded_by(*decode, all.subrange(0, done), before));
                return Err(fault);
            },
            Ok(record) => {
                records.push((K::from_value(id), record));
                proof {
                    let head = all.subrange(0, done + 1);
                    assert forall|i: int| 0 <= i < head.len() implies (#[trigger] records@[i]).0.value()
                        == head[i].0 && decode.ensures(
                        (head[i].1,),
                        Ok::<V, NoteError>(records@[i].1),
                    ) by {
                        if i < done {
                            assert(records@[i] == before[i]);
                            assert(all.subrange(0, done)[i] == head[i]);
                        }
                    }
                }
            },
        }
    }
    assert(all.subrange(0, all.len() as int) =~= all);
    Ok(records)
}

} // verus!
