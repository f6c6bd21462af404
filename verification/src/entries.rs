//! How the entries of a note are named: an entry holds the id of its record
//! in its file name, alone or between `#` signs.

use vstd::prelude::*;
use crate::container::{entry_bytes, listing, Container};
use crate::error::{agrees, Failure, NoteError};
use crate::id::{parse_uuid, uuid_of_text, UuidKey};
use crate::table::{collect, collected};
use crate::text::{
    after_last, decimal_u64, join, nth_part, parse_failure_text, parse_u64, part, replace_all,
    replaced, tail_after_last,
};

verus! {

/// How the file name of an entry holds the id of its record.
#[derive(Clone, Copy, Debug, PartialEq, Eq, Structural)]
pub enum Naming {
    /// The file name is the id.
    Plain,
    /// The file name is the id of the page, `#`, the id, `#` and more.
    Sharded,
    /// As `Sharded`, and what follows the second `#` is a number of
    /// milliseconds and the ending `.zip`.
    Stamped,
}

/// The text of the id in the name of an entry.
pub open spec fn id_text(name: Seq<char>, naming: Naming) -> Seq<char> {
    let file = after_last(name, '/');
    match naming {
        Naming::Plain => file,
        _ => part(file, '#', 1),
    }
}

/// The text of the timestamp in the name of an entry: what follows the second
/// `#`, without the ending `.zip`.
pub open spec fn stamp_text(name: Seq<char>) -> Seq<char> {
    replaced(part(after_last(name, '/'), '#', 2), ".zip"@, ""@)
}

/// The message of the error for a timestamp that is no number.
pub open spec fn stamp_failure(name: Seq<char>) -> Seq<char> {
    "Failed to parse timestamp: "@ + parse_failure_text(stamp_text(name))
}

/// The id that the name of an entry holds. The id is looked at first, then
/// the timestamp where the name has one.
pub open spec fn named_id(name: Seq<char>, naming: Naming) -> Result<u128, Failure> {
    match uuid_of_text(id_text(name, naming)) {
        Err(k) => Err(k),
        Ok(id) => if naming == Naming::Stamped && decimal_u64(stamp_text(name)) is None {
            Err(Failure::InvalidTimestampFormat(stamp_failure(name)))
        } else {
            Ok(id)
        },
    }
}

/// Reads the id out of the name of an entry.
pub fn id_of_name(name: &str, naming: Naming) -> (r: Result<u128, NoteError>)
    ensures
        agrees(r, named_id(name@, naming)),
{
    let file: &str = tail_after_last(name, '/');
    let text: &str = match naming {
        Naming::Plain => file,
        _ => nth_part(file, '#', 1),
    };
    let id = match parse_uuid(text) {
        Ok(v) => v,
        Err(e) => {
            return Err(e);
        },
    };
    match naming {
        Naming::Stamped => {
            proof {
                reveal_strlit(".zip");
            }
            let stamp: String = replace_all(nth_part(file, '#', 2), ".zip", "");
            match parse_u64(stamp.as_str()) {
                Ok(_) => Ok(id),
                Err(message) => Err(
                    NoteError::InvalidTimestampFormat(
                        join("Failed to parse timestamp: ", message.as_str()),
                    ),
                ),
            }
        },
        _ => Ok(id),
    }
}

/// The id and the bytes of an entry: the id is read from the name, then the
/// entry is unpacked.
pub open spec fn file_by_id(
    lookup: Map<Seq<char>, int>,
    opens: Seq<bool>,
    data: Seq<Option<Seq<u8>>>,
    path: Seq<char>,
    naming: Naming,
) -> Result<(u128, Seq<u8>), Failure> {
    match named_id(path, naming) {
        Err(k) => Err(k),
        Ok(id) => match entry_bytes(lookup, opens, data, path) {
            Err(k) => Err(k),
            Ok(bytes) => Ok((id, bytes)),
        },
    }
}

/// The ids and the bytes of a list of entries, in the order of the list; the
/// first entry that cannot be read decides the outcome.
pub open spec fn files_by_id(
    lookup: Map<Seq<char>, int>,
    opens: Seq<bool>,
    data: Seq<Option<Seq<u8>>>,
    paths: Seq<Seq<char>>,
    naming: Naming,
) -> Result<Seq<(u128, Seq<u8>)>, Failure>
    decreases paths.len(),
{
    if paths.len() == 0 {
        Ok(Seq::empty())
    } else {
        match files_by_id(lookup, opens, data, paths.drop_last(), naming) {
            Err(k) => Err(k),
            Ok(files) => match file_by_id(lookup, opens, data, paths.last(), naming) {
                Err(k) => Err(k),
                Ok(file) => Ok(files.push(file)),
            },
        }
    }
}

/// Where the first `n` entries of a list cannot be read, the list cannot be
/// read, for the same reason.
pub proof fn lemma_files_fail_on(
    lookup: Map<Seq<char>, int>,
    opens: Seq<bool>,
    data: Seq<Option<Seq<u8>>>,
    paths: Seq<Seq<char>>,
    naming: Naming,
    n: int,
)
    requires
        0 <= n <= paths.len(),
        files_by_id(lookup, opens, data, paths.subrange(0, n), naming) is Err,
    ensures
        files_by_id(lookup, opens, data, paths, naming) == files_by_id(
            lookup,
            opens,
            data,
            paths.subrange(0, n),
            naming,
        ),
    decreases paths.len() - n,
{
    if n == paths.len() {
        assert(paths.subrange(0, n) =~= paths);
    } else {
        assert(paths.subrange(0, n + 1).drop_last() =~= paths.subrange(0, n));
        lemma_files_fail_on(lookup, opens, data, paths, naming, n + 1);
    }
}

/// The ids and the bytes that a list of files holds.
pub open spec fn file_views(files: Seq<(u128, Vec<u8>)>) -> Seq<(u128, Seq<u8>)> {
    files.map_values(|file: (u128, Vec<u8>)| (file.0, file.1@))
}

/// Reads the id and the bytes of one entry of a container.
pub fn read_file_by_id(container: &mut Container, path: &str, naming: Naming) -> (r: Result<
    (u128, Vec<u8>),
    NoteError,
>)
    requires
        old(container).wf(),
    ensures
        final(container).wf(),
        final(container).same_entries(*old(container)),
        match file_by_id(
            old(container).lookup(),
            old(container).opens(),
            old(container).data(),
            path@,
            naming,
        ) {
            Ok(file) => r is Ok && r->Ok_0.0 == file.0 && r->Ok_0.1@ == file.1,
            Err(k) => r is Err && r->Err_0.failure() == k,
        },
{
    let id = match id_of_name(path, naming) {
        Ok(v) => v,
        Err(e) => {
            return Err(e);
        },
    };
    match container.get_file_absolute(path) {
        Ok(bytes) => Ok((id, bytes)),
        Err(e) => Err(e),
    }
}

/// Reads the ids and the bytes of a list of entries of a container.
pub fn read_files_by_id(container: &mut Container, paths: &Vec<String>, naming: Naming) -> (r:
    Result<Vec<(u128, Vec<u8>)>, NoteError>)
    requires
        old(container).wf(),
    ensures
        final(container).wf(),
        final(container).same_entries(*old(container)),
        match files_by_id(
            old(container).lookup(),
            old(container).opens(),
            old(container).data(),
            crate::container::texts(paths@),
            naming,
        ) {
            Ok(files) => r is Ok && file_views(r->Ok_0@) == files,
            Err(k) => r is Err && r->Err_0.failure() == k,
        },
{
    let ghost lookup = container.lookup();
    let ghost opens = container.opens();
    let ghost data = container.data();
    let ghost all = crate::container::texts(paths@);
    let mut files: Vec<(u128, Vec<u8>)> = Vec::new();
    let mut i: usize = 0;
    assert(all.subrange(0, 0) =~= Seq::<Seq<char>>::empty());
    assert(file_views(files@) =~= Seq::<(u128, Seq<u8>)>::empty());
    while i < paths.len()
        invariant
            i <= paths@.len(),
            all == crate::container::texts(paths@),
            container.wf(),
            container.same_entries(*old(container)),
            lookup == old(container).lookup(),
            opens == old(container).opens(),
            data == old(container).data(),
            files_by_id(lookup, opens, data, all.subrange(0, i as int), naming) == Ok::<
                Seq<(u128, Seq<u8>)>,
                Failure,
            >(file_views(files@)),
        decreases paths@.len() - i,
    {
        proof {
            assert(all.subrange(0, i + 1).drop_last() =~= all.subrange(0, i as int));
            assert(all.subrange(0, i + 1).last() == paths@[i as int]@);
        }
        match read_file_by_id(container, paths[i].as_str(), naming) {
            Err(e) => {
                proof {
                    lemma_files_fail_on(lookup, opens, data, all, naming, i + 1);
                }
                return Err(e);
            },
            Ok(file) => {
                let ghost before = files@;
                files.push(file);
                assert(file_views(files@) =~= file_views(before).push((file.0, file.1@)));
            },
        }
        i = i + 1;
    }
    assert(all.subrange(0, i as int) =~= all);
    Ok(files)
}

/// Whether a decoder gives `r` for a file with the given bytes.
pub open spec fn decoded_from<V, F: Fn(Vec<u8>) -> Result<V, NoteError>>(
    decode: F,
    bytes: Seq<u8>,
    r: Result<V, NoteError>,
) -> bool {
    exists|read: Vec<u8>| #[trigger] read@ == bytes && decode.ensures((read,), r)
}

/// Whether `record` is what reading and decoding one entry gave: the entry
/// can be read, and the record has the id of its name and is a value that the
/// decoder gives for its bytes.
pub open spec fn record_of<K: UuidKey, V, F: Fn(Vec<u8>) -> Result<V, NoteError>>(
    lookup: Map<Seq<char>, int>,
    opens: Seq<bool>,
    data: Seq<Option<Seq<u8>>>,
    path: Seq<char>,
    naming: Naming,
    decode: F,
    record: (K, V),
) -> bool {
    match file_by_id(lookup, opens, data, path, naming) {
        Err(_) => false,
        Ok(file) => record.0.value() == file.0 && decoded_from(
            decode,
            file.1,
            Ok::<V, NoteError>(record.1),
        ),
    }
}

/// Whether `records` are what reading and decoding a list of entries gave,
/// one for one.
pub open spec fn records_of<K: UuidKey, V, F: Fn(Vec<u8>) -> Result<V, NoteError>>(
    lookup: Map<Seq<char>, int>,
    opens: Seq<bool>,
    data: Seq<Option<Seq<u8>>>,
    paths: Seq<Seq<char>>,
    naming: Naming,
    decode: F,
    records: Seq<(K, V)>,
) -> bool {
    &&& records.len() == paths.len()
    &&& forall|i: int|
        0 <= i < paths.len() ==> record_of(
            lookup,
            opens,
            data,
            paths[i],
            naming,
            decode,
            #[trigger] records[i],
        )
}

/// What loading the records under a prefix gives. The entries under the
/// prefix are taken one after the other: the id of an entry is read from its
/// name, the entry is unpacked, and its bytes are handed to the decoder. The
/// first entry at which one of these fails decides the error; where none
/// fails, the records are put under their ids.
pub open spec fn loading<K: UuidKey, V, F: Fn(Vec<u8>) -> Result<V, NoteError>>(
    container: Container,
    prefix: Seq<char>,
    naming: Naming,
    decode: F,
    r: Result<Seq<(K, V)>, NoteError>,
) -> bool {
    let lookup = container.lookup();
    let opens = container.opens();
    let data = container.data();
    let paths = listing(container.names(), container.resolved(prefix));
    match r {
        Ok(records) => exists|decoded: Seq<(K, V)>|
            #[trigger] records_of(lookup, opens, data, paths, naming, decode, decoded) && records
                == collected(decoded),
        Err(fault) => exists|n: int, decoded: Seq<(K, V)>|
            0 <= n < paths.len() && #[trigger] records_of(
                lookup,
                opens,
                data,
                paths.subrange(0, n),
                naming,
                decode,
                decoded,
            ) && match file_by_id(lookup, opens, data, paths[n], naming) {
                Err(k) => fault.failure() == k,
                Ok(file) => decoded_from(decode, file.1, Err::<V, NoteError>(fault)),
            },
    }
}

/// The records that a result holds.
pub open spec fn record_views<K, V>(r: Result<Vec<(K, V)>, NoteError>) -> Result<
    Seq<(K, V)>,
    NoteError,
> {
    match r {
        Ok(records) => Ok(records@),
        Err(fault) => Err(fault),
    }
}

/// Loads the records that lie under a prefix: takes the entries under the
/// prefix one after the other, reads the id and the bytes of each and decodes
/// the bytes, and puts the records under their ids.
pub fn load_records<K: UuidKey, V, F: Fn(Vec<u8>) -> Result<V, NoteError>>(
    container: &mut Container,
    prefix: &str,
    naming: Naming,
    decode: &F,
) -> (r: Result<Vec<(K, V)>, NoteError>)
    requires
        old(container).wf(),
        forall|bytes: Vec<u8>| decode.requires((bytes,)),
    ensures
        final(container).wf(),
        final(container).same_entries(*old(container)),
        loading(*old(container), prefix@, naming, *decode, record_views(r)),
{
    let paths: Vec<String> = container.list_directory(prefix);
    let ghost lookup = container.lookup();
    let ghost opens = container.opens();
    let ghost data = container.data();
    let ghost all = crate::container::texts(paths@);
    let mut decoded: Vec<(K, V)> = Vec::new();
    let mut i: usize = 0;
    while i < paths.len()
        invariant
            i <= paths@.len(),
            all == crate::container::texts(paths@),
            all == listing(old(container).names(), old(container).resolved(prefix@)),
            container.wf(),
            container.same_entries(*old(container)),
            lookup == old(container).lookup(),
            opens == old(container).opens(),
            data == old(container).data(),
            forall|bytes: Vec<u8>| decode.requires((bytes,)),
            records_of(lookup, opens, data, all.subrange(0, i as int), naming, *decode, decoded@),
        decreases paths@.len() - i,
    {
        let ghost before = decoded@;
        proof {
            assert(all[i as int] == paths@[i as int]@);
        }
        let (id, bytes) = match read_file_by_id(container, paths[i].as_str(), naming) {
            Ok(file) => file,
            Err(e) => {
                return Err(e);
            },
        };
        let ghost read = bytes;
        match decode(bytes) {
            Err(e) => {
                proof {
                    assert(read@ == read@);
                }
                return Err(e);
            },
            Ok(record) => {
                decoded.push((K::from_value(id), record));
                proof {
                    assert(read@ == read@);
                    let head = all.subrange(0, i + 1);
                    assert(decode.ensures((read,), Ok::<V, NoteError>(record)));
                    assert(decoded_from(*decode, read@, Ok::<V, NoteError>(record)));
                    assert forall|j: int| 0 <= j < head.len() implies record_of(
                        lookup,
                        opens,
                        data,
                        head[j],
                        naming,
                        *decode,
                        #[trigger] decoded@[j],
                    ) by {
                        if j < i {
                            assert(decoded@[j] == before[j]);
                            assert(all.subrange(0, i as int)[j] == head[j]);
                        } else {
                            assert(head[j] == paths@[i as int]@);
                            assert(decoded@[j].1 == record);
                        }
                    }
                    assert(decoded@.len() == head.len());
                    assert(records_of(lookup, opens, data, head, naming, *decode, decoded@));
                }
            },
        }
        i = i + 1;
    }
    assert(all.subrange(0, i as int) =~= all);
    Ok(collect(decoded))
}

} // verus!
