//! The archive that holds the notes: which kind of container it is, where
//! its root directory lies, and how the entries of a note are found in it.

use vstd::prelude::*;
use vstd::string::{StrSliceExecFns, StringExecFns};
use crate::error::{Failure, NoteError};
use crate::text::{
    ends_with, find_from, first_index_of, has_last_char, has_prefix, join,
};

verus! {

/// The archive reader of the zip crate, `zip::ZipArchive`.
#[verifier::external_type_specification]
#[verifier::external_body]
#[verifier::reject_recursive_types(R)]
pub struct ExZipArchive<R>(zip::ZipArchive<R>);

/// A position in a buffer of bytes, `std::io::Cursor`.
#[verifier::external_type_specification]
#[verifier::external_body]
#[verifier::reject_recursive_types(T)]
pub struct ExCursor<T>(std::io::Cursor<T>);

/// The names of the entries of an archive, in the order of its central
/// directory.
pub uninterp spec fn archive_names(
    archive: zip::ZipArchive<std::io::Cursor<std::sync::Arc<[u8]>>>,
) -> Seq<Seq<char>>;

/// For each entry of an archive, whether the archive reader can open it.
pub uninterp spec fn archive_opens(
    archive: zip::ZipArchive<std::io::Cursor<std::sync::Arc<[u8]>>>,
) -> Seq<bool>;

/// For each entry of an archive, the bytes that it unpacks to, where it can
/// be read to its end.
pub uninterp spec fn archive_data(
    archive: zip::ZipArchive<std::io::Cursor<std::sync::Arc<[u8]>>>,
) -> Seq<Option<Seq<u8>>>;

/// For each name that `zip::ZipArchive::index_for_name` finds in an archive,
/// the index of the entry of that name.
pub uninterp spec fn archive_lookup(
    archive: zip::ZipArchive<std::io::Cursor<std::sync::Arc<[u8]>>>,
) -> Map<Seq<char>, int>;

/// What `zip::ZipArchive::new` makes of the bytes of a file: nothing where it
/// rejects them, else the names of the entries, the index of the entry of
/// each name that can be looked up, whether each entry opens, and the bytes
/// that each unpacks to.
pub uninterp spec fn zip_entries(data: Seq<u8>) -> Option<
    (Seq<Seq<char>>, Map<Seq<char>, int>, Seq<bool>, Seq<Option<Seq<u8>>>),
>;

/// Opens an archive that lies in memory, with `zip::ZipArchive::new`. The
/// contract gives the outcome the name [`zip_entries`]: the call succeeds
/// exactly where that name holds entries, and the archive then shows those
/// entries.
#[verifier::external_body]
pub(crate) fn open_archive(data: Vec<u8>) -> (r: Result<
    zip::ZipArchive<std::io::Cursor<std::sync::Arc<[u8]>>>,
    zip::result::ZipError,
>)
    ensures
        r is Ok <==> zip_entries(data@) is Some,
        r matches Ok(archive) ==> zip_entries(data@) == Some(
            (
                archive_names(archive),
                archive_lookup(archive),
                archive_opens(archive),
                archive_data(archive),
            ),
        ),
{
    zip::ZipArchive::new(std::io::Cursor::new(std::sync::Arc::from(data)))
}

/// The number of entries, by `zip::ZipArchive::len`. The contract claims that
/// the names, the entries that open and the data are as many.
#[verifier::external_body]
pub(crate) fn entry_count(
    archive: &zip::ZipArchive<std::io::Cursor<std::sync::Arc<[u8]>>>,
) -> (n: usize)
    ensures
        n == archive_names(*archive).len(),
        n == archive_opens(*archive).len(),
        n == archive_data(*archive).len(),
{
    archive.len()
}

/// The name of the entry at `index`, by `zip::ZipArchive::name_for_index`.
/// The contract claims that each index below the number of entries has a
/// name, the one that [`archive_names`] holds at that index, and that no
/// entry lies past the last index. The zip crate decodes a name as UTF-8,
/// and one that is not UTF-8 from code page 437, which has a character for
/// every byte, so decoding does not fail.
#[verifier::external_body]
pub(crate) fn entry_name(
    archive: &zip::ZipArchive<std::io::Cursor<std::sync::Arc<[u8]>>>,
    index: usize,
) -> (r: Result<String, zip::result::ZipError>)
    ensures
        r is Ok <==> index < archive_names(*archive).len(),
        r matches Ok(name) ==> name@ == archive_names(*archive)[index as int],
{
    match archive.name_for_index(index) {
        Some(Ok(name)) => Ok(name.into_owned()),
        Some(Err(e)) => Err(e),
        None => Err(zip::result::ZipError::FileNotFound),
    }
}

/// Looks an entry up by its name, with `zip::ZipArchive::index_for_name`. The
/// contract gives the answer the name [`archive_lookup`] and claims that an
/// index that is found lies below the number of entries and that the entry
/// at it has the name that was asked for: the zip crate compares the bytes of
/// the name with the undecoded names, and an undecoded name that is the bytes
/// of a text decodes to that text.
#[verifier::external_body]
pub(crate) fn entry_index(
    archive: &zip::ZipArchive<std::io::Cursor<std::sync::Arc<[u8]>>>,
    name: &str,
) -> (r: Option<usize>)
    ensures
        r is Some <==> archive_lookup(*archive).contains_key(name@),
        r matches Some(i) ==> archive_lookup(*archive)[name@] == i && i < archive_names(
            *archive,
        ).len() && archive_names(*archive)[i as int] == name@,
{
    archive.index_for_name(name)
}

/// Unpacks the entry at `index`, by `zip::ZipArchive::by_index` and
/// `std::io::Read::read_to_end`. The contract claims that the outer result
/// says whether the entry opened, the inner one whether it was read to its
/// end, and that the bytes are those that [`archive_data`] holds for it; and
/// that reading leaves the entries of the archive as they were.
#[verifier::external_body]
pub(crate) fn read_entry(
    archive: &mut zip::ZipArchive<std::io::Cursor<std::sync::Arc<[u8]>>>,
    index: usize,
) -> (r: Result<Result<Vec<u8>, std::io::Error>, zip::result::ZipError>)
    requires
        index < archive_names(*old(archive)).len(),
    ensures
        archive_names(*final(archive)) == archive_names(*old(archive)),
        archive_lookup(*final(archive)) == archive_lookup(*old(archive)),
        archive_opens(*final(archive)) == archive_opens(*old(archive)),
        archive_data(*final(archive)) == archive_data(*old(archive)),
        r is Ok <==> archive_opens(*old(archive))[index as int],
        r matches Ok(inner) ==> (inner is Ok <==> archive_data(*old(archive))[index as int]
            is Some),
        r matches Ok(Ok(bytes)) ==> archive_data(*old(archive))[index as int] == Some(bytes@),
{
    match archive.by_index(index) {
        Ok(mut file) => {
            let mut bytes = Vec::new();
            Ok(std::io::Read::read_to_end(&mut file, &mut bytes).map(|_| bytes))
        },
        Err(e) => Err(e),
    }
}

/// A second handle on the same archive, by the `Clone` of
/// `zip::ZipArchive`, which shares the directory and the bytes. The contract
/// claims that both handles show the same entries.
#[verifier::external_body]
pub(crate) fn share_archive(
    archive: &zip::ZipArchive<std::io::Cursor<std::sync::Arc<[u8]>>>,
) -> (r: zip::ZipArchive<std::io::Cursor<std::sync::Arc<[u8]>>>)
    ensures
        archive_names(r) == archive_names(*archive),
        archive_lookup(r) == archive_lookup(*archive),
        archive_opens(r) == archive_opens(*archive),
        archive_data(r) == archive_data(*archive),
{
    archive.clone()
}

/// The error of the zip crate for an entry that the archive does not hold,
/// `zip::result::ZipError::FileNotFound`.
#[verifier::external_body]
pub(crate) fn entry_not_found() -> zip::result::ZipError {
    zip::result::ZipError::FileNotFound
}

/// The two kinds of container.
#[derive(Clone, Copy, Debug, PartialEq, Eq, Structural)]
pub enum ContainerType {
    /// One note; the paths of its entries are used as they are.
    SingleNote,
    /// Several notes under a root directory that holds the entry `note_tree`.
    MultiNote,
}

/// The name of the root directory of an archive whose first entry is
/// `first`: what stands before the first `/`, where there is a `/` and
/// something stands before it.
pub open spec fn root_of(first: Seq<char>) -> Option<Seq<char>> {
    let cut = first_index_of(first, '/');
    if 0 < cut < first.len() {
        Some(first.subrange(0, cut))
    } else {
        None
    }
}

/// The name of the entry that makes a container one of several notes.
pub open spec fn note_tree_entry(root: Seq<char>) -> Seq<char> {
    root + seq!['/', 'n', 'o', 't', 'e', '_', 't', 'r', 'e', 'e']
}

/// The kind of a container with the given root directory and entries.
pub open spec fn kind_of(root: Seq<char>, lookup: Map<Seq<char>, int>) -> ContainerType {
    if lookup.contains_key(note_tree_entry(root)) {
        ContainerType::MultiNote
    } else {
        ContainerType::SingleNote
    }
}

/// The name in the archive of the entry at a path that is relative to the
/// notes of a container.
pub open spec fn resolve(kind: ContainerType, root: Seq<char>, path: Seq<char>) -> Seq<char> {
    match kind {
        ContainerType::SingleNote => path,
        ContainerType::MultiNote => root + seq!['/'] + path,
    }
}

/// Whether an entry is a file under the given prefix: its name starts with
/// the prefix and does not end with `/`.
pub open spec fn is_listed(name: Seq<char>, prefix: Seq<char>) -> bool {
    prefix.is_prefix_of(name) && !ends_with(name, '/')
}

/// The entries that are files under the given prefix, in archive order.
pub open spec fn listing(names: Seq<Seq<char>>, prefix: Seq<char>) -> Seq<Seq<char>>
    decreases names.len(),
{
    if names.len() == 0 {
        Seq::empty()
    } else if is_listed(names.last(), prefix) {
        listing(names.drop_last(), prefix).push(names.last())
    } else {
        listing(names.drop_last(), prefix)
    }
}

/// What reading the entry of a given name gives: the entry must exist, open,
/// and be read to its end.
pub open spec fn entry_bytes(
    lookup: Map<Seq<char>, int>,
    opens: Seq<bool>,
    data: Seq<Option<Seq<u8>>>,
    name: Seq<char>,
) -> Result<Seq<u8>, Failure> {
    if !lookup.contains_key(name) {
        Err(Failure::Zip)
    } else if !opens[lookup[name]] {
        Err(Failure::Zip)
    } else {
        match data[lookup[name]] {
            None => Err(Failure::Io),
            Some(bytes) => Ok(bytes),
        }
    }
}

/// The views of a list of texts.
pub open spec fn texts(names: Seq<String>) -> Seq<Seq<char>> {
    names.map_values(|name: String| name@)
}

/// An opened container.
pub struct Container {
    container_type: ContainerType,
    root_path: String,
    names: Vec<String>,
    archive: zip::ZipArchive<std::io::Cursor<std::sync::Arc<[u8]>>>,
}

impl Container {
    /// The names of the entries, in archive order.
    pub closed spec fn names(&self) -> Seq<Seq<char>> {
        texts(self.names@)
    }

    /// For each name that can be looked up, the index of its entry.
    pub closed spec fn lookup(&self) -> Map<Seq<char>, int> {
        archive_lookup(self.archive)
    }

    /// For each entry, whether it can be opened.
    pub closed spec fn opens(&self) -> Seq<bool> {
        archive_opens(self.archive)
    }

    /// For each entry, the bytes it unpacks to, where it can be read.
    pub closed spec fn data(&self) -> Seq<Option<Seq<u8>>> {
        archive_data(self.archive)
    }

    /// The kind of the container.
    pub closed spec fn kind(&self) -> ContainerType {
        self.container_type
    }

    /// The name of the root directory.
    pub closed spec fn root(&self) -> Seq<char> {
        self.root_path@
    }

    /// A container is well formed when its list of names is that of its
    /// archive, the root directory is that of its first entry, and its kind
    /// is what the lookup of the note tree in the archive says.
    pub closed spec fn wf(&self) -> bool {
        &&& texts(self.names@) == archive_names(self.archive)
        &&& self.names@.len() == archive_opens(self.archive).len()
        &&& self.names@.len() == archive_data(self.archive).len()
        &&& self.names@.len() > 0
        &&& root_of(self.names@[0]@) == Some(self.root_path@)
        &&& self.container_type == kind_of(self.root_path@, archive_lookup(self.archive))
        &&& self.container_type == ContainerType::MultiNote ==> texts(self.names@).contains(
            note_tree_entry(self.root_path@),
        )
    }

    /// Every container has an entry, its root directory is the first segment
    /// of the name of its first entry, and it holds several notes exactly
    /// where the archive finds the entry `note_tree` under the root directory,
    /// which is then among the names of its entries.
    pub proof fn lemma_kind_follows_entries(&self)
        requires
            self.wf(),
        ensures
            self.names().len() > 0,
            root_of(self.names()[0]) == Some(self.root()),
            self.kind() == ContainerType::MultiNote <==> self.lookup().contains_key(
                note_tree_entry(self.root()),
            ),
            self.kind() == ContainerType::SingleNote <==> !self.lookup().contains_key(
                note_tree_entry(self.root()),
            ),
            self.kind() == ContainerType::MultiNote ==> self.names().contains(
                note_tree_entry(self.root()),
            ),
    {
    }

    /// The name in the archive of the entry at a relative path.
    pub open spec fn resolved(&self, path: Seq<char>) -> Seq<char> {
        resolve(self.kind(), self.root(), path)
    }

    /// What reading the entry of a given name gives.
    pub open spec fn bytes_of(&self, name: Seq<char>) -> Result<Seq<u8>, Failure> {
        entry_bytes(self.lookup(), self.opens(), self.data(), name)
    }

    /// The kind of the container.
    pub fn container_type(&self) -> (kind: &ContainerType)
        ensures
            *kind == self.kind(),
    {
        &self.container_type
    }

    /// The name of the root directory.
    pub fn root_path(&self) -> (root: &str)
        ensures
            root@ == self.root(),
    {
        self.root_path.as_str()
    }

    /// The name in the archive of the entry at a relative path: the path
    /// itself in a container of one note, the path under the root directory
    /// in a container of several.
    pub fn get_file_path(&self, path: &str) -> (r: String)
        ensures
            r@ == self.resolved(path@),
    {
        match self.container_type {
            ContainerType::SingleNote => String::from_str(path),
            ContainerType::MultiNote => {
                proof {
                    reveal_strlit("/");
                    assert("/"@ =~= seq!['/']);
                }
                join(self.root_path.as_str(), "/").concat(path)
            },
        }
    }

    /// Makes a container of an opened archive. An archive without entries, or
    /// one whose first entry lies in no directory, is no container.
    pub fn from_archive(archive: zip::ZipArchive<std::io::Cursor<std::sync::Arc<[u8]>>>) -> (r:
        Result<Container, NoteError>)
        ensures
            match root_of_first(archive_names(archive)) {
                None => r is Err && r->Err_0.failure() == Failure::InvalidContainerFormat,
                Some(root) => {
                    &&& r is Ok
                    &&& r->Ok_0.wf()
                    &&& r->Ok_0.names() == archive_names(archive)
                    &&& r->Ok_0.lookup() == archive_lookup(archive)
                    &&& r->Ok_0.opens() == archive_opens(archive)
                    &&& r->Ok_0.data() == archive_data(archive)
                    &&& r->Ok_0.root() == root
                    &&& r->Ok_0.kind() == kind_of(root, archive_lookup(archive))
                },
            },
    {
        let count: usize = entry_count(&archive);
        let mut names: Vec<String> = Vec::new();
        let mut i: usize = 0;
        while i < count
            invariant
                i <= count,
                count == archive_names(archive).len(),
                names@.len() == i,
                forall|j: int| 0 <= j < i ==> names@[j]@ == archive_names(archive)[j],
            decreases count - i,
        {
            match entry_name(&archive, i) {
                Ok(name) => {
                    names.push(name);
                },
                Err(_) => {
                    assert(false);
                },
            }
            i = i + 1;
        }
        assert(texts(names@) =~= archive_names(archive));
        if count == 0 {
            return Err(NoteError::InvalidContainerFormat);
        }
        let first: &str = names[0].as_str();
        let cut: usize = find_from(first, '/', 0);
        assert(first@.skip(0) =~= first@);
        if cut == 0 || cut >= first.unicode_len() {
            return Err(NoteError::InvalidContainerFormat);
        }
        let root_path: String = String::from_str(first.substring_char(0, cut));
        proof {
            reveal_strlit("/note_tree");
            assert("/note_tree"@ =~= seq!['/', 'n', 'o', 't', 'e', '_', 't', 'r', 'e', 'e']);
        }
        let marker: String = join(root_path.as_str(), "/note_tree");
        let container_type = match entry_index(&archive, marker.as_str()) {
            Some(_) => ContainerType::MultiNote,
            None => ContainerType::SingleNote,
        };
        Ok(Container { container_type, root_path, names, archive })
    }

    /// Opens the container that the bytes of a file hold. Bytes that are no
    /// archive are rejected by the archive reader; an archive without
    /// entries, or one whose first entry lies in no directory, is no
    /// container.
    pub fn open(data: Vec<u8>) -> (r: Result<Container, NoteError>)
        ensures
            match zip_entries(data@) {
                None => r is Err && r->Err_0.failure() == Failure::Zip,
                Some(entries) => match root_of_first(entries.0) {
                    None => r is Err && r->Err_0.failure() == Failure::InvalidContainerFormat,
                    Some(root) => {
                        &&& r is Ok
                        &&& r->Ok_0.wf()
                        &&& r->Ok_0.names() == entries.0
                        &&& r->Ok_0.lookup() == entries.1
                        &&& r->Ok_0.opens() == entries.2
                        &&& r->Ok_0.data() == entries.3
                        &&& r->Ok_0.root() == root
                        &&& r->Ok_0.kind() == kind_of(root, entries.1)
                    },
                },
            },
    {
        match open_archive(data) {
            Ok(archive) => Container::from_archive(archive),
            Err(e) => Err(NoteError::Zip(e)),
        }
    }

    /// The names of the entries that are files under a relative path, in
    /// archive order, as full names of the archive.
    pub fn list_directory(&self, path: &str) -> (r: Vec<String>)
        requires
            self.wf(),
        ensures
            texts(r@) == listing(self.names(), self.resolved(path@)),
    {
        let prefix: String = self.get_file_path(path);
        let mut found: Vec<String> = Vec::new();
        let mut i: usize = 0;
        assert(texts(self.names@).subrange(0, 0) =~= Seq::<Seq<char>>::empty());
        assert(texts(found@) =~= Seq::<Seq<char>>::empty());
        while i < self.names.len()
            invariant
                i <= self.names@.len(),
                texts(found@) == listing(texts(self.names@).subrange(0, i as int), prefix@),
            decreases self.names@.len() - i,
        {
            let name: &str = self.names[i].as_str();
            proof {
                let next = texts(self.names@).subrange(0, i + 1);
                assert(next.drop_last() =~= texts(self.names@).subrange(0, i as int));
                assert(next.last() == name@);
            }
            if has_prefix(name, prefix.as_str()) && !has_last_char(name, '/') {
                let ghost before = found@;
                found.push(String::from_str(name));
                assert(texts(found@) =~= texts(before).push(name@));
            }
            i = i + 1;
        }
        assert(texts(self.names@).subrange(0, i as int) =~= texts(self.names@));
        found
    }

    /// The bytes of the entry of the given name of the archive.
    pub fn get_file_absolute(&mut self, path: &str) -> (r: Result<Vec<u8>, NoteError>)
        requires
            old(self).wf(),
        ensures
            final(self).wf(),
            final(self).same_entries(*old(self)),
            match old(self).bytes_of(path@) {
                Ok(bytes) => r is Ok && r->Ok_0@ == bytes,
                Err(k) => r is Err && r->Err_0.failure() == k,
            },
    {
        let index: usize = match entry_index(&self.archive, path) {
            Some(i) => i,
            None => {
                return Err(NoteError::Zip(entry_not_found()));
            },
        };
        match read_entry(&mut self.archive, index) {
            Err(e) => Err(NoteError::Zip(e)),
            Ok(Err(e)) => Err(NoteError::Io(e)),
            Ok(Ok(bytes)) => Ok(bytes),
        }
    }

    /// The bytes of the entry at a path that is relative to the notes of the
    /// container.
    pub fn get_file_relative(&mut self, path: &str) -> (r: Result<Vec<u8>, NoteError>)
        requires
            old(self).wf(),
        ensures
            final(self).wf(),
            final(self).same_entries(*old(self)),
            match old(self).bytes_of(old(self).resolved(path@)) {
                Ok(bytes) => r is Ok && r->Ok_0@ == bytes,
                Err(k) => r is Err && r->Err_0.failure() == k,
            },
    {
        let name: String = self.get_file_path(path);
        self.get_file_absolute(name.as_str())
    }

    /// Whether `r` is what `f` makes of the bytes of the entry of the given
    /// name: the error of the entry where it cannot be read, else a value
    /// that `f` gives for its bytes.
    pub open spec fn handed_to<T, F: FnOnce(Vec<u8>) -> Result<T, NoteError>>(
        &self,
        name: Seq<char>,
        f: F,
        r: Result<T, NoteError>,
    ) -> bool {
        match self.bytes_of(name) {
            Err(k) => r is Err && r->Err_0.failure() == k,
            Ok(bytes) => exists|read: Vec<u8>| #[trigger] read@ == bytes && f.ensures((read,), r),
        }
    }

    /// Unpacks the entry of the given name of the archive, hands its bytes to
    /// `f` and gives what `f` returns.
    pub fn with_file_absolute<T, F: FnOnce(Vec<u8>) -> Result<T, NoteError>>(
        &mut self,
        path: &str,
        f: F,
    ) -> (r: Result<T, NoteError>)
        requires
            old(self).wf(),
            forall|bytes: Vec<u8>| f.requires((bytes,)),
        ensures
            final(self).wf(),
            final(self).same_entries(*old(self)),
            old(self).handed_to(path@, f, r),
    {
        match self.get_file_absolute(path) {
            Ok(bytes) => {
                let ghost read = bytes;
                let r = f(bytes);
                assert(read@ == read@);
                r
            },
            Err(e) => Err(e),
        }
    }

    /// Unpacks the entry at a path that is relative to the notes of the
    /// container, hands its bytes to `f` and gives what `f` returns.
    pub fn with_file_relative<T, F: FnOnce(Vec<u8>) -> Result<T, NoteError>>(
        &mut self,
        path: &str,
        f: F,
    ) -> (r: Result<T, NoteError>)
        requires
            old(self).wf(),
            forall|bytes: Vec<u8>| f.requires((bytes,)),
        ensures
            final(self).wf(),
            final(self).same_entries(*old(self)),
            old(self).handed_to(old(self).resolved(path@), f, r),
    {
        let name: String = self.get_file_path(path);
        self.with_file_absolute(name.as_str(), f)
    }

    /// Whether the archive holds an entry of the given name.
    pub fn has_entry(&self, name: &str) -> (r: bool)
        ensures
            r == self.lookup().contains_key(name@),
    {
        entry_index(&self.archive, name).is_some()
    }

    /// Whether two containers show the same entries, root and kind.
    pub open spec fn same_entries(&self, other: Container) -> bool {
        &&& self.names() == other.names()
        &&& self.lookup() == other.lookup()
        &&& self.opens() == other.opens()
        &&& self.data() == other.data()
        &&& self.root() == other.root()
        &&& self.kind() == other.kind()
    }

    /// A second handle on the same archive. The handles share the bytes of
    /// the archive.
    pub fn share(&self) -> (r: Container)
        requires
            self.wf(),
        ensures
            r.wf(),
            r.same_entries(*self),
    {
        let mut names: Vec<String> = Vec::new();
        let mut i: usize = 0;
        while i < self.names.len()
            invariant
                i <= self.names@.len(),
                names@.len() == i,
                forall|j: int| 0 <= j < i ==> names@[j] == self.names@[j],
            decreases self.names@.len() - i,
        {
            names.push(self.names[i].clone());
            i = i + 1;
        }
        assert(names@ =~= self.names@);
        Container {
            container_type: self.container_type,
            root_path: self.root_path.clone(),
            names,
            archive: share_archive(&self.archive),
        }
    }
}

/// What reading the first entry of an archive gives: there must be one, it
/// must open and be read to its end.
pub open spec fn first_entry_bytes(opens: Seq<bool>, data: Seq<Option<Seq<u8>>>) -> Result<
    Seq<u8>,
    Failure,
> {
    if opens.len() == 0 || !opens[0] {
        Err(Failure::Zip)
    } else {
        match data[0] {
            None => Err(Failure::Io),
            Some(bytes) => Ok(bytes),
        }
    }
}

/// The bytes of the first entry of an archive.
pub fn first_entry(archive: &mut zip::ZipArchive<std::io::Cursor<std::sync::Arc<[u8]>>>) -> (r:
    Result<Vec<u8>, NoteError>)
    ensures
        archive_names(*final(archive)) == archive_names(*old(archive)),
        archive_lookup(*final(archive)) == archive_lookup(*old(archive)),
        archive_opens(*final(archive)) == archive_opens(*old(archive)),
        archive_data(*final(archive)) == archive_data(*old(archive)),
        match first_entry_bytes(archive_opens(*old(archive)), archive_data(*old(archive))) {
            Ok(bytes) => r is Ok && r->Ok_0@ == bytes,
            Err(k) => r is Err && r->Err_0.failure() == k,
        },
{
    if entry_count(archive) == 0 {
        return Err(NoteError::Zip(entry_not_found()));
    }
    match read_entry(archive, 0) {
        Err(e) => Err(NoteError::Zip(e)),
        Ok(Err(e)) => Err(NoteError::Io(e)),
        Ok(Ok(bytes)) => Ok(bytes),
    }
}

/// What reading the first entry of the archive in the given bytes gives.
pub open spec fn nested_bytes(data: Seq<u8>) -> Result<Seq<u8>, Failure> {
    match zip_entries(data) {
        None => Err(Failure::Zip),
        Some(entries) => first_entry_bytes(entries.2, entries.3),
    }
}

/// The bytes of the first entry of an archive that is itself the content of
/// an entry.
pub fn nested_record(data: Vec<u8>) -> (r: Result<Vec<u8>, NoteError>)
    ensures
        match nested_bytes(data@) {
            Ok(bytes) => r is Ok && r->Ok_0@ == bytes,
            Err(k) => r is Err && r->Err_0.failure() == k,
        },
{
    match open_archive(data) {
        Ok(mut archive) => first_entry(&mut archive),
        Err(e) => Err(NoteError::Zip(e)),
    }
}

/// The root directory of an archive with the given entries, if it has one.
pub open spec fn root_of_first(names: Seq<Seq<char>>) -> Option<Seq<char>> {
    if names.len() == 0 {
        None
    } else {
        root_of(names[0])
    }
}

} // verus!
