//! Reader for the `.note` containers written by Boox e-ink note-taking devices.
//!
//! A container is a ZIP archive that holds one or several notes. Each note
//! consists of protobuf records with embedded JSON documents, and of binary
//! points files that store the pen strokes of a page.
//!
//! The library finds the entries of a note in the archive, hands their bytes
//! out, turns the decoded records into typed values, decodes the points
//! files, and says which strokes painting a page draws, in which order.
//! Decoding protobuf and JSON is left to the caller.

pub mod container;
pub mod entries;
pub mod error;
pub mod id;
pub mod json;
pub mod note;
pub mod note_tree;
pub mod page;
pub mod page_model;
pub mod points;
pub mod render;
pub mod scalar;
pub mod shape;
pub mod table;
pub mod text;
pub mod utils;
pub mod virtual_doc;
pub mod virtual_page;

use std::collections::HashMap;
use vstd::prelude::*;
use crate::container::{
    entry_bytes, kind_of, resolve, root_of_first, zip_entries, Container, ContainerType,
};
use crate::error::{Failure, NoteError};
use crate::id::NoteUuid;
use crate::note::Note;
use crate::note_tree::{note_index, NoteMetadata, NoteTree};
use crate::text::join;

verus! {

broadcast use vstd::std_specs::hash::group_hash_axioms;

/// The path of the note tree, relative to the notes of a container.
pub open spec fn note_tree_path(kind: ContainerType, root: Seq<char>) -> Seq<char> {
    match kind {
        ContainerType::MultiNote => "note_tree"@,
        ContainerType::SingleNote => root + "/note/pb/note_info"@,
    }
}

/// The names of the notes, by the 128-bit value of their ids. Of two notes
/// with one id the later one gives the name.
pub open spec fn note_names(notes: Seq<NoteMetadata>) -> Map<u128, Seq<char>>
    decreases notes.len(),
{
    if notes.len() == 0 {
        Map::empty()
    } else {
        note_names(notes.drop_last()).insert(notes.last().note_id.0, notes.last().name@)
    }
}

/// The texts that a map holds.
pub open spec fn name_views(names: Map<u128, String>) -> Map<u128, Seq<char>> {
    Map::new(|id: u128| names.contains_key(id), |id: u128| names[id]@)
}

/// An opened container together with the metadata of its notes.
pub struct NoteFile {
    container: Container,
    note_tree: NoteTree,
}

impl NoteFile {
    /// The container.
    pub closed spec fn container(&self) -> Container {
        self.container
    }

    /// The note tree.
    pub closed spec fn tree(&self) -> NoteTree {
        self.note_tree
    }

    /// The metadata of the notes, in the order of the note tree.
    pub open spec fn notes(&self) -> Seq<NoteMetadata> {
        self.tree().notes@
    }

    /// A note file is well formed when its container is.
    pub open spec fn wf(&self) -> bool {
        self.container().wf()
    }

    /// The bytes of the note tree of a container. A container without the
    /// entry of its note tree is no container.
    pub fn note_tree_bytes(container: &mut Container) -> (r: Result<Vec<u8>, NoteError>)
        requires
            old(container).wf(),
        ensures
            final(container).wf(),
            final(container).same_entries(*old(container)),
            ({
                let name = old(container).resolved(
                    note_tree_path(old(container).kind(), old(container).root()),
                );
                if !old(container).lookup().contains_key(name) {
                    r is Err && r->Err_0.failure() == Failure::InvalidContainerFormat
                } else {
                    match old(container).bytes_of(name) {
                        Ok(bytes) => r is Ok && r->Ok_0@ == bytes,
                        Err(k) => r is Err && r->Err_0.failure() == k,
                    }
                }
            }),
    {
        let path: String = match container.container_type() {
            ContainerType::MultiNote => String::from_str("note_tree"),
            ContainerType::SingleNote => join(container.root_path(), "/note/pb/note_info"),
        };
        let name: String = container.get_file_path(path.as_str());
        if !container.has_entry(name.as_str()) {
            return Err(NoteError::InvalidContainerFormat);
        }
        container.get_file_absolute(name.as_str())
    }

    /// Reads the note tree of a container and decodes it with the given
    /// decoder.
    pub fn load<F: Fn(Vec<u8>) -> Result<NoteTree, NoteError>>(
        container: Container,
        decode: &F,
    ) -> (r: Result<NoteFile, NoteError>)
        requires
            container.wf(),
            forall|bytes: Vec<u8>| decode.requires((bytes,)),
        ensures
            r matches Ok(file) ==> file.wf() && file.container().same_entries(container),
            ({
                let name = container.resolved(note_tree_path(container.kind(), container.root()));
                if !container.lookup().contains_key(name) {
                    r is Err && r->Err_0.failure() == Failure::InvalidContainerFormat
                } else {
                    match container.bytes_of(name) {
                        Err(k) => r is Err && r->Err_0.failure() == k,
                        Ok(bytes) => exists|read: Vec<u8>|
                            #[trigger] read@ == bytes && match r {
                                Ok(file) => decode.ensures(
                                    (read,),
                                    Ok::<NoteTree, NoteError>(file.tree()),
                                ),
                                Err(fault) => decode.ensures(
                                    (read,),
                                    Err::<NoteTree, NoteError>(fault),
                                ),
                            },
                    }
                }
            }),
    {
        let mut container = container;
        let bytes: Vec<u8> = match NoteFile::note_tree_bytes(&mut container) {
            Ok(bytes) => bytes,
            Err(e) => {
                return Err(e);
            },
        };
        let ghost read = bytes;
        match decode(bytes) {
            Ok(note_tree) => {
                assert(read@ == read@);
                Ok(NoteFile { container, note_tree })
            },
            Err(e) => {
                assert(read@ == read@);
                Err(e)
            },
        }
    }

    /// Reads a note file from the bytes of a file: opens the container, as
    /// [`Container::open`] does, and decodes its note tree with the given
    /// decoder, as [`NoteFile::load`] does. Bytes that are no archive are
    /// rejected by the archive reader; an archive without entries, one whose
    /// first entry lies in no directory, and one without the entry of its
    /// note tree are no container.
    pub fn read<F: Fn(Vec<u8>) -> Result<NoteTree, NoteError>>(data: Vec<u8>, decode: &F) -> (r:
        Result<NoteFile, NoteError>)
        requires
            forall|bytes: Vec<u8>| decode.requires((bytes,)),
        ensures
            match zip_entries(data@) {
                None => r is Err && r->Err_0.failure() == Failure::Zip,
                Some(entries) => match root_of_first(entries.0) {
                    None => r is Err && r->Err_0.failure() == Failure::InvalidContainerFormat,
                    Some(root) => {
                        let kind = kind_of(root, entries.1);
                        let name = resolve(kind, root, note_tree_path(kind, root));
                        if !entries.1.contains_key(name) {
                            r is Err && r->Err_0.failure() == Failure::InvalidContainerFormat
                        } else {
                            match entry_bytes(entries.1, entries.2, entries.3, name) {
                                Err(k) => r is Err && r->Err_0.failure() == k,
                                Ok(bytes) => exists|read: Vec<u8>|
                                    #[trigger] read@ == bytes && match r {
                                        Ok(file) => {
                                            &&& file.wf()
                                            &&& file.container().names() == entries.0
                                            &&& file.container().lookup() == entries.1
                                            &&& file.container().opens() == entries.2
                                            &&& file.container().data() == entries.3
                                            &&& file.container().root() == root
                                            &&& file.container().kind() == kind
                                            &&& decode.ensures(
                                                (read,),
                                                Ok::<NoteTree, NoteError>(file.tree()),
                                            )
                                        },
                                        Err(fault) => decode.ensures(
                                            (read,),
                                            Err::<NoteTree, NoteError>(fault),
                                        ),
                                    },
                            }
                        }
                    },
                },
            },
    {
        match Container::open(data) {
            Ok(container) => NoteFile::load(container, decode),
            Err(e) => Err(e),
        }
    }

    /// Puts a container and the decoded note tree together.
    pub fn new(container: Container, note_tree: NoteTree) -> (r: NoteFile)
        requires
            container.wf(),
        ensures
            r.wf(),
            r.container() == container,
            r.tree() == note_tree,
    {
        NoteFile { container, note_tree }
    }

    /// The kind of the container.
    pub fn container_type(&self) -> (kind: &ContainerType)
        ensures
            *kind == self.container().kind(),
    {
        self.container.container_type()
    }

    /// The name of each note, by the 128-bit value of its id.
    pub fn list_notes(&self) -> (r: HashMap<u128, String>)
        ensures
            name_views(r@) == note_names(self.notes()),
    {
        let mut names: HashMap<u128, String> = HashMap::new();
        let mut i: usize = 0;
        assert(self.note_tree.notes@.subrange(0, 0) =~= Seq::<NoteMetadata>::empty());
        assert(name_views(names@) =~= Map::<u128, Seq<char>>::empty());
        while i < self.note_tree.notes.len()
            invariant
                i <= self.note_tree.notes@.len(),
                name_views(names@) == note_names(self.note_tree.notes@.subrange(0, i as int)),
            decreases self.note_tree.notes@.len() - i,
        {
            let note: &NoteMetadata = &self.note_tree.notes[i];
            proof {
                let next = self.note_tree.notes@.subrange(0, i + 1);
                assert(next.drop_last() =~= self.note_tree.notes@.subrange(0, i as int));
                assert(next.last() == *note);
            }
            let ghost before = names@;
            names.insert(note.note_id.0, note.name.clone());
            assert(name_views(names@) =~= name_views(before).insert(note.note_id.0, note.name@));
            i = i + 1;
        }
        assert(self.note_tree.notes@.subrange(0, i as int) =~= self.note_tree.notes@);
        names
    }

    /// The note of the given id, if the container holds one, with a handle of
    /// its own on the archive and nothing loaded yet.
    pub fn get_note(&self, note_id: &NoteUuid) -> (r: Option<Note<'_>>)
        requires
            self.wf(),
        ensures
            match note_index(self.notes(), *note_id) {
                Some(i) => {
                    &&& r is Some
                    &&& r->Some_0.wf()
                    &&& r->Some_0.container().same_entries(self.container())
                    &&& *r->Some_0.metadata() == self.notes()[i]
                    &&& r->Some_0.virtual_doc_loaded() is None
                    &&& r->Some_0.virtual_pages_loaded() is None
                    &&& r->Some_0.page_models_loaded() is None
                },
                None => r is None,
            },
    {
        match self.note_tree.get(note_id) {
            Some(metadata) => Some(Note::new(self.container.share(), metadata)),
            None => None,
        }
    }
}

} // verus!
