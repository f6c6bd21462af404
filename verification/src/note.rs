//! One note of a container: its metadata, and what has been loaded of its
//! virtual document, virtual pages and page models.

use vstd::prelude::*;
use vstd::string::StringExecFns;
use crate::container::{listing, Container};
use crate::entries::{
    file_views, files_by_id, load_records, loading, read_files_by_id, Naming,
};
use crate::error::NoteError;
use crate::id::{simple_text, PageModelUuid, PageUuid, VirtualPageUuid};
use crate::note_tree::NoteMetadata;
use crate::page::Page;
use crate::page_model::{PageModel, PageModelGroup};
use crate::scalar::Scalar;
use crate::table::{
    collect, collected, first_where, lemma_first_where, lemma_first_where_is,
    lemma_first_where_none,
};
use crate::utils::Timestamp;
use crate::virtual_doc::VirtualDoc;
use crate::virtual_page::VirtualPage;

verus! {

/// The path of the virtual document of a note, relative to the notes of the
/// container.
pub open spec fn virtual_doc_path(note: u128) -> Seq<char> {
    simple_text(note) + "/virtual/doc/pb/"@ + simple_text(note)
}

/// The path under which the virtual pages of a note lie.
pub open spec fn virtual_pages_dir(note: u128) -> Seq<char> {
    simple_text(note) + "/virtual/page/pb/"@
}

/// The path under which the page models of a note lie.
pub open spec fn page_models_dir(note: u128) -> Seq<char> {
    simple_text(note) + "/pageModel/pb/"@
}

/// Whether a virtual page is that of the page `id`.
pub open spec fn is_virtual_page_of(id: PageUuid) -> spec_fn((VirtualPageUuid, VirtualPage)) -> bool {
    |entry: (VirtualPageUuid, VirtualPage)| entry.1.page_id == id
}

/// Whether a page model is that of the page `id`.
pub open spec fn is_model_of(id: PageUuid) -> spec_fn(PageModel) -> bool {
    |model: PageModel| model.page_id == id
}

/// Whether a group of page models holds one of the page `id`.
pub open spec fn has_model_of(id: PageUuid) -> spec_fn((PageModelUuid, PageModelGroup)) -> bool {
    |entry: (PageModelUuid, PageModelGroup)|
        first_where(entry.1.page_models@, is_model_of(id)) is Some
}

/// One note of a container.
pub struct Note<'a> {
    container: Container,
    metadata: &'a NoteMetadata,
    virtual_doc: Option<VirtualDoc>,
    virtual_pages: Option<Vec<(VirtualPageUuid, VirtualPage)>>,
    page_models: Option<Vec<(PageModelUuid, PageModelGroup)>>,
}

impl<'a> Note<'a> {
    /// The handle of the note on the archive.
    pub closed spec fn container(&self) -> Container {
        self.container
    }

    /// The metadata of the note.
    pub closed spec fn metadata(&self) -> &'a NoteMetadata {
        self.metadata
    }

    /// The virtual document, once it was loaded.
    pub closed spec fn virtual_doc_loaded(&self) -> Option<VirtualDoc> {
        self.virtual_doc
    }

    /// The virtual pages by id, once they were loaded.
    pub closed spec fn virtual_pages_loaded(&self) -> Option<Seq<(VirtualPageUuid, VirtualPage)>> {
        match self.virtual_pages {
            Some(pages) => Some(pages@),
            None => None,
        }
    }

    /// The groups of page models by id, once they were loaded.
    pub closed spec fn page_models_loaded(&self) -> Option<Seq<(PageModelUuid, PageModelGroup)>> {
        match self.page_models {
            Some(models) => Some(models@),
            None => None,
        }
    }

    /// A note is well formed when its container is.
    pub open spec fn wf(&self) -> bool {
        self.container().wf()
    }

    /// Whether two states of a note differ in nothing but what is loaded.
    pub open spec fn same_note(&self, other: Note<'a>) -> bool {
        &&& self.container().same_entries(other.container())
        &&& self.metadata() == other.metadata()
    }

    /// The note with the given metadata, with nothing loaded.
    pub fn new(container: Container, metadata: &'a NoteMetadata) -> (r: Note<'a>)
        requires
            container.wf(),
        ensures
            r.wf(),
            r.container() == container,
            r.metadata() == metadata,
            r.virtual_doc_loaded() is None,
            r.virtual_pages_loaded() is None,
            r.page_models_loaded() is None,
    {
        Note { container, metadata, virtual_doc: None, virtual_pages: None, page_models: None }
    }

    /// The name of the note.
    pub fn name(&self) -> (r: &str)
        ensures
            r@ == self.metadata().name@,
    {
        self.metadata.name.as_str()
    }

    /// The pages of the note, by the text of their ids.
    pub fn active_pages(&self) -> (r: &Vec<String>)
        ensures
            r == &self.metadata().active_pages.page_name_list,
    {
        &self.metadata.active_pages.page_name_list
    }

    /// The pages that are kept in reserve, by the text of their ids.
    pub fn reserved_pages(&self) -> (r: &Vec<String>)
        ensures
            r == &self.metadata().reserved_pages.page_name_list,
    {
        &self.metadata.reserved_pages.page_name_list
    }

    /// The pages that were taken out of the note, by the text of their ids.
    pub fn detached_pages(&self) -> (r: &Vec<String>)
        ensures
            r == &self.metadata().detached_pages.page_name_list,
    {
        &self.metadata.detached_pages.page_name_list
    }

    /// When the note was made.
    pub fn created(&self) -> (r: Timestamp)
        ensures
            r == self.metadata().created,
    {
        self.metadata.created
    }

    /// When the note was last changed.
    pub fn modified(&self) -> (r: Timestamp)
        ensures
            r == self.metadata().modified,
    {
        self.metadata.modified
    }

    /// The flags of the note.
    pub fn flag(&self) -> (r: u32)
        ensures
            r == self.metadata().flag,
    {
        self.metadata.flag
    }

    /// The width of the pen.
    pub fn pen_width(&self) -> (r: Scalar)
        ensures
            r == self.metadata().pen_width,
    {
        self.metadata.pen_width
    }

    /// The scale factor of the note.
    pub fn scale_factor(&self) -> (r: Scalar)
        ensures
            r == self.metadata().scale_factor,
    {
        self.metadata.scale_factor
    }

    /// The fill colour of the note.
    pub fn fill_color(&self) -> (r: &u32)
        ensures
            *r == self.metadata().fill_color,
    {
        &self.metadata.fill_color
    }

    /// The kind of the pen.
    pub fn pen_type(&self) -> (r: &u32)
        ensures
            *r == self.metadata().pen_type,
    {
        &self.metadata.pen_type
    }

    /// The fill colour of the pen settings.
    pub fn pen_settings_fill_color(&self) -> (r: &u32)
        ensures
            *r == self.metadata().pen_settings.fill_color,
    {
        &self.metadata.pen_settings.fill_color
    }

    /// The colour of graphic shapes of the pen settings.
    pub fn pen_settings_graphics_shape_color(&self) -> (r: &u32)
        ensures
            *r == self.metadata().pen_settings.graphics_shape_color,
    {
        &self.metadata.pen_settings.graphics_shape_color
    }

    /// The bytes of the record of the virtual document.
    pub fn virtual_doc_bytes(&mut self) -> (r: Result<Vec<u8>, NoteError>)
        requires
            old(self).wf(),
        ensures
            final(self).wf(),
            final(self).same_note(*old(self)),
            final(self).virtual_doc_loaded() == old(self).virtual_doc_loaded(),
            final(self).virtual_pages_loaded() == old(self).virtual_pages_loaded(),
            final(self).page_models_loaded() == old(self).page_models_loaded(),
            match old(self).container().bytes_of(
                old(self).container().resolved(virtual_doc_path(old(self).metadata().note_id.0)),
            ) {
                Ok(bytes) => r is Ok && r->Ok_0@ == bytes,
                Err(k) => r is Err && r->Err_0.failure() == k,
            },
    {
        let note_id: String = self.metadata.note_id.to_simple_string();
        let path: String = String::from_str(note_id.as_str()).concat("/virtual/doc/pb/").concat(
            note_id.as_str(),
        );
        self.container.get_file_relative(path.as_str())
    }

    /// Keeps the decoded virtual document.
    pub fn set_virtual_doc(&mut self, doc: VirtualDoc)
        ensures
            final(self).container() == old(self).container(),
            final(self).metadata() == old(self).metadata(),
            final(self).virtual_doc_loaded() == Some(doc),
            final(self).virtual_pages_loaded() == old(self).virtual_pages_loaded(),
            final(self).page_models_loaded() == old(self).page_models_loaded(),
    {
        self.virtual_doc = Some(doc);
    }

    /// The virtual document, once it was loaded.
    pub fn virtual_doc(&self) -> (r: Option<&VirtualDoc>)
        ensures
            match self.virtual_doc_loaded() {
                Some(doc) => r == Some(&doc),
                None => r is None,
            },
    {
        self.virtual_doc.as_ref()
    }

    /// The id and the bytes of the record of each virtual page, in archive
    /// order.
    pub fn virtual_page_files(&mut self) -> (r: Result<Vec<(u128, Vec<u8>)>, NoteError>)
        requires
            old(self).wf(),
        ensures
            final(self).wf(),
            final(self).same_note(*old(self)),
            final(self).virtual_doc_loaded() == old(self).virtual_doc_loaded(),
            final(self).virtual_pages_loaded() == old(self).virtual_pages_loaded(),
            final(self).page_models_loaded() == old(self).page_models_loaded(),
            match files_by_id(
                old(self).container().lookup(),
                old(self).container().opens(),
                old(self).container().data(),
                listing(
                    old(self).container().names(),
                    old(self).container().resolved(
                        virtual_pages_dir(old(self).metadata().note_id.0),
                    ),
                ),
                Naming::Plain,
            ) {
                Ok(files) => r is Ok && file_views(r->Ok_0@) == files,
                Err(k) => r is Err && r->Err_0.failure() == k,
            },
    {
        let note_id: String = self.metadata.note_id.to_simple_string();
        let dir: String = note_id.concat("/virtual/page/pb/");
        let paths: Vec<String> = self.container.list_directory(dir.as_str());
        read_files_by_id(&mut self.container, &paths, Naming::Plain)
    }

    /// Keeps the decoded virtual pages, by id: of two with one id the later
    /// one stays.
    pub fn set_virtual_pages(&mut self, pages: Vec<(VirtualPageUuid, VirtualPage)>)
        ensures
            final(self).container() == old(self).container(),
            final(self).metadata() == old(self).metadata(),
            final(self).virtual_doc_loaded() == old(self).virtual_doc_loaded(),
            final(self).virtual_pages_loaded() == Some(collected(pages@)),
            final(self).page_models_loaded() == old(self).page_models_loaded(),
    {
        self.virtual_pages = Some(collect(pages));
    }

    /// The virtual pages by id, once they were loaded.
    pub fn virtual_pages(&self) -> (r: Option<&Vec<(VirtualPageUuid, VirtualPage)>>)
        ensures
            match self.virtual_pages_loaded() {
                Some(pages) => r is Some && r->Some_0@ == pages,
                None => r is None,
            },
    {
        self.virtual_pages.as_ref()
    }

    /// The id and the bytes of each file of page models, in archive order.
    pub fn page_model_files(&mut self) -> (r: Result<Vec<(u128, Vec<u8>)>, NoteError>)
        requires
            old(self).wf(),
        ensures
            final(self).wf(),
            final(self).same_note(*old(self)),
            final(self).virtual_doc_loaded() == old(self).virtual_doc_loaded(),
            final(self).virtual_pages_loaded() == old(self).virtual_pages_loaded(),
            final(self).page_models_loaded() == old(self).page_models_loaded(),
            match files_by_id(
                old(self).container().lookup(),
                old(self).container().opens(),
                old(self).container().data(),
                listing(
                    old(self).container().names(),
                    old(self).container().resolved(page_models_dir(old(self).metadata().note_id.0)),
                ),
                Naming::Plain,
            ) {
                Ok(files) => r is Ok && file_views(r->Ok_0@) == files,
                Err(k) => r is Err && r->Err_0.failure() == k,
            },
    {
        let note_id: String = self.metadata.note_id.to_simple_string();
        let dir: String = note_id.concat("/pageModel/pb/");
        let paths: Vec<String> = self.container.list_directory(dir.as_str());
        read_files_by_id(&mut self.container, &paths, Naming::Plain)
    }

    /// Keeps the decoded groups of page models, by id: of two with one id the
    /// later one stays.
    pub fn set_page_models(&mut self, models: Vec<(PageModelUuid, PageModelGroup)>)
        ensures
            final(self).container() == old(self).container(),
            final(self).metadata() == old(self).metadata(),
            final(self).virtual_doc_loaded() == old(self).virtual_doc_loaded(),
            final(self).virtual_pages_loaded() == old(self).virtual_pages_loaded(),
            final(self).page_models_loaded() == Some(collected(models@)),
    {
        self.page_models = Some(collect(models));
    }

    /// The groups of page models by id, once they were loaded.
    pub fn page_models(&self) -> (r: Option<&Vec<(PageModelUuid, PageModelGroup)>>)
        ensures
            match self.page_models_loaded() {
                Some(models) => r is Some && r->Some_0@ == models,
                None => r is None,
            },
    {
        self.page_models.as_ref()
    }

    /// Loads the virtual document with the given decoder, unless it is
    /// loaded.
    pub fn load_virtual_doc<F: Fn(Vec<u8>) -> Result<VirtualDoc, NoteError>>(
        &mut self,
        decode: &F,
    ) -> (r: Result<(), NoteError>)
        requires
            old(self).wf(),
            forall|bytes: Vec<u8>| decode.requires((bytes,)),
        ensures
            final(self).wf(),
            final(self).same_note(*old(self)),
            final(self).virtual_pages_loaded() == old(self).virtual_pages_loaded(),
            final(self).page_models_loaded() == old(self).page_models_loaded(),
            r is Ok <==> final(self).virtual_doc_loaded() is Some,
            match old(self).virtual_doc_loaded() {
                Some(doc) => final(self).virtual_doc_loaded() == Some(doc),
                None => match old(self).container().bytes_of(
                    old(self).container().resolved(
                        virtual_doc_path(old(self).metadata().note_id.0),
                    ),
                ) {
                    Err(k) => r is Err && r->Err_0.failure() == k,
                    Ok(bytes) => exists|read: Vec<u8>|
                        #[trigger] read@ == bytes && match r {
                            Ok(_) => decode.ensures(
                                (read,),
                                Ok::<VirtualDoc, NoteError>(
                                    final(self).virtual_doc_loaded()->Some_0,
                                ),
                            ),
                            Err(fault) => decode.ensures(
                                (read,),
                                Err::<VirtualDoc, NoteError>(fault),
                            ),
                        },
                },
            },
    {
        if self.virtual_doc.is_some() {
            return Ok(());
        }
        let bytes: Vec<u8> = match self.virtual_doc_bytes() {
            Ok(bytes) => bytes,
            Err(e) => {
                return Err(e);
            },
        };
        let ghost read = bytes;
        match decode(bytes) {
            Ok(doc) => {
                self.virtual_doc = Some(doc);
                assert(read@ == read@);
                Ok(())
            },
            Err(e) => {
                assert(read@ == read@);
                Err(e)
            },
        }
    }

    /// Loads the virtual pages with the given decoder, unless they are
    /// loaded.
    pub fn load_virtual_pages<F: Fn(Vec<u8>) -> Result<VirtualPage, NoteError>>(
        &mut self,
        decode: &F,
    ) -> (r: Result<(), NoteError>)
        requires
            old(self).wf(),
            forall|bytes: Vec<u8>| decode.requires((bytes,)),
        ensures
            final(self).wf(),
            final(self).same_note(*old(self)),
            final(self).virtual_doc_loaded() == old(self).virtual_doc_loaded(),
            final(self).page_models_loaded() == old(self).page_models_loaded(),
            r is Ok <==> final(self).virtual_pages_loaded() is Some,
            match old(self).virtual_pages_loaded() {
                Some(pages) => final(self).virtual_pages_loaded() == Some(pages),
                None => loading(
                    old(self).container(),
                    virtual_pages_dir(old(self).metadata().note_id.0),
                    Naming::Plain,
                    *decode,
                    match r {
                        Ok(_) => Ok(final(self).virtual_pages_loaded()->Some_0),
                        Err(fault) => Err(fault),
                    },
                ),
            },
    {
        if self.virtual_pages.is_some() {
            return Ok(());
        }
        let dir: String = self.metadata.note_id.to_simple_string().concat("/virtual/page/pb/");
        match load_records::<VirtualPageUuid, VirtualPage, F>(
            &mut self.container,
            dir.as_str(),
            Naming::Plain,
            decode,
        ) {
            Ok(pages) => {
                self.virtual_pages = Some(pages);
                Ok(())
            },
            Err(e) => Err(e),
        }
    }

    /// Loads the groups of page models with the given decoder, unless they
    /// are loaded.
    pub fn load_page_models<F: Fn(Vec<u8>) -> Result<PageModelGroup, NoteError>>(
        &mut self,
        decode: &F,
    ) -> (r: Result<(), NoteError>)
        requires
            old(self).wf(),
            forall|bytes: Vec<u8>| decode.requires((bytes,)),
        ensures
            final(self).wf(),
            final(self).same_note(*old(self)),
            final(self).virtual_doc_loaded() == old(self).virtual_doc_loaded(),
            final(self).virtual_pages_loaded() == old(self).virtual_pages_loaded(),
            r is Ok <==> final(self).page_models_loaded() is Some,
            match old(self).page_models_loaded() {
                Some(models) => final(self).page_models_loaded() == Some(models),
                None => loading(
                    old(self).container(),
                    page_models_dir(old(self).metadata().note_id.0),
                    Naming::Plain,
                    *decode,
                    match r {
                        Ok(_) => Ok(final(self).page_models_loaded()->Some_0),
                        Err(fault) => Err(fault),
                    },
                ),
            },
    {
        if self.page_models.is_some() {
            return Ok(());
        }
        let dir: String = self.metadata.note_id.to_simple_string().concat("/pageModel/pb/");
        match load_records::<PageModelUuid, PageModelGroup, F>(
            &mut self.container,
            dir.as_str(),
            Naming::Plain,
            decode,
        ) {
            Ok(models) => {
                self.page_models = Some(models);
                Ok(())
            },
            Err(e) => Err(e),
        }
    }

    /// The page of the given id. There is one if and only if the virtual
    /// pages and the page models were loaded, a virtual page of that id is
    /// among the first and a page model of that id among the second. The page
    /// gets the first virtual page of the id, the first page model of the id,
    /// and a handle of its own on the archive.
    pub fn get_page<'b>(&'b self, page_id: &PageUuid) -> (r: Option<Page<'b>>)
        requires
            self.wf(),
        ensures
            match (self.virtual_pages_loaded(), self.page_models_loaded()) {
                (Some(pages), Some(groups)) => match (
                    first_where(pages, is_virtual_page_of(*page_id)),
                    first_where(groups, has_model_of(*page_id)),
                ) {
                    (Some(v), Some(g)) => {
                        let models = groups[g].1.page_models@;
                        let m = first_where(models, is_model_of(*page_id))->Some_0;
                        &&& r is Some
                        &&& r->Some_0.wf()
                        &&& r->Some_0.container().same_entries(self.container())
                        &&& r->Some_0.note_id() == self.metadata().note_id
                        &&& r->Some_0.page_id() == *page_id
                        &&& *r->Some_0.model() == models[m]
                        &&& r->Some_0.geometry() == Some(&pages[v].1)
                        &&& r->Some_0.shape_groups_loaded() is None
                        &&& r->Some_0.points_files_loaded() is None
                    },
                    _ => r is None,
                },
                _ => r is None,
            },
    {
        let pages: &Vec<(VirtualPageUuid, VirtualPage)> = match self.virtual_pages.as_ref() {
            Some(v) => v,
            None => {
                return None;
            },
        };
        let groups: &Vec<(PageModelUuid, PageModelGroup)> = match self.page_models.as_ref() {
            Some(v) => v,
            None => {
                return None;
            },
        };
        let mut virtual_page: Option<&VirtualPage> = None;
        let mut v: usize = 0;
        while v < pages.len() && virtual_page.is_none()
            invariant
                v <= pages@.len(),
                forall|j: int|
                    0 <= j < v - (if virtual_page is Some {
                        1int
                    } else {
                        0int
                    }) ==> !is_virtual_page_of(*page_id)(pages@[j]),
                virtual_page matches Some(found) ==> v > 0 && found == &pages@[v - 1].1
                    && is_virtual_page_of(*page_id)(pages@[v - 1]),
            decreases pages@.len() - v,
        {
            if pages[v].1.page_id == *page_id {
                virtual_page = Some(&pages[v].1);
            }
            v = v + 1;
        }
        proof {
            if virtual_page is Some {
                lemma_first_where_is(pages@, is_virtual_page_of(*page_id), v - 1);
            } else {
                lemma_first_where_none(pages@, is_virtual_page_of(*page_id));
            }
            lemma_first_where(pages@, is_virtual_page_of(*page_id));
        }
        if virtual_page.is_none() {
            return None;
        }
        let ghost found = first_where(pages@, is_virtual_page_of(*page_id));
        let mut g: usize = 0;
        while g < groups.len()
            invariant
                g <= groups@.len(),
                self.wf(),
                self.virtual_pages_loaded() == Some(pages@),
                self.page_models_loaded() == Some(groups@),
                found == first_where(pages@, is_virtual_page_of(*page_id)),
                found is Some,
                match found {
                    Some(at) => virtual_page == Some(&pages@[at].1),
                    None => virtual_page is None,
                },
                forall|j: int| 0 <= j < g ==> !has_model_of(*page_id)(groups@[j]),
            decreases groups@.len() - g,
        {
            let models: &Vec<PageModel> = &groups[g].1.page_models;
            let mut m: usize = 0;
            while m < models.len()
                invariant
                    m <= models@.len(),
                    g < groups@.len(),
                    self.wf(),
                    self.virtual_pages_loaded() == Some(pages@),
                    self.page_models_loaded() == Some(groups@),
                    found == first_where(pages@, is_virtual_page_of(*page_id)),
                    found is Some,
                    match found {
                        Some(at) => virtual_page == Some(&pages@[at].1),
                        None => virtual_page is None,
                    },
                    models == &groups@[g as int].1.page_models,
                    forall|j: int| 0 <= j < g ==> !has_model_of(*page_id)(groups@[j]),
                    forall|j: int| 0 <= j < m ==> !is_model_of(*page_id)(models@[j]),
                decreases models@.len() - m,
            {
                if models[m].page_id == *page_id {
                    proof {
                        lemma_first_where_is(models@, is_model_of(*page_id), m as int);
                        lemma_first_where_is(groups@, has_model_of(*page_id), g as int);
                    }
                    return Some(
                        Page::new(
                            self.container.share(),
                            *page_id,
                            self.metadata.note_id,
                            virtual_page,
                            &models[m],
                        ),
                    );
                }
                m = m + 1;
            }
            proof {
                lemma_first_where_none(models@, is_model_of(*page_id));
            }
            g = g + 1;
        }
        proof {
            lemma_first_where_none(groups@, has_model_of(*page_id));
        }
        None
    }
}

} // verus!
