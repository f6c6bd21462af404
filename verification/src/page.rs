//! One page of a note: its geometry, its shapes and its points files, and
//! the strokes that painting it draws.

use vstd::prelude::*;
use vstd::string::StringExecFns;
use crate::container::{listing, texts, Container};
use crate::entries::{
    file_by_id, file_views, files_by_id, load_records, loading, read_file_by_id,
    read_files_by_id, Naming,
};
use crate::error::{Failure, NoteError};
use crate::id::{simple_text, NoteUuid, PageUuid, PointsUuid, ShapeGroupUuid};
use crate::page_model::PageModel;
use crate::points::{decode_points_file, PointsFile, PointsFileView, Stroke};
use crate::render::{
    lemma_nothing_drawn, points_views, render_strokes, rendering, shape_values, stroke_views,
};
use crate::shape::{Shape, ShapeGroup};
use crate::table::{collect, collected};
use crate::virtual_page::VirtualPage;

verus! {

/// The prefix of the lookup of the shape groups of a page, relative to the
/// notes of the container.
pub open spec fn shape_groups_prefix(note: u128, page: u128) -> Seq<char> {
    simple_text(note) + "/shape/"@ + simple_text(page) + "#"@
}

/// The prefix of the lookup of the points files of a page, relative to the
/// notes of the container.
pub open spec fn points_files_prefix(note: u128, page: u128) -> Seq<char> {
    simple_text(note) + "/point/"@ + simple_text(page) + "/"@ + simple_text(page) + "#"@
}

/// The id and the content of the points file in one entry: the id is read
/// from the name, the entry is unpacked, and its bytes are decoded.
pub open spec fn points_entry(
    lookup: Map<Seq<char>, int>,
    opens: Seq<bool>,
    data: Seq<Option<Seq<u8>>>,
    path: Seq<char>,
) -> Result<(u128, PointsFileView), Failure> {
    match file_by_id(lookup, opens, data, path, Naming::Sharded) {
        Err(k) => Err(k),
        Ok(file) => match decode_points_file(file.1) {
            Err(k) => Err(k),
            Ok(points) => Ok((file.0, points)),
        },
    }
}

/// The index of the group of points files of the given id.
pub open spec fn group_of(groups: Seq<(u128, Seq<PointsFileView>)>, id: u128) -> Option<int>
    decreases groups.len(),
{
    if groups.len() == 0 {
        None
    } else {
        match group_of(groups.drop_last(), id) {
            Some(i) => Some(i),
            None => if groups.last().0 == id {
                Some(groups.len() - 1)
            } else {
                None
            },
        }
    }
}

/// The index that [`group_of`] gives is the first group of the id.
pub proof fn lemma_group_of(groups: Seq<(u128, Seq<PointsFileView>)>, id: u128)
    ensures
        match group_of(groups, id) {
            Some(i) => 0 <= i < groups.len() && groups[i].0 == id && forall|j: int|
                0 <= j < i ==> groups[j].0 != id,
            None => forall|j: int| 0 <= j < groups.len() ==> groups[j].0 != id,
        },
    decreases groups.len(),
{
    if groups.len() > 0 {
        lemma_group_of(groups.drop_last(), id);
        assert forall|j: int| 0 <= j < groups.len() - 1 implies groups.drop_last()[j]
            == groups[j] by {}
        match group_of(groups.drop_last(), id) {
            Some(i) => {
                assert(groups.drop_last()[i] == groups[i]);
                assert forall|j: int| 0 <= j < i implies groups[j].0 != id by {
                    assert(groups.drop_last()[j] == groups[j]);
                }
            },
            None => {
                assert forall|j: int| 0 <= j < groups.len() - 1 implies groups[j].0 != id by {
                    assert(groups.drop_last()[j] == groups[j]);
                }
            },
        }
    }
}

/// The groups with one points file more: at the end of the group of its id,
/// or in a new group at the end.
pub open spec fn with_file(
    groups: Seq<(u128, Seq<PointsFileView>)>,
    id: u128,
    file: PointsFileView,
) -> Seq<(u128, Seq<PointsFileView>)> {
    match group_of(groups, id) {
        Some(i) => groups.update(i, (id, groups[i].1.push(file))),
        None => groups.push((id, seq![file])),
    }
}

/// The points files of a list of entries, grouped by id, each group and the
/// groups themselves in the order in which the entries come; the first entry
/// that cannot be read decides the outcome.
pub open spec fn points_of(
    lookup: Map<Seq<char>, int>,
    opens: Seq<bool>,
    data: Seq<Option<Seq<u8>>>,
    paths: Seq<Seq<char>>,
) -> Result<Seq<(u128, Seq<PointsFileView>)>, Failure>
    decreases paths.len(),
{
    if paths.len() == 0 {
        Ok(Seq::empty())
    } else {
        match points_of(lookup, opens, data, paths.drop_last()) {
            Err(k) => Err(k),
            Ok(groups) => match points_entry(lookup, opens, data, paths.last()) {
                Err(k) => Err(k),
                Ok(entry) => Ok(with_file(groups, entry.0, entry.1)),
            },
        }
    }
}

/// Where the points files of the first `n` entries of a list cannot be read,
/// those of the list cannot be read, for the same reason.
pub proof fn lemma_points_fail_on(
    lookup: Map<Seq<char>, int>,
    opens: Seq<bool>,
    data: Seq<Option<Seq<u8>>>,
    paths: Seq<Seq<char>>,
    n: int,
)
    requires
        0 <= n <= paths.len(),
        points_of(lookup, opens, data, paths.subrange(0, n)) is Err,
    ensures
        points_of(lookup, opens, data, paths) == points_of(lookup, opens, data, paths.subrange(0, n)),
    decreases paths.len() - n,
{
    if n == paths.len() {
        assert(paths.subrange(0, n) =~= paths);
    } else {
        assert(paths.subrange(0, n + 1).drop_last() =~= paths.subrange(0, n));
        lemma_points_fail_on(lookup, opens, data, paths, n + 1);
    }
}

/// What a list of decoded points files holds.
pub open spec fn file_contents(files: Seq<PointsFile>) -> Seq<PointsFileView> {
    files.map_values(|file: PointsFile| file@)
}

/// What the groups of decoded points files hold.
pub open spec fn group_contents(groups: Seq<(PointsUuid, Vec<PointsFile>)>) -> Seq<
    (u128, Seq<PointsFileView>),
> {
    groups.map_values(|group: (PointsUuid, Vec<PointsFile>)| (group.0.0, file_contents(group.1@)))
}

/// The shapes of all groups, group after group.
pub open spec fn all_shapes(groups: Seq<(ShapeGroupUuid, ShapeGroup)>) -> Seq<Shape>
    decreases groups.len(),
{
    if groups.len() == 0 {
        Seq::empty()
    } else {
        all_shapes(groups.drop_last()) + groups.last().1@
    }
}

/// The points files of all groups, group after group.
pub open spec fn all_files(groups: Seq<(u128, Seq<PointsFileView>)>) -> Seq<PointsFileView>
    decreases groups.len(),
{
    if groups.len() == 0 {
        Seq::empty()
    } else {
        all_files(groups.drop_last()) + groups.last().1
    }
}

/// One page of a note.
pub struct Page<'a> {
    container: Container,
    note_id: NoteUuid,
    page_id: PageUuid,
    virtual_page: Option<&'a VirtualPage>,
    page_model: &'a PageModel,
    shape_groups: Option<Vec<(ShapeGroupUuid, ShapeGroup)>>,
    points_files: Option<Vec<(PointsUuid, Vec<PointsFile>)>>,
}

impl<'a> Page<'a> {
    /// The handle of the page on the archive.
    pub closed spec fn container(&self) -> Container {
        self.container
    }

    /// The note that the page belongs to.
    pub closed spec fn note_id(&self) -> NoteUuid {
        self.note_id
    }

    /// The id of the page.
    pub closed spec fn page_id(&self) -> PageUuid {
        self.page_id
    }

    /// The geometry of the page, if the note has it.
    pub closed spec fn geometry(&self) -> Option<&'a VirtualPage> {
        self.virtual_page
    }

    /// The layers and the size of the page.
    pub closed spec fn model(&self) -> &'a PageModel {
        self.page_model
    }

    /// The groups of shapes by id, once they were loaded.
    pub closed spec fn shape_groups_loaded(&self) -> Option<Seq<(ShapeGroupUuid, ShapeGroup)>> {
        match self.shape_groups {
            Some(groups) => Some(groups@),
            None => None,
        }
    }

    /// The points files by id, once they were loaded.
    pub closed spec fn points_files_loaded(&self) -> Option<Seq<(PointsUuid, Vec<PointsFile>)>> {
        match self.points_files {
            Some(groups) => Some(groups@),
            None => None,
        }
    }

    /// A page is well formed when its container is.
    pub open spec fn wf(&self) -> bool {
        self.container().wf()
    }

    /// Whether two states of a page differ in nothing but what is loaded.
    pub open spec fn same_page(&self, other: Page<'a>) -> bool {
        &&& self.container().same_entries(other.container())
        &&& self.note_id() == other.note_id()
        &&& self.page_id() == other.page_id()
        &&& self.geometry() == other.geometry()
        &&& self.model() == other.model()
    }

    /// The lookup of the entries that hold the points files of the page.
    pub open spec fn points_paths(&self) -> Seq<Seq<char>> {
        listing(
            self.container().names(),
            self.container().resolved(points_files_prefix(self.note_id().0, self.page_id().0)),
        )
    }

    /// What loading the points files of the page gives.
    pub open spec fn points_on_file(&self) -> Result<Seq<(u128, Seq<PointsFileView>)>, Failure> {
        points_of(
            self.container().lookup(),
            self.container().opens(),
            self.container().data(),
            self.points_paths(),
        )
    }

    /// The shapes that were loaded, group after group; none before any were.
    pub open spec fn shapes(&self) -> Seq<Shape> {
        match self.shape_groups_loaded() {
            Some(groups) => all_shapes(groups),
            None => Seq::empty(),
        }
    }

    /// The page of a note, with nothing loaded.
    pub fn new(
        container: Container,
        page_id: PageUuid,
        note_id: NoteUuid,
        virtual_page: Option<&'a VirtualPage>,
        page_model: &'a PageModel,
    ) -> (r: Page<'a>)
        requires
            container.wf(),
        ensures
            r.wf(),
            r.container() == container,
            r.note_id() == note_id,
            r.page_id() == page_id,
            r.geometry() == virtual_page,
            r.model() == page_model,
            r.shape_groups_loaded() is None,
            r.points_files_loaded() is None,
    {
        Page {
            container,
            note_id,
            page_id,
            virtual_page,
            page_model,
            shape_groups: None,
            points_files: None,
        }
    }

    /// The geometry of the page, if the note has it.
    pub fn virtual_page(&self) -> (r: Option<&'a VirtualPage>)
        ensures
            r == self.geometry(),
    {
        self.virtual_page
    }

    /// The layers and the size of the page.
    pub fn page_model(&self) -> (r: &'a PageModel)
        ensures
            r == self.model(),
    {
        self.page_model
    }

    /// The id and the bytes of each group of shapes of the page, in archive
    /// order. The bytes are those of the entry, which is itself an archive.
    pub fn shape_group_files(&mut self) -> (r: Result<Vec<(u128, Vec<u8>)>, NoteError>)
        requires
            old(self).wf(),
        ensures
            final(self).wf(),
            final(self).same_page(*old(self)),
            final(self).shape_groups_loaded() == old(self).shape_groups_loaded(),
            final(self).points_files_loaded() == old(self).points_files_loaded(),
            match files_by_id(
                old(self).container().lookup(),
                old(self).container().opens(),
                old(self).container().data(),
                listing(
                    old(self).container().names(),
                    old(self).container().resolved(
                        shape_groups_prefix(old(self).note_id().0, old(self).page_id().0),
                    ),
                ),
                Naming::Stamped,
            ) {
                Ok(files) => r is Ok && file_views(r->Ok_0@) == files,
                Err(k) => r is Err && r->Err_0.failure() == k,
            },
    {
        let prefix: String = self.note_id.to_simple_string().concat("/shape/").concat(
            self.page_id.to_simple_string().as_str(),
        ).concat("#");
        let paths: Vec<String> = self.container.list_directory(prefix.as_str());
        read_files_by_id(&mut self.container, &paths, Naming::Stamped)
    }

    /// Keeps the decoded groups of shapes, by id: of two with one id the
    /// later one stays.
    pub fn set_shape_groups(&mut self, groups: Vec<(ShapeGroupUuid, ShapeGroup)>)
        ensures
            final(self).container() == old(self).container(),
            final(self).note_id() == old(self).note_id(),
            final(self).page_id() == old(self).page_id(),
            final(self).geometry() == old(self).geometry(),
            final(self).model() == old(self).model(),
            final(self).shape_groups_loaded() == Some(collected(groups@)),
            final(self).points_files_loaded() == old(self).points_files_loaded(),
    {
        self.shape_groups = Some(collect(groups));
    }

    /// Whether `after` is the page `before` once its groups of shapes were
    /// asked for with the outcome `r`: groups that were loaded stay; else the
    /// entries under the page's prefix are read and handed to the decoder.
    pub open spec fn shapes_loaded<F: Fn(Vec<u8>) -> Result<ShapeGroup, NoteError>>(
        before: Page<'a>,
        after: Page<'a>,
        decode: F,
        r: Result<(), NoteError>,
    ) -> bool {
        &&& after.wf()
        &&& after.same_page(before)
        &&& after.points_files_loaded() == before.points_files_loaded()
        &&& r is Ok <==> after.shape_groups_loaded() is Some
        &&& match before.shape_groups_loaded() {
            Some(groups) => after.shape_groups_loaded() == Some(groups),
            None => loading(
                before.container(),
                shape_groups_prefix(before.note_id().0, before.page_id().0),
                Naming::Stamped,
                decode,
                match r {
                    Ok(_) => Ok(after.shape_groups_loaded()->Some_0),
                    Err(fault) => Err(fault),
                },
            ),
        }
    }

    /// Loads the groups of shapes with the given decoder, unless they are
    /// loaded. The decoder gets the bytes of the entry of a group, which is
    /// itself an archive.
    pub fn load_shape_groups<F: Fn(Vec<u8>) -> Result<ShapeGroup, NoteError>>(
        &mut self,
        decode: &F,
    ) -> (r: Result<(), NoteError>)
        requires
            old(self).wf(),
            forall|bytes: Vec<u8>| decode.requires((bytes,)),
        ensures
            Self::shapes_loaded(*old(self), *final(self), *decode, r),
    {
        if self.shape_groups.is_some() {
            return Ok(());
        }
        let prefix: String = self.note_id.to_simple_string().concat("/shape/").concat(
            self.page_id.to_simple_string().as_str(),
        ).concat("#");
        match load_records::<ShapeGroupUuid, ShapeGroup, F>(
            &mut self.container,
            prefix.as_str(),
            Naming::Stamped,
            decode,
        ) {
            Ok(groups) => {
                self.shape_groups = Some(groups);
                Ok(())
            },
            Err(e) => Err(e),
        }
    }

    /// The groups of shapes by id, once they were loaded.
    pub fn shape_groups(&self) -> (r: Option<&Vec<(ShapeGroupUuid, ShapeGroup)>>)
        ensures
            match self.shape_groups_loaded() {
                Some(groups) => r is Some && r->Some_0@ == groups,
                None => r is None,
            },
    {
        self.shape_groups.as_ref()
    }

    /// The points files by id, once they were loaded.
    pub fn points_files(&self) -> (r: Option<&Vec<(PointsUuid, Vec<PointsFile>)>>)
        ensures
            match self.points_files_loaded() {
                Some(groups) => r is Some && r->Some_0@ == groups,
                None => r is None,
            },
    {
        self.points_files.as_ref()
    }

    /// Whether `after` is the page `before` once its points files were asked
    /// for: files that were loaded stay; else they are loaded from the
    /// archive, and `fault` says why they could not be.
    pub open spec fn loaded(before: Page<'a>, after: Page<'a>, fault: Option<Failure>) -> bool {
        &&& after.wf()
        &&& after.same_page(before)
        &&& after.shape_groups_loaded() == before.shape_groups_loaded()
        &&& match before.points_files_loaded() {
            Some(groups) => fault is None && after.points_files_loaded() == Some(groups),
            None => match before.points_on_file() {
                Ok(groups) => {
                    &&& fault is None
                    &&& after.points_files_loaded() is Some
                    &&& group_contents(after.points_files_loaded()->Some_0) == groups
                },
                Err(k) => fault == Some(k) && after.points_files_loaded() is None,
            },
        }
    }

    /// Loads the points files of the page, unless they are loaded: each entry
    /// under the page's prefix is unpacked and decoded, and the files are
    /// grouped by the id in their lookup.
    pub fn load_points_files(&mut self) -> (r: Result<(), NoteError>)
        requires
            old(self).wf(),
        ensures
            Self::loaded(
                *old(self),
                *final(self),
                match r {
                    Ok(_) => None,
                    Err(e) => Some(e.failure()),
                },
            ),
    {
        if self.points_files.is_some() {
            return Ok(());
        }
        let page_id: String = self.page_id.to_simple_string();
        let prefix: String = self.note_id.to_simple_string().concat("/point/").concat(
            page_id.as_str(),
        ).concat("/").concat(page_id.as_str()).concat("#");
        let paths: Vec<String> = self.container.list_directory(prefix.as_str());
        let ghost lookup = self.container.lookup();
        let ghost opens = self.container.opens();
        let ghost data = self.container.data();
        let ghost all = texts(paths@);
        assert(all == old(self).points_paths());
        let mut groups: Vec<(PointsUuid, Vec<PointsFile>)> = Vec::new();
        let mut i: usize = 0;
        assert(all.subrange(0, 0) =~= Seq::<Seq<char>>::empty());
        assert(group_contents(groups@) =~= Seq::<(u128, Seq<PointsFileView>)>::empty());
        while i < paths.len()
            invariant
                i <= paths@.len(),
                all == texts(paths@),
                all == old(self).points_paths(),
                self.wf(),
                self.same_page(*old(self)),
                self.shape_groups_loaded() == old(self).shape_groups_loaded(),
                self.points_files_loaded() is None,
                old(self).points_files_loaded() is None,
                lookup == old(self).container().lookup(),
                opens == old(self).container().opens(),
                data == old(self).container().data(),
                points_of(lookup, opens, data, all.subrange(0, i as int)) == Ok::<
                    Seq<(u128, Seq<PointsFileView>)>,
                    Failure,
                >(group_contents(groups@)),
            decreases paths@.len() - i,
        {
            proof {
                assert(all.subrange(0, i + 1).drop_last() =~= all.subrange(0, i as int));
                assert(all.subrange(0, i + 1).last() == paths@[i as int]@);
            }
            let (id, bytes) = match read_file_by_id(
                &mut self.container,
                paths[i].as_str(),
                Naming::Sharded,
            ) {
                Ok(file) => file,
                Err(e) => {
                    proof {
                        lemma_points_fail_on(lookup, opens, data, all, i + 1);
                    }
                    return Err(e);
                },
            };
            match PointsFile::read(bytes.as_slice()) {
                Ok(file) => {
                    add_file(&mut groups, id, file);
                },
                Err(e) => {
                    proof {
                        lemma_points_fail_on(lookup, opens, data, all, i + 1);
                    }
                    return Err(e);
                },
            }
            i = i + 1;
        }
        assert(all.subrange(0, i as int) =~= all);
        self.points_files = Some(groups);
        Ok(())
    }

    /// Loads the groups of shapes with the given decoder and the points
    /// files, each unless it is loaded, and gives the strokes that painting
    /// the page draws, as [`Page::render`] does.
    pub fn render_with<F: Fn(Vec<u8>) -> Result<ShapeGroup, NoteError>>(
        &mut self,
        decode: &F,
    ) -> (r: Result<Vec<Stroke>, NoteError>)
        requires
            old(self).wf(),
            forall|bytes: Vec<u8>| decode.requires((bytes,)),
        ensures
            final(self).wf(),
            final(self).same_page(*old(self)),
            (r is Err && Self::shapes_loaded(*old(self), *final(self), *decode, Err(r->Err_0)))
                || exists|with_shapes: Page<'a>|
                {
                    &&& #[trigger] Self::shapes_loaded(*old(self), with_shapes, *decode, Ok(()))
                    &&& Self::loaded(
                        with_shapes,
                        *final(self),
                        match r {
                            Ok(_) => None,
                            Err(e) => Some(e.failure()),
                        },
                    )
                },
            r matches Ok(strokes) ==> {
                &&& final(self).shape_groups_loaded() is Some
                &&& final(self).points_files_loaded() is Some
                &&& final(self).shapes().len() <= usize::MAX
                &&& stroke_views(strokes@) == rendering(
                    final(self).shapes(),
                    all_files(group_contents(final(self).points_files_loaded()->Some_0)),
                )
            },
    {
        match self.load_shape_groups(decode) {
            Ok(_) => {},
            Err(e) => {
                return Err(e);
            },
        }
        let ghost with_shapes = *self;
        let r = self.render();
        proof {
            assert(Self::shapes_loaded(*old(self), with_shapes, *decode, Ok(())));
        }
        r
    }

    /// The strokes that painting the page draws, the lowest first. The points
    /// files are loaded for it unless they are loaded. The shapes are those of
    /// the groups that were loaded, group after group, in ascending order of
    /// their numbers, shapes with one number in the order in which they
    /// stand. A shape whose points file or stroke is not there draws nothing.
    ///
    /// The groups of shapes are not loaded here: on a page whose groups of
    /// shapes were never loaded there are no shapes, and no stroke is drawn.
    /// [`Page::render_with`] loads them first.
    pub fn render(&mut self) -> (r: Result<Vec<Stroke>, NoteError>)
        requires
            old(self).wf(),
        ensures
            Self::loaded(
                *old(self),
                *final(self),
                match r {
                    Ok(_) => None,
                    Err(e) => Some(e.failure()),
                },
            ),
            r matches Ok(strokes) ==> stroke_views(strokes@) == rendering(
                old(self).shapes(),
                all_files(group_contents(final(self).points_files_loaded()->Some_0)),
            ),
            r is Ok ==> old(self).shapes().len() <= usize::MAX,
            old(self).shape_groups_loaded() is None ==> (r matches Ok(strokes) ==> strokes@.len()
                == 0),
    {
        match self.load_points_files() {
            Ok(_) => {},
            Err(e) => {
                return Err(e);
            },
        }
        let mut shapes: Vec<&Shape> = Vec::new();
        match self.shape_groups.as_ref() {
            None => {
                assert(shape_values(shapes@) =~= self.shapes());
            },
            Some(groups) => {
                let mut g: usize = 0;
                assert(groups@.subrange(0, 0) =~= Seq::<(ShapeGroupUuid, ShapeGroup)>::empty());
                assert(shape_values(shapes@) =~= Seq::<Shape>::empty());
                while g < groups.len()
                    invariant
                        g <= groups@.len(),
                        shape_values(shapes@) == all_shapes(groups@.subrange(0, g as int)),
                    decreases groups@.len() - g,
                {
                    let list: &Vec<Shape> = groups[g].1.shapes();
                    let ghost before = shape_values(shapes@);
                    let mut k: usize = 0;
                    assert(before + list@.subrange(0, 0) =~= before);
                    while k < list.len()
                        invariant
                            k <= list@.len(),
                            shape_values(shapes@) == before + list@.subrange(0, k as int),
                        decreases list@.len() - k,
                    {
                        let ghost so_far = shapes@;
                        shapes.push(&list[k]);
                        assert(shape_values(shapes@) =~= shape_values(so_far).push(list@[k as int]));
                        assert(before + list@.subrange(0, k + 1) =~= (before + list@.subrange(
                            0,
                            k as int,
                        )).push(list@[k as int]));
                        k = k + 1;
                    }
                    proof {
                        assert(list@.subrange(0, k as int) =~= list@);
                        assert(groups@.subrange(0, g + 1).drop_last() =~= groups@.subrange(
                            0,
                            g as int,
                        ));
                        assert(groups@.subrange(0, g + 1).last() == groups@[g as int]);
                    }
                    g = g + 1;
                }
                assert(groups@.subrange(0, g as int) =~= groups@);
            },
        }
        let mut files: Vec<&PointsFile> = Vec::new();
        match self.points_files.as_ref() {
            None => {},
            Some(groups) => {
                let mut g: usize = 0;
                assert(group_contents(groups@).subrange(0, 0) =~= Seq::<
                    (u128, Seq<PointsFileView>),
                >::empty());
                assert(points_views(files@) =~= Seq::<PointsFileView>::empty());
                while g < groups.len()
                    invariant
                        g <= groups@.len(),
                        points_views(files@) == all_files(
                            group_contents(groups@).subrange(0, g as int),
                        ),
                    decreases groups@.len() - g,
                {
                    let list: &Vec<PointsFile> = &groups[g].1;
                    let ghost before = points_views(files@);
                    let mut k: usize = 0;
                    assert(before + file_contents(list@).subrange(0, 0) =~= before);
                    while k < list.len()
                        invariant
                            k <= list@.len(),
                            points_views(files@) == before + file_contents(list@).subrange(
                                0,
                                k as int,
                            ),
                        decreases list@.len() - k,
                    {
                        let ghost so_far = files@;
                        files.push(&list[k]);
                        assert(points_views(files@) =~= points_views(so_far).push(
                            list@[k as int]@,
                        ));
                        assert(before + file_contents(list@).subrange(0, k + 1) =~= (before
                            + file_contents(list@).subrange(0, k as int)).push(list@[k as int]@));
                        k = k + 1;
                    }
                    proof {
                        let contents = group_contents(groups@);
                        assert(file_contents(list@).subrange(0, k as int) =~= file_contents(
                            list@,
                        ));
                        assert(contents.subrange(0, g + 1).drop_last() =~= contents.subrange(
                            0,
                            g as int,
                        ));
                        assert(contents.subrange(0, g + 1).last().1 == file_contents(list@));
                    }
                    g = g + 1;
                }
                assert(group_contents(groups@).subrange(0, g as int) =~= group_contents(groups@));
            },
        }
        let strokes: Vec<Stroke> = render_strokes(&shapes, &files);
        proof {
            assert(shape_values(shapes@).len() == shapes@.len());
            if self.shape_groups_loaded() is None {
                lemma_nothing_drawn(shape_values(shapes@), points_views(files@));
                assert(stroke_views(strokes@).len() == strokes@.len());
            }
        }
        Ok(strokes)
    }
}

/// Puts one more points file into the groups: at the end of the group of its
/// id, or in a new group at the end.
pub fn add_file(groups: &mut Vec<(PointsUuid, Vec<PointsFile>)>, id: u128, file: PointsFile)
    ensures
        group_contents(final(groups)@) == with_file(group_contents(old(groups)@), id, file@),
{
    let ghost before = group_contents(groups@);
    let mut i: usize = 0;
    while i < groups.len()
        invariant
            i <= groups@.len(),
            groups@ == old(groups)@,
            before == group_contents(groups@),
            forall|j: int| 0 <= j < i ==> before[j].0 != id,
        decreases groups@.len() - i,
    {
        if groups[i].0.0 == id {
            proof {
                lemma_group_of(before, id);
                assert(before[i as int].0 == id);
            }
            let (group_id, mut files) = groups.remove(i);
            let ghost earlier = files@;
            files.push(file);
            assert(file_contents(files@) =~= file_contents(earlier).push(file@));
            groups.insert(i, (group_id, files));
            assert(group_contents(groups@) =~= before.update(
                i as int,
                (id, before[i as int].1.push(file@)),
            ));
            return ;
        }
        i = i + 1;
    }
    proof {
        lemma_group_of(before, id);
    }
    let mut files: Vec<PointsFile> = Vec::new();
    files.push(file);
    assert(file_contents(files@) =~= seq![file@]);
    groups.push((PointsUuid(id), files));
    assert(group_contents(groups@) =~= before.push((id, seq![file@])));
}

} // verus!
