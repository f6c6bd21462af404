//! The binary points file: a header, blocks of pen samples, a table that
//! says where the block of each stroke lies, and a trailer that says where the
//! table lies. All numbers are big-endian.

use std::collections::HashMap;
use vstd::prelude::*;
use vstd::slice::slice_subrange;
use vstd::string::StrSliceExecFns;
use vstd::utf8::{decode_utf8, valid_utf8};
use crate::error::{agrees, unexpected_end, Failure, NoteError};
use crate::id::{parse_uuid, text_from_utf8, uuid_of_text, PageUuid, PointsUuid, StrokeUuid};
use crate::scalar::Scalar;

verus! {

broadcast use vstd::std_specs::hash::group_hash_axioms;

/// Bytes of the textual form of a UUID in a points file.
pub const UUID_LEN: usize = 36;

/// Bytes of the header: the version and two UUIDs.
pub const HEADER_LEN: usize = 76;

/// Bytes of one entry of the points table.
pub const ENTRY_LEN: usize = 44;

/// Bytes of one pen sample.
pub const POINT_LEN: usize = 16;

/// The number that four bytes hold, the most significant byte first.
pub open spec fn be_u32(b: Seq<u8>) -> int
    recommends
        b.len() >= 4,
{
    b[0] as int * 0x100_0000 + b[1] as int * 0x1_0000 + b[2] as int * 0x100 + b[3] as int
}

/// The number that two bytes hold, the most significant byte first.
pub open spec fn be_u16(b: Seq<u8>) -> int
    recommends
        b.len() >= 2,
{
    b[0] as int * 0x100 + b[1] as int
}

/// The big-endian number in the four bytes of `data` that start at `at`.
pub open spec fn u32_at(data: Seq<u8>, at: int) -> int {
    be_u32(data.subrange(at, at + 4))
}

/// Reads a big-endian number from the first four bytes of `buf` with
/// `byteorder::BigEndian::read_u32`, which puts the first byte in the most
/// significant place.
#[verifier::external_body]
pub(crate) fn read_be_u32(buf: &[u8]) -> (v: u32)
    requires
        buf@.len() >= 4,
    ensures
        v as int == be_u32(buf@),
{
    <byteorder::BigEndian as byteorder::ByteOrder>::read_u32(buf)
}

/// Reads a big-endian number from the first two bytes of `buf` with
/// `byteorder::BigEndian::read_u16`, which puts the first byte in the most
/// significant place.
#[verifier::external_body]
pub(crate) fn read_be_u16(buf: &[u8]) -> (v: u16)
    requires
        buf@.len() >= 2,
    ensures
        v as int == be_u16(buf@),
{
    <byteorder::BigEndian as byteorder::ByteOrder>::read_u16(buf)
}

/// Reads the big-endian number in the four bytes of `data` that start at `at`.
fn read_u32_at(data: &[u8], at: usize) -> (v: u32)
    requires
        at + 4 <= data@.len(),
    ensures
        v as int == u32_at(data@, at as int),
{
    let len: usize = data.len();
    assert(at + 4 <= len);
    read_be_u32(slice_subrange(data, at, at + 4))
}

/// A text without the spaces at its end.
pub open spec fn trim_trailing_spaces(s: Seq<char>) -> Seq<char>
    decreases s.len(),
{
    if s.len() > 0 && s.last() == ' ' {
        trim_trailing_spaces(s.drop_last())
    } else {
        s
    }
}

/// Cuts the spaces off the end of a text.
pub fn trim_end_spaces(text: &str) -> (r: &str)
    ensures
        r@ == trim_trailing_spaces(text@),
{
    let mut n: usize = text.unicode_len();
    assert(text@.subrange(0, n as int) =~= text@);
    while n > 0 && text.get_char(n - 1) == ' '
        invariant
            n <= text@.len(),
            trim_trailing_spaces(text@) == trim_trailing_spaces(text@.subrange(0, n as int)),
        decreases n,
    {
        assert(text@.subrange(0, n as int).drop_last() =~= text@.subrange(0, n - 1));
        n = n - 1;
    }
    text.substring_char(0, n)
}

/// What the bytes of a UUID field stand for: they are UTF-8, and the text is
/// a UUID.
pub open spec fn uuid_field(bytes: Seq<u8>) -> Result<u128, Failure> {
    if !valid_utf8(bytes) {
        Err(Failure::UuidInvalidUtf8)
    } else {
        uuid_of_text(decode_utf8(bytes))
    }
}

/// What the bytes of a UUID field stand for where the field may be filled up
/// with spaces at its end.
pub open spec fn padded_uuid_field(bytes: Seq<u8>) -> Result<u128, Failure> {
    if !valid_utf8(bytes) {
        Err(Failure::UuidInvalidUtf8)
    } else {
        uuid_of_text(trim_trailing_spaces(decode_utf8(bytes)))
    }
}

/// Reads a UUID field.
fn read_uuid_field(bytes: &[u8]) -> (r: Result<u128, NoteError>)
    ensures
        agrees(r, uuid_field(bytes@)),
{
    match text_from_utf8(bytes) {
        Ok(text) => parse_uuid(text),
        Err(e) => Err(NoteError::UuidInvalidUtf8(e)),
    }
}

/// Reads a UUID field that may be filled up with spaces at its end.
fn read_padded_uuid_field(bytes: &[u8]) -> (r: Result<u128, NoteError>)
    ensures
        agrees(r, padded_uuid_field(bytes@)),
{
    match text_from_utf8(bytes) {
        Ok(text) => parse_uuid(trim_end_spaces(text)),
        Err(e) => Err(NoteError::UuidInvalidUtf8(e)),
    }
}

/// The head of a points file.
#[derive(Clone, Copy, Debug, PartialEq, Eq, Structural)]
pub struct Header {
    pub version: u32,
    pub page_id: PageUuid,
    pub points_id: PointsUuid,
}

/// The header that the start of `data` holds. The page id is looked at before
/// the bytes of the points id are asked for, so a short file with a bad page
/// id is rejected for the id.
pub open spec fn decode_header(data: Seq<u8>) -> Result<Header, Failure> {
    if data.len() < 4 + UUID_LEN {
        Err(Failure::Io)
    } else {
        match padded_uuid_field(data.subrange(4, 40)) {
            Err(k) => Err(k),
            Ok(page) => if data.len() < HEADER_LEN {
                Err(Failure::Io)
            } else {
                match padded_uuid_field(data.subrange(40, 76)) {
                    Err(k) => Err(k),
                    Ok(points) => Ok(
                        Header {
                            version: u32_at(data, 0) as u32,
                            page_id: PageUuid(page),
                            points_id: PointsUuid(points),
                        },
                    ),
                }
            },
        }
    }
}

impl Header {
    /// Reads the header from the start of a points file.
    pub fn read(data: &[u8]) -> (r: Result<Header, NoteError>)
        ensures
            agrees(r, decode_header(data@)),
    {
        if data.len() < 4 + UUID_LEN {
            return Err(NoteError::Io(unexpected_end()));
        }
        let version = read_u32_at(data, 0);
        let page = match read_padded_uuid_field(slice_subrange(data, 4, 40)) {
            Ok(v) => v,
            Err(e) => {
                return Err(e);
            },
        };
        if data.len() < HEADER_LEN {
            return Err(NoteError::Io(unexpected_end()));
        }
        match read_padded_uuid_field(slice_subrange(data, 40, 76)) {
            Ok(points) => Ok(
                Header { version, page_id: PageUuid(page), points_id: PointsUuid(points) },
            ),
            Err(e) => Err(e),
        }
    }
}

/// One entry of the points table: which stroke it is, where its samples
/// start and how many they are.
#[derive(Clone, Copy, Debug, PartialEq, Eq, Structural)]
pub struct PointsTableEntry {
    pub stroke_id: StrokeUuid,
    /// Offset in the file of the first sample of the stroke.
    pub start_addr: u32,
    /// Number of samples: the upper 28 bits of the packed field.
    pub point_count: u32,
    /// The lowest four bits of the packed field.
    pub flag: u8,
}

/// The table entry that `data` holds at `at`. The stroke id is looked at
/// before the bytes of the two numbers are asked for.
pub open spec fn decode_entry(data: Seq<u8>, at: int) -> Result<PointsTableEntry, Failure> {
    if at + UUID_LEN > data.len() {
        Err(Failure::Io)
    } else {
        match uuid_field(data.subrange(at, at + 36)) {
            Err(k) => Err(k),
            Ok(id) => if at + ENTRY_LEN > data.len() {
                Err(Failure::Io)
            } else {
                Ok(
                    PointsTableEntry {
                        stroke_id: StrokeUuid(id),
                        start_addr: u32_at(data, at + 36) as u32,
                        point_count: (u32_at(data, at + 40) / 16) as u32,
                        flag: (u32_at(data, at + 40) % 16) as u8,
                    },
                )
            },
        }
    }
}

impl PointsTableEntry {
    /// Reads the table entry that starts at `at`.
    pub fn read(data: &[u8], at: usize) -> (r: Result<PointsTableEntry, NoteError>)
        ensures
            agrees(r, decode_entry(data@, at as int)),
    {
        if at > data.len() || data.len() - at < UUID_LEN {
            return Err(NoteError::Io(unexpected_end()));
        }
        let id = match read_uuid_field(slice_subrange(data, at, at + UUID_LEN)) {
            Ok(v) => v,
            Err(e) => {
                return Err(e);
            },
        };
        if data.len() - at < ENTRY_LEN {
            return Err(NoteError::Io(unexpected_end()));
        }
        let start_addr = read_u32_at(data, at + 36);
        let packed = read_u32_at(data, at + 40);
        Ok(
            PointsTableEntry {
                stroke_id: StrokeUuid(id),
                start_addr,
                point_count: packed / 16,
                flag: (packed % 16) as u8,
            },
        )
    }
}

/// One pen sample of a stroke.
#[derive(Clone, Copy, Debug, PartialEq, Eq, Structural)]
pub struct Point {
    /// Milliseconds since the stroke began.
    pub timestamp_rel: u32,
    pub x: Scalar,
    pub y: Scalar,
    pub tilt_x: i8,
    pub tilt_y: i8,
    pub pressure: u16,
}

/// The pen sample in the sixteen bytes of `data` that start at `at`.
pub open spec fn point_at(data: Seq<u8>, at: int) -> Point {
    Point {
        timestamp_rel: u32_at(data, at) as u32,
        x: Scalar { bits: u32_at(data, at + 4) as u32 },
        y: Scalar { bits: u32_at(data, at + 8) as u32 },
        tilt_x: data[at + 12] as i8,
        tilt_y: data[at + 13] as i8,
        pressure: be_u16(data.subrange(at + 14, at + 16)) as u16,
    }
}

/// The `count` pen samples that lie one after the other from `start` on.
pub open spec fn stroke_points(data: Seq<u8>, start: int, count: int) -> Seq<Point> {
    Seq::new(count as nat, |i: int| point_at(data, start + POINT_LEN * i))
}

/// The samples of the stroke that a table entry describes. An entry without
/// samples is an empty stroke wherever it points; any other must lie within
/// the file.
pub open spec fn decode_stroke(data: Seq<u8>, entry: PointsTableEntry) -> Result<
    Seq<Point>,
    Failure,
> {
    if entry.point_count > 0 && entry.start_addr + POINT_LEN * entry.point_count > data.len() {
        Err(Failure::Io)
    } else {
        Ok(stroke_points(data, entry.start_addr as int, entry.point_count as int))
    }
}

/// Reads the pen sample that starts at `at`.
fn read_point(data: &[u8], at: usize) -> (p: Point)
    requires
        at + POINT_LEN <= data@.len(),
    ensures
        p == point_at(data@, at as int),
{
    let len: usize = data.len();
    assert(at + POINT_LEN <= len);
    let timestamp_rel = read_u32_at(data, at);
    let x = read_u32_at(data, at + 4);
    let y = read_u32_at(data, at + 8);
    let tilt_x: i8 = #[verifier::truncate] (data[at + 12] as i8);
    let tilt_y: i8 = #[verifier::truncate] (data[at + 13] as i8);
    let pressure = read_be_u16(slice_subrange(data, at + 14, at + 16));
    Point { timestamp_rel, x: Scalar { bits: x }, y: Scalar { bits: y }, tilt_x, tilt_y, pressure }
}

/// The pen samples of one stroke, in the order in which they were drawn.
#[derive(Clone, Debug, PartialEq)]
pub struct Stroke {
    pub points: Vec<Point>,
}

impl View for Stroke {
    type V = Seq<Point>;

    open spec fn view(&self) -> Seq<Point> {
        self.points@
    }
}

impl Stroke {
    /// A stroke with the same samples.
    pub fn copy(&self) -> (r: Stroke)
        ensures
            r@ == self@,
    {
        let mut points: Vec<Point> = Vec::new();
        let mut i: usize = 0;
        while i < self.points.len()
            invariant
                i <= self.points@.len(),
                points@ == self.points@.subrange(0, i as int),
            decreases self.points@.len() - i,
        {
            points.push(self.points[i]);
            i = i + 1;
            assert(points@ =~= self.points@.subrange(0, i as int));
        }
        assert(self.points@.subrange(0, i as int) =~= self.points@);
        Stroke { points }
    }

    /// Reads the samples of the stroke that a table entry describes.
    pub fn read(data: &[u8], entry: &PointsTableEntry) -> (r: Result<Stroke, NoteError>)
        ensures
            match decode_stroke(data@, *entry) {
                Ok(points) => r is Ok && r->Ok_0@ == points,
                Err(k) => r is Err && r->Err_0.failure() == k,
            },
    {
        let len: usize = data.len();
        let count: usize = entry.point_count as usize;
        let start: usize = entry.start_addr as usize;
        let mut points: Vec<Point> = Vec::new();
        if count == 0 {
            assert(points@ =~= stroke_points(data@, start as int, 0));
            return Ok(Stroke { points });
        }
        if start > len || (len - start) / POINT_LEN < count {
            return Err(NoteError::Io(unexpected_end()));
        }
        assert(start + POINT_LEN * count <= len) by (nonlinear_arith)
            requires
                (len - start) / 16 >= count,
                start <= len,
                POINT_LEN == 16,
        ;
        let mut i: usize = 0;
        while i < count
            invariant
                i <= count,
                len == data@.len(),
                start + POINT_LEN * count <= len,
                points@ == stroke_points(data@, start as int, i as int),
            decreases count - i,
        {
            let p = read_point(data, start + POINT_LEN * i);
            points.push(p);
            i = i + 1;
            assert(points@ =~= stroke_points(data@, start as int, i as int));
        }
        Ok(Stroke { points })
    }
}

/// How far `pos` is from `end`, where it lies before it.
pub open spec fn distance(pos: int, end: int) -> nat {
    if pos < end {
        (end - pos) as nat
    } else {
        0
    }
}

/// The entries of the points table from `pos` up to, not including, `end`.
/// The entry that starts before `end` is read in full, also where it passes
/// `end`; the first entry that cannot be read decides the outcome.
pub open spec fn decode_table(data: Seq<u8>, pos: int, end: int) -> Result<
    Seq<PointsTableEntry>,
    Failure,
>
    decreases distance(pos, end),
{
    if pos >= end {
        Ok(Seq::empty())
    } else {
        match decode_entry(data, pos) {
            Err(k) => Err(k),
            Ok(entry) => match decode_table(data, pos + ENTRY_LEN, end) {
                Err(k) => Err(k),
                Ok(rest) => Ok(seq![entry] + rest),
            },
        }
    }
}

/// The entries read so far, followed by what is still to be read.
pub open spec fn table_after(
    done: Seq<PointsTableEntry>,
    rest: Result<Seq<PointsTableEntry>, Failure>,
) -> Result<Seq<PointsTableEntry>, Failure> {
    match rest {
        Err(k) => Err(k),
        Ok(entries) => Ok(done + entries),
    }
}

/// The strokes of a table, by stroke id. Of two entries with one id the later
/// one stays; the first stroke that cannot be read decides the outcome.
pub open spec fn decode_strokes(data: Seq<u8>, table: Seq<PointsTableEntry>) -> Result<
    Map<u128, Seq<Point>>,
    Failure,
>
    decreases table.len(),
{
    if table.len() == 0 {
        Ok(Map::empty())
    } else {
        match decode_strokes(data, table.drop_last()) {
            Err(k) => Err(k),
            Ok(strokes) => match decode_stroke(data, table.last()) {
                Err(k) => Err(k),
                Ok(points) => Ok(strokes.insert(table.last().stroke_id.0, points)),
            },
        }
    }
}

/// What a points file holds.
pub struct PointsFileView {
    pub header: Header,
    /// Where the points table starts, as the last four bytes of the file say.
    pub table_start: u32,
    /// The entries of the points table, in file order.
    pub table: Seq<PointsTableEntry>,
    /// The samples of each stroke, by stroke id.
    pub strokes: Map<u128, Seq<Point>>,
}

/// The points file that `data` holds: the header, the table that the trailer
/// points to, and the strokes of the table's entries.
pub open spec fn decode_points_file(data: Seq<u8>) -> Result<PointsFileView, Failure> {
    match decode_header(data) {
        Err(k) => Err(k),
        Ok(header) => {
            let end = data.len() - 4;
            let start = u32_at(data, end) as u32;
            match decode_table(data, start as int, end) {
                Err(k) => Err(k),
                Ok(table) => match decode_strokes(data, table) {
                    Err(k) => Err(k),
                    Ok(strokes) => Ok(
                        PointsFileView { header, table_start: start, table, strokes },
                    ),
                },
            }
        },
    }
}

/// The samples of each stroke of a map of strokes.
pub open spec fn stroke_views(strokes: Map<u128, Stroke>) -> Map<u128, Seq<Point>> {
    Map::new(|id: u128| strokes.contains_key(id), |id: u128| strokes[id]@)
}

/// A decoded points file.
#[derive(Clone, Debug, PartialEq)]
pub struct PointsFile {
    header: Header,
    points_table_start: u32,
    points_table: Vec<PointsTableEntry>,
    points: HashMap<u128, Stroke>,
}

impl View for PointsFile {
    type V = PointsFileView;

    closed spec fn view(&self) -> PointsFileView {
        PointsFileView {
            header: self.header,
            table_start: self.points_table_start,
            table: self.points_table@,
            strokes: stroke_views(self.points@),
        }
    }
}

impl PointsFile {
    /// Decodes a points file: the header, the trailer, the table from where
    /// the trailer points to up to the trailer, then the samples of each
    /// entry. The version is kept and not looked at.
    pub fn read(data: &[u8]) -> (r: Result<PointsFile, NoteError>)
        ensures
            match decode_points_file(data@) {
                Ok(file) => r is Ok && r->Ok_0@ == file,
                Err(k) => r is Err && r->Err_0.failure() == k,
            },
    {
        let header = match Header::read(data) {
            Ok(h) => h,
            Err(e) => {
                return Err(e);
            },
        };
        let len: usize = data.len();
        let end: usize = len - 4;
        let table_start: u32 = read_u32_at(data, end);
        let mut pos: usize = table_start as usize;
        let mut points_table: Vec<PointsTableEntry> = Vec::new();
        assert(Seq::<PointsTableEntry>::empty() + decode_table(data@, pos as int, end as int)->Ok_0
            =~= decode_table(data@, pos as int, end as int)->Ok_0);
        while pos < end
            invariant
                len == data@.len(),
                end == len - 4,
                decode_header(data@) == Ok::<Header, Failure>(header),
                table_start as int == u32_at(data@, end as int),
                table_after(points_table@, decode_table(data@, pos as int, end as int))
                    == decode_table(data@, table_start as int, end as int),
            decreases distance(pos as int, end as int),
        {
            match PointsTableEntry::read(data, pos) {
                Err(e) => {
                    return Err(e);
                },
                Ok(entry) => {
                    proof {
                        let rest = decode_table(data@, pos + ENTRY_LEN, end as int);
                        if rest is Ok {
                            assert(points_table@ + (seq![entry] + rest->Ok_0) =~= points_table@.push(
                                entry,
                            ) + rest->Ok_0);
                        }
                    }
                    points_table.push(entry);
                    pos = pos + ENTRY_LEN;
                },
            }
        }
        assert(points_table@ + Seq::<PointsTableEntry>::empty() =~= points_table@);
        let mut points: HashMap<u128, Stroke> = HashMap::new();
        let mut i: usize = 0;
        assert(stroke_views(points@) =~= Map::<u128, Seq<Point>>::empty());
        assert(points_table@.subrange(0, 0) =~= Seq::<PointsTableEntry>::empty());
        while i < points_table.len()
            invariant
                i <= points_table@.len(),
                len == data@.len(),
                end == len - 4,
                decode_header(data@) == Ok::<Header, Failure>(header),
                table_start as int == u32_at(data@, end as int),
                decode_table(data@, table_start as int, end as int) == Ok::<
                    Seq<PointsTableEntry>,
                    Failure,
                >(points_table@),
                decode_strokes(data@, points_table@.subrange(0, i as int)) == Ok::<
                    Map<u128, Seq<Point>>,
                    Failure,
                >(stroke_views(points@)),
            decreases points_table@.len() - i,
        {
            let entry = points_table[i];
            proof {
                let next = points_table@.subrange(0, i + 1);
                assert(next.drop_last() =~= points_table@.subrange(0, i as int));
                assert(next.last() == entry);
            }
            match Stroke::read(data, &entry) {
                Err(e) => {
                    proof {
                        lemma_strokes_fail_on(data@, points_table@, i + 1);
                    }
                    return Err(e);
                },
                Ok(stroke) => {
                    let ghost before = points@;
                    points.insert(entry.stroke_id.0, stroke);
                    assert(stroke_views(points@) =~= stroke_views(before).insert(
                        entry.stroke_id.0,
                        stroke@,
                    ));
                    i = i + 1;
                },
            }
        }
        assert(points_table@.subrange(0, i as int) =~= points_table@);
        Ok(PointsFile { header, points_table_start: table_start, points_table, points })
    }

    /// The head of the file.
    pub fn header(&self) -> (h: &Header)
        ensures
            *h == self@.header,
    {
        &self.header
    }

    /// The entries of the points table, in file order.
    pub fn points_table(&self) -> (t: &Vec<PointsTableEntry>)
        ensures
            t@ == self@.table,
    {
        &self.points_table
    }

    /// Where the points table starts in the file.
    pub fn points_table_start(&self) -> (start: u32)
        ensures
            start == self@.table_start,
    {
        self.points_table_start
    }

    /// The stroke of the given id; that there is none is an error.
    pub fn stroke(&self, stroke_id: &StrokeUuid) -> (r: Result<&Stroke, NoteError>)
        ensures
            match r {
                Ok(stroke) => self@.strokes.contains_key(stroke_id.0) && stroke@
                    == self@.strokes[stroke_id.0],
                Err(e) => !self@.strokes.contains_key(stroke_id.0) && e.failure()
                    == Failure::StrokeNotFound,
            },
    {
        match self.points.get(&stroke_id.0) {
            Some(stroke) => Ok(stroke),
            None => Err(NoteError::StrokeNotFound),
        }
    }

    /// The stroke of the given id, if the file holds one.
    pub fn get_stroke(&self, stroke_id: &StrokeUuid) -> (r: Option<&Stroke>)
        ensures
            match r {
                Some(stroke) => self@.strokes.contains_key(stroke_id.0) && stroke@
                    == self@.strokes[stroke_id.0],
                None => !self@.strokes.contains_key(stroke_id.0),
            },
    {
        self.points.get(&stroke_id.0)
    }
}

/// Where the strokes of the first `n` entries of a table cannot be read, those
/// of the whole table cannot be read, for the same reason.
pub proof fn lemma_strokes_fail_on(data: Seq<u8>, table: Seq<PointsTableEntry>, n: int)
    requires
        0 <= n <= table.len(),
        decode_strokes(data, table.subrange(0, n)) is Err,
    ensures
        decode_strokes(data, table) == decode_strokes(data, table.subrange(0, n)),
    decreases table.len() - n,
{
    if n == table.len() {
        assert(table.subrange(0, n) =~= table);
    } else {
        assert(table.subrange(0, n + 1).drop_last() =~= table.subrange(0, n));
        lemma_strokes_fail_on(data, table, n + 1);
    }
}

/// Where the strokes of a table can be read, the stroke of each entry can be
/// read and is kept under the entry's id, unless a later entry has that id.
pub proof fn lemma_strokes_of_entries(
    data: Seq<u8>,
    table: Seq<PointsTableEntry>,
    strokes: Map<u128, Seq<Point>>,
    i: int,
)
    requires
        decode_strokes(data, table) == Ok::<Map<u128, Seq<Point>>, Failure>(strokes),
        0 <= i < table.len(),
    ensures
        decode_stroke(data, table[i]) is Ok,
        strokes.contains_key(table[i].stroke_id.0),
        (forall|k: int| i < k < table.len() ==> table[k].stroke_id != table[i].stroke_id)
            ==> strokes[table[i].stroke_id.0] == decode_stroke(data, table[i])->Ok_0,
    decreases table.len(),
{
    if i < table.len() - 1 {
        let before = decode_strokes(data, table.drop_last())->Ok_0;
        lemma_strokes_of_entries(data, table.drop_last(), before, i);
        if forall|k: int| i < k < table.len() ==> table[k].stroke_id != table[i].stroke_id {
            assert(table.last().stroke_id != table[i].stroke_id);
            assert(forall|k: int|
                i < k < table.drop_last().len() ==> table.drop_last()[k].stroke_id
                    != table.drop_last()[i].stroke_id);
        }
    }
}

/// In every decoded points file, the samples of each entry of the points
/// table lie within the file, and the stroke kept under the entry's id holds
/// as many samples as the entry says, in file order, unless a later entry
/// has the same id.
pub proof fn lemma_decoded_strokes(data: Seq<u8>, file: PointsFileView, i: int)
    requires
        decode_points_file(data) == Ok::<PointsFileView, Failure>(file),
        0 <= i < file.table.len(),
    ensures
        file.table[i].point_count > 0 ==> file.table[i].start_addr + POINT_LEN
            * file.table[i].point_count <= data.len(),
        file.strokes.contains_key(file.table[i].stroke_id.0),
        (forall|k: int| i < k < file.table.len() ==> file.table[k].stroke_id
            != file.table[i].stroke_id) ==> {
            let stroke = file.strokes[file.table[i].stroke_id.0];
            &&& stroke.len() == file.table[i].point_count
            &&& forall|j: int|
                0 <= j < stroke.len() ==> stroke[j] == point_at(
                    data,
                    file.table[i].start_addr + POINT_LEN * j,
                )
        },
{
    lemma_strokes_of_entries(data, file.table, file.strokes, i);
}

} // verus!
