//! The note tree: the metadata of every note of a container.

pub mod json;
pub mod protobuf;

use vstd::prelude::*;
use crate::error::{Failure, NoteError};
use crate::id::{uuid_text_value, NoteUuid};
use crate::note_tree::json::{
    BackgroundConfig, CanvasState, DeviceInfo, PageNameList, PenSettings,
};
use crate::scalar::Scalar;
use crate::utils::{convert_timestamp_to_datetime, parse_json, reversed, timestamp_of, Timestamp};

verus! {

/// The text that `regex::Regex::replace_all` makes of `text`, for the regular
/// expression `pattern` and the replacement `replacement`; nothing where
/// `regex::Regex::new` rejects the pattern.
pub uninterp spec fn regex_replaced(
    pattern: Seq<char>,
    text: Seq<char>,
    replacement: Seq<char>,
) -> Option<Seq<char>>;

/// Compiles a regular expression with `regex::Regex::new` and replaces each
/// of its matches in `text` with `regex::Regex::replace_all`. The contract
/// gives the outcome the name [`regex_replaced`].
#[verifier::external_body]
pub(crate) fn regex_replace_all(pattern: &str, text: &str, replacement: &str) -> (r: Option<
    String,
>)
    ensures
        r is Some <==> regex_replaced(pattern@, text@, replacement@) is Some,
        r matches Some(t) ==> regex_replaced(pattern@, text@, replacement@) == Some(t@),
{
    match regex::Regex::new(pattern) {
        Ok(re) => Some(re.replace_all(text, replacement).into_owned()),
        Err(_) => None,
    }
}

/// The text of the pen settings with each bare integer key put in double
/// quotes: every run of digits that a colon follows is wrapped.
pub open spec fn quoted_integer_keys(text: Seq<char>) -> Seq<char> {
    match regex_replaced("(\\d+):"@, text, "\"$1\":"@) {
        Some(fixed) => fixed,
        None => text,
    }
}

/// Puts the bare integer keys of the pen settings in double quotes, so that
/// the text is JSON.
pub fn fix_pen_settings_json(text: &str) -> (r: String)
    ensures
        r@ == quoted_integer_keys(text@),
{
    match regex_replace_all("(\\d+):", text, "\"$1\":") {
        Some(fixed) => fixed,
        None => text.to_owned(),
    }
}

/// The metadata of one note.
#[derive(Clone, Debug, PartialEq)]
pub struct NoteMetadata {
    pub note_id: NoteUuid,
    pub created: Timestamp,
    pub modified: Timestamp,
    pub name: String,
    /// A field of bits, kept as it was found.
    pub flag: u32,
    pub pen_width: Scalar,
    pub scale_factor: Scalar,
    pub pen_settings: PenSettings,
    pub canvas_state: CanvasState,
    pub background_config: BackgroundConfig,
    pub device_info: DeviceInfo,
    /// An ARGB colour.
    pub fill_color: u32,
    pub pen_type: u32,
    pub active_pages: PageNameList,
    pub reserved_pages: PageNameList,
    pub canvas_width: Scalar,
    pub canvas_height: Scalar,
    pub location: String,
    pub has_share_section: u32,
    pub stroke_data_len: u32,
    pub has_share_user: u32,
    pub share_user: String,
    pub detached_pages: PageNameList,
}

/// What the JSON codec made of the JSON documents of a note's metadata. The
/// pen settings are those of the text that [`fix_pen_settings_json`] gives.
pub struct NoteDocuments {
    pub pen_settings: Result<PenSettings, serde_json::Error>,
    pub canvas_state: Result<CanvasState, serde_json::Error>,
    pub background_config: Result<BackgroundConfig, serde_json::Error>,
    pub device_info: Result<DeviceInfo, serde_json::Error>,
    pub active_pages: Result<PageNameList, serde_json::Error>,
    pub reserved_pages: Result<PageNameList, serde_json::Error>,
    pub detached_pages: Result<PageNameList, serde_json::Error>,
}

/// Why the record of a note is rejected, if it is: the first of its fields,
/// in the order of the record, that cannot be decoded.
pub open spec fn note_failure(record: protobuf::NoteMetadata, docs: NoteDocuments) -> Option<
    Failure,
> {
    if uuid_text_value(record.note_id@) is None {
        Some(Failure::UuidParse)
    } else if timestamp_of(record.created) is None {
        Some(Failure::InvalidTimestamp(record.created))
    } else if timestamp_of(record.modified) is None {
        Some(Failure::InvalidTimestamp(record.modified))
    } else if docs.pen_settings is Err {
        Some(Failure::Json(quoted_integer_keys(record.pen_settings_json@)))
    } else if docs.canvas_state is Err {
        Some(Failure::Json(record.canvas_state_json@))
    } else if docs.background_config is Err {
        Some(Failure::Json(record.background_config_json@))
    } else if docs.device_info is Err {
        Some(Failure::Json(record.device_info_json@))
    } else if docs.active_pages is Err {
        Some(Failure::Json(record.active_pages_json@))
    } else if docs.reserved_pages is Err {
        Some(Failure::Json(record.reserved_pages_json@))
    } else if docs.detached_pages is Err {
        Some(Failure::Json(record.detached_pages_json@))
    } else {
        None
    }
}

/// The metadata that a record without a fault stands for.
pub open spec fn note_value(record: protobuf::NoteMetadata, docs: NoteDocuments) -> NoteMetadata {
    NoteMetadata {
        note_id: NoteUuid(uuid_text_value(record.note_id@).unwrap()),
        created: timestamp_of(record.created).unwrap(),
        modified: timestamp_of(record.modified).unwrap(),
        name: record.note_name,
        flag: record.flag,
        pen_width: record.pen_width,
        scale_factor: record.scale_factor,
        pen_settings: docs.pen_settings->Ok_0,
        canvas_state: docs.canvas_state->Ok_0,
        background_config: docs.background_config->Ok_0,
        device_info: docs.device_info->Ok_0,
        fill_color: record.fill_color,
        pen_type: record.pen_type,
        active_pages: docs.active_pages->Ok_0,
        reserved_pages: docs.reserved_pages->Ok_0,
        canvas_width: record.canvas_width,
        canvas_height: record.canvas_height,
        location: record.location,
        has_share_section: record.has_share_section,
        stroke_data_len: record.stroke_data_len,
        has_share_user: record.has_share_user,
        share_user: record.share_user,
        detached_pages: docs.detached_pages->Ok_0,
    }
}

/// What the record of a note stands for: the metadata, or why it is rejected.
pub open spec fn note_of(record: protobuf::NoteMetadata, docs: NoteDocuments) -> Result<
    NoteMetadata,
    Failure,
> {
    match note_failure(record, docs) {
        Some(k) => Err(k),
        None => Ok(note_value(record, docs)),
    }
}

impl NoteMetadata {
    /// Decodes the record of a note, given what the JSON codec made of its
    /// documents.
    pub fn from_protobuf(note: &protobuf::NoteMetadata, docs: NoteDocuments) -> (r: Result<
        NoteMetadata,
        NoteError,
    >)
        ensures
            match note_failure(*note, docs) {
                Some(k) => r is Err && r->Err_0.failure() == k,
                None => r == Ok::<NoteMetadata, NoteError>(note_value(*note, docs)),
            },
    {
        let note_id = match NoteUuid::from_str(note.note_id.as_str()) {
            Ok(v) => v,
            Err(e) => {
                return Err(e);
            },
        };
        let created = match convert_timestamp_to_datetime(note.created) {
            Ok(v) => v,
            Err(e) => {
                return Err(e);
            },
        };
        let modified = match convert_timestamp_to_datetime(note.modified) {
            Ok(v) => v,
            Err(e) => {
                return Err(e);
            },
        };
        let fixed_pen_settings_json = fix_pen_settings_json(note.pen_settings_json.as_str());
        let pen_settings = match parse_json(docs.pen_settings, fixed_pen_settings_json.as_str()) {
            Ok(v) => v,
            Err(e) => {
                return Err(e);
            },
        };
        let canvas_state = match parse_json(docs.canvas_state, note.canvas_state_json.as_str()) {
            Ok(v) => v,
            Err(e) => {
                return Err(e);
            },
        };
        let background_config = match parse_json(
            docs.background_config,
            note.background_config_json.as_str(),
        ) {
            Ok(v) => v,
            Err(e) => {
                return Err(e);
            },
        };
        let device_info = match parse_json(docs.device_info, note.device_info_json.as_str()) {
            Ok(v) => v,
            Err(e) => {
                return Err(e);
            },
        };
        let active_pages = match parse_json(docs.active_pages, note.active_pages_json.as_str()) {
            Ok(v) => v,
            Err(e) => {
                return Err(e);
            },
        };
        let reserved_pages = match parse_json(
            docs.reserved_pages,
            note.reserved_pages_json.as_str(),
        ) {
            Ok(v) => v,
            Err(e) => {
                return Err(e);
            },
        };
        let detached_pages = match parse_json(
            docs.detached_pages,
            note.detached_pages_json.as_str(),
        ) {
            Ok(v) => v,
            Err(e) => {
                return Err(e);
            },
        };
        Ok(
            NoteMetadata {
                note_id,
                created,
                modified,
                name: note.note_name.clone(),
                flag: note.flag,
                pen_width: note.pen_width,
                scale_factor: note.scale_factor,
                pen_settings,
                canvas_state,
                background_config,
                device_info,
                fill_color: note.fill_color,
                pen_type: note.pen_type,
                active_pages,
                reserved_pages,
                canvas_width: note.canvas_width,
                canvas_height: note.canvas_height,
                location: note.location.clone(),
                has_share_section: note.has_share_section,
                stroke_data_len: note.stroke_data_len,
                has_share_user: note.has_share_user,
                share_user: note.share_user.clone(),
                detached_pages,
            },
        )
    }
}

/// The metadata that a list of records stands for, in the order of the
/// records; the first record that is rejected decides the outcome.
pub open spec fn notes_of(records: Seq<(protobuf::NoteMetadata, NoteDocuments)>) -> Result<
    Seq<NoteMetadata>,
    Failure,
>
    decreases records.len(),
{
    if records.len() == 0 {
        Ok(Seq::empty())
    } else {
        match notes_of(records.drop_last()) {
            Err(k) => Err(k),
            Ok(notes) => match note_of(records.last().0, records.last().1) {
                Err(k) => Err(k),
                Ok(note) => Ok(notes.push(note)),
            },
        }
    }
}

/// Where the first `n` records of a list are rejected, the list is rejected
/// for the same reason.
pub proof fn lemma_notes_fail_on(records: Seq<(protobuf::NoteMetadata, NoteDocuments)>, n: int)
    requires
        0 <= n <= records.len(),
        notes_of(records.subrange(0, n)) is Err,
    ensures
        notes_of(records) == notes_of(records.subrange(0, n)),
    decreases records.len() - n,
{
    if n == records.len() {
        assert(records.subrange(0, n) =~= records);
    } else {
        assert(records.subrange(0, n + 1).drop_last() =~= records.subrange(0, n));
        lemma_notes_fail_on(records, n + 1);
    }
}

/// The index of the last note of the given id, if there is one. Of two notes
/// with one id the later one stands for the id.
pub open spec fn note_index(notes: Seq<NoteMetadata>, id: NoteUuid) -> Option<int>
    decreases notes.len(),
{
    if notes.len() == 0 {
        None
    } else if notes.last().note_id == id {
        Some(notes.len() - 1)
    } else {
        note_index(notes.drop_last(), id)
    }
}

/// The metadata of the notes of a container.
#[derive(Clone, Debug, PartialEq)]
pub struct NoteTree {
    pub notes: Vec<NoteMetadata>,
}

impl NoteTree {
    /// Decodes the records of the note tree, each with what the JSON codec
    /// made of its documents.
    pub fn read(records: Vec<(protobuf::NoteMetadata, NoteDocuments)>) -> (r: Result<
        NoteTree,
        NoteError,
    >)
        ensures
            match notes_of(records@) {
                Ok(notes) => r is Ok && r->Ok_0.notes@ == notes,
                Err(k) => r is Err && r->Err_0.failure() == k,
            },
    {
        let ghost all = records@;
        let mut rest = reversed(records);
        let mut notes: Vec<NoteMetadata> = Vec::new();
        assert(all.subrange(0, 0) =~= Seq::<(protobuf::NoteMetadata, NoteDocuments)>::empty());
        while rest.len() > 0
            invariant
                all == records@,
                rest@.len() <= all.len(),
                rest@ == all.reverse().subrange(0, rest@.len() as int),
                notes_of(all.subrange(0, all.len() - rest@.len())) == Ok::<
                    Seq<NoteMetadata>,
                    Failure,
                >(notes@),
            decreases rest@.len(),
        {
            let ghost done = all.len() - rest@.len();
            let (record, docs) = rest.pop().unwrap();
            proof {
                assert((record, docs) == all[done]);
                assert(all.subrange(0, done + 1).drop_last() =~= all.subrange(0, done));
            }
            match NoteMetadata::from_protobuf(&record, docs) {
                Err(e) => {
                    proof {
                        lemma_notes_fail_on(all, done + 1);
                    }
                    return Err(e);
                },
                Ok(note) => {
                    notes.push(note);
                },
            }
        }
        assert(all.subrange(0, all.len() as int) =~= all);
        Ok(NoteTree { notes })
    }

    /// The metadata of the note of the given id, if the tree holds one.
    pub fn get(&self, id: &NoteUuid) -> (r: Option<&NoteMetadata>)
        ensures
            match note_index(self.notes@, *id) {
                Some(i) => r == Some(&self.notes@[i]),
                None => r is None,
            },
    {
        let mut i: usize = self.notes.len();
        assert(self.notes@.subrange(0, i as int) =~= self.notes@);
        while i > 0
            invariant
                i <= self.notes@.len(),
                note_index(self.notes@, *id) == note_index(self.notes@.subrange(0, i as int), *id),
            decreases i,
        {
            proof {
                let head = self.notes@.subrange(0, i as int);
                assert(head.last() == self.notes@[i - 1]);
                assert(head.drop_last() =~= self.notes@.subrange(0, i - 1));
            }
            if self.notes[i - 1].note_id == *id {
                return Some(&self.notes[i - 1]);
            }
            i = i - 1;
        }
        None
    }
}

} // verus!
