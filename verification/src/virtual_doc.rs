//! The virtual document of a note: which page is its template and what it
//! shows.

pub mod json;
pub mod protobuf;

use vstd::prelude::*;
use crate::error::{Failure, NoteError};
use crate::id::{uuid_text_value, PageUuid, VirtualDocUuid};
use crate::scalar::Scalar;
use crate::utils::{convert_timestamp_to_datetime, parse_json, timestamp_of, Timestamp};
use crate::virtual_doc::json::Content;

verus! {

/// The virtual document of a note.
#[derive(Clone, Debug, PartialEq)]
pub struct VirtualDoc {
    pub virtual_doc_id: VirtualDocUuid,
    pub created: Timestamp,
    pub modified: Timestamp,
    /// The template page.
    pub page_id: PageUuid,
    pub stability: Scalar,
    pub content: Content,
}

/// Why the record of a virtual document is rejected, if it is: the first of
/// its fields, in the order of the record, that cannot be decoded.
pub open spec fn virtual_doc_failure(
    record: protobuf::VirtualDoc,
    content: Result<Content, serde_json::Error>,
) -> Option<Failure> {
    if uuid_text_value(record.virtual_doc_uuid@) is None {
        Some(Failure::UuidParse)
    } else if timestamp_of(record.created) is None {
        Some(Failure::InvalidTimestamp(record.created))
    } else if timestamp_of(record.modified) is None {
        Some(Failure::InvalidTimestamp(record.modified))
    } else if uuid_text_value(record.template_uuid@) is None {
        Some(Failure::UuidParse)
    } else if content is Err {
        Some(Failure::Json(record.content_json@))
    } else {
        None
    }
}

/// The virtual document that a record without a fault stands for.
pub open spec fn virtual_doc_value(
    record: protobuf::VirtualDoc,
    content: Result<Content, serde_json::Error>,
) -> VirtualDoc {
    VirtualDoc {
        virtual_doc_id: VirtualDocUuid(uuid_text_value(record.virtual_doc_uuid@).unwrap()),
        created: timestamp_of(record.created).unwrap(),
        modified: timestamp_of(record.modified).unwrap(),
        page_id: PageUuid(uuid_text_value(record.template_uuid@).unwrap()),
        stability: record.stability,
        content: content->Ok_0,
    }
}

impl VirtualDoc {
    /// Decodes the record of a virtual document, given what the JSON codec
    /// made of its content document.
    pub fn read(doc: protobuf::VirtualDoc, content: Result<Content, serde_json::Error>) -> (r:
        Result<VirtualDoc, NoteError>)
        ensures
            match virtual_doc_failure(doc, content) {
                Some(k) => r is Err && r->Err_0.failure() == k,
                None => r == Ok::<VirtualDoc, NoteError>(virtual_doc_value(doc, content)),
            },
    {
        let virtual_doc_id = match VirtualDocUuid::from_str(doc.virtual_doc_uuid.as_str()) {
            Ok(v) => v,
            Err(e) => {
                return Err(e);
            },
        };
        let created = match convert_timestamp_to_datetime(doc.created) {
            Ok(v) => v,
            Err(e) => {
                return Err(e);
            },
        };
        let modified = match convert_timestamp_to_datetime(doc.modified) {
            Ok(v) => v,
            Err(e) => {
                return Err(e);
            },
        };
        let page_id = match PageUuid::from_str(doc.template_uuid.as_str()) {
            Ok(v) => v,
            Err(e) => {
                return Err(e);
            },
        };
        let content = match parse_json(content, doc.content_json.as_str()) {
            Ok(v) => v,
            Err(e) => {
                return Err(e);
            },
        };
        Ok(VirtualDoc { virtual_doc_id, created, modified, page_id, stability: doc.stability, content })
    }
}

} // verus!
