//! Virtual pages: the geometry of each page of a note.

pub mod protobuf;

use vstd::prelude::*;
use crate::error::{Failure, NoteError};
use crate::id::{uuid_text_value, PageUuid};
use crate::json::Dimensions;
use crate::scalar::Scalar;
use crate::utils::{convert_timestamp_to_datetime, parse_json, timestamp_of, Timestamp};

verus! {

/// The geometry of one page.
#[derive(Clone, Debug, PartialEq)]
pub struct VirtualPage {
    pub page_id: PageUuid,
    pub created: Timestamp,
    pub modified: Timestamp,
    pub zoom_scale: Scalar,
    pub dimensions: Dimensions,
    pub layout: Dimensions,
    pub geo: Dimensions,
    pub geo_layout: String,
    pub template_path: String,
    pub page_number: String,
}

/// What the JSON codec made of the three JSON documents of a virtual page.
pub struct VirtualPageDocuments {
    pub dimensions: Result<Dimensions, serde_json::Error>,
    pub layout: Result<Dimensions, serde_json::Error>,
    pub geo: Result<Dimensions, serde_json::Error>,
}

/// Why the record of a virtual page is rejected, if it is: the first of its
/// fields, in the order of the record, that cannot be decoded.
pub open spec fn virtual_page_failure(
    record: protobuf::VirtualPage,
    docs: VirtualPageDocuments,
) -> Option<Failure> {
    if uuid_text_value(record.uuid@) is None {
        Some(Failure::UuidParse)
    } else if timestamp_of(record.created) is None {
        Some(Failure::InvalidTimestamp(record.created))
    } else if timestamp_of(record.modified) is None {
        Some(Failure::InvalidTimestamp(record.modified))
    } else if docs.dimensions is Err {
        Some(Failure::Json(record.dimensions_json@))
    } else if docs.layout is Err {
        Some(Failure::Json(record.layout_json@))
    } else if docs.geo is Err {
        Some(Failure::Json(record.geo_json@))
    } else {
        None
    }
}

/// The virtual page that a record without a fault stands for.
pub open spec fn virtual_page_value(
    record: protobuf::VirtualPage,
    docs: VirtualPageDocuments,
) -> VirtualPage {
    VirtualPage {
        page_id: PageUuid(uuid_text_value(record.uuid@).unwrap()),
        created: timestamp_of(record.created).unwrap(),
        modified: timestamp_of(record.modified).unwrap(),
        zoom_scale: record.zoom_scale,
        dimensions: docs.dimensions->Ok_0,
        layout: docs.layout->Ok_0,
        geo: docs.geo->Ok_0,
        geo_layout: record.geo_layout,
        template_path: record.template_path,
        page_number: record.page_number,
    }
}

impl VirtualPage {
    /// Decodes the file of a virtual page, given what the JSON codec made of
    /// the documents of its record.
    pub fn read(container: protobuf::VirtualPageContainer, docs: VirtualPageDocuments) -> (r:
        Result<VirtualPage, NoteError>)
        ensures
            match virtual_page_failure(container.virtual_page, docs) {
                Some(k) => r is Err && r->Err_0.failure() == k,
                None => r == Ok::<VirtualPage, NoteError>(
                    virtual_page_value(container.virtual_page, docs),
                ),
            },
    {
        let record = container.virtual_page;
        let page_id = match PageUuid::from_str(record.uuid.as_str()) {
            Ok(v) => v,
            Err(e) => {
                return Err(e);
            },
        };
        let created = match convert_timestamp_to_datetime(record.created) {
            Ok(v) => v,
            Err(e) => {
                return Err(e);
            },
        };
        let modified = match convert_timestamp_to_datetime(record.modified) {
            Ok(v) => v,
            Err(e) => {
                return Err(e);
            },
        };
        let dimensions = match parse_json(docs.dimensions, record.dimensions_json.as_str()) {
            Ok(v) => v,
            Err(e) => {
                return Err(e);
            },
        };
        let layout = match parse_json(docs.layout, record.layout_json.as_str()) {
            Ok(v) => v,
            Err(e) => {
                return Err(e);
            },
        };
        let geo = match parse_json(docs.geo, record.geo_json.as_str()) {
            Ok(v) => v,
            Err(e) => {
                return Err(e);
            },
        };
        Ok(
            VirtualPage {
                page_id,
                created,
                modified,
                zoom_scale: record.zoom_scale,
                dimensions,
                layout,
                geo,
                geo_layout: record.geo_layout,
                template_path: record.template_path,
                page_number: record.page_number,
            },
        )
    }
}

} // verus!
