//! The metadata records of a container, as the protobuf codec hands them over.

use vstd::prelude::*;
use crate::scalar::Scalar;

verus! {

/// The list of the notes of a container.
#[derive(Clone, Debug, PartialEq)]
pub struct NoteTree {
    /// Field 1 of the record.
    pub notes: Vec<NoteMetadata>,
}

/// The metadata of one note, undecoded.
#[derive(Clone, Debug, PartialEq)]
pub struct NoteMetadata {
    /// Field 1 of the record.
    pub note_id: String,
    /// Field 2 of the record.
    pub created: u64,
    /// Field 3 of the record.
    pub modified: u64,
    /// Field 6 of the record.
    pub note_name: String,
    /// Field 8 of the record.
    pub flag: u32,
    /// Field 9 of the record.
    pub pen_width: Scalar,
    /// Field 10 of the record.
    pub scale_factor: Scalar,
    /// Field 11 of the record.
    pub pen_settings_json: String,
    /// Field 12 of the record.
    pub canvas_state_json: String,
    /// Field 13 of the record.
    pub background_config_json: String,
    /// Field 14 of the record.
    pub device_info_json: String,
    /// Field 15 of the record.
    pub fill_color: u32,
    /// Field 16 of the record.
    pub pen_type: u32,
    /// Field 20 of the record.
    pub active_pages_json: String,
    /// Field 21 of the record.
    pub reserved_pages_json: String,
    /// Field 22 of the record.
    pub canvas_width: Scalar,
    /// Field 23 of the record.
    pub canvas_height: Scalar,
    /// Field 24 of the record.
    pub location: String,
    /// Field 31 of the record.
    pub has_share_section: u32,
    /// Field 32 of the record.
    pub stroke_data_len: u32,
    /// Field 37 of the record.
    pub has_share_user: u32,
    /// Field 39 of the record.
    pub share_user: String,
    /// Field 40 of the record.
    pub has_json7: u32,
    /// Field 44 of the record.
    pub detached_pages_json: String,
}

} // verus!
