//! The records of page models, as the protobuf codec hands them over.

use vstd::prelude::*;

verus! {

/// The file of a group of page models.
#[derive(Clone, Debug, PartialEq)]
pub struct PageModelContainer {
    /// Field 1 of the record.
    pub page_model: Vec<PageModel>,
}

/// A page model, undecoded.
#[derive(Clone, Debug, PartialEq)]
pub struct PageModel {
    /// Field 1 of the record.
    pub page_uuid: String,
    /// Field 2 of the record.
    pub layers_json: String,
    /// Field 5 of the record.
    pub created: u64,
    /// Field 6 of the record.
    pub modified: u64,
    /// Field 7 of the record.
    pub dimensions_json: String,
}

} // verus!
