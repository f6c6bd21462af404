//! The record of a virtual page, as the protobuf codec hands it over.

use vstd::prelude::*;
use crate::scalar::Scalar;

verus! {

/// The file of one virtual page.
#[derive(Clone, Debug, PartialEq)]
pub struct VirtualPageContainer {
    /// Field 1 of the record.
    pub virtual_page: VirtualPage,
}

/// A virtual page, undecoded.
#[derive(Clone, Debug, PartialEq)]
pub struct VirtualPage {
    /// Field 1 of the record.
    pub uuid: String,
    /// Field 2 of the record.
    pub created: u64,
    /// Field 3 of the record.
    pub modified: u64,
    /// Field 4 of the record.
    pub zoom_scale: Scalar,
    /// Field 6 of the record.
    pub dimensions_json: String,
    /// Field 7 of the record.
    pub layout_json: String,
    /// Field 8 of the record.
    pub geo_json: String,
    /// Field 9 of the record.
    pub geo_layout: String,
    /// Field 10 of the record.
    pub template_path: String,
    /// Field 12 of the record.
    pub page_number: String,
}

} // verus!
