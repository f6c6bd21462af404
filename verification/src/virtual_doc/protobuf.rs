//! The record of a virtual document, as the protobuf codec hands it over.

use vstd::prelude::*;
use crate::scalar::Scalar;

verus! {

/// A virtual document, undecoded.
#[derive(Clone, Debug, PartialEq)]
pub struct VirtualDoc {
    /// Field 1 of the record.
    pub virtual_doc_uuid: String,
    /// Field 2 of the record.
    pub created: u64,
    /// Field 3 of the record.
    pub modified: u64,
    /// Field 4 of the record.
    pub template_uuid: String,
    /// Field 5 of the record.
    pub stability: Scalar,
    /// Field 9 of the record.
    pub content_json: String,
}

} // verus!
