//! The JSON documents of a virtual document.

use vstd::prelude::*;
use crate::json::Dimensions;

verus! {

/// What a virtual document shows.
#[derive(Clone, Debug, PartialEq)]
pub struct Content {
    pub content_id: String,
    pub content_page_id: String,
    pub content_page_size: Dimensions,
    pub content_relative_path: String,
    pub content_type: String,
}

} // verus!
