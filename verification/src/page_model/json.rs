//! The JSON documents of a page model.

use vstd::prelude::*;
use crate::json::Layer;

verus! {

/// The layers of a page.
#[derive(Clone, Debug, PartialEq)]
pub struct PageModelLayers {
    pub layer_list: Vec<Layer>,
}

} // verus!
