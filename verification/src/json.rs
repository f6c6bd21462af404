//! Records that several JSON documents share.

use vstd::prelude::*;
use crate::id::LayerId;
use crate::scalar::Scalar;

verus! {

/// A rectangle by its four edges.
#[derive(Clone, Debug, PartialEq)]
pub struct Dimensions {
    pub top: Scalar,
    pub right: Scalar,
    pub bottom: Scalar,
    pub left: Scalar,
    pub empty: bool,
    pub stability: u32,
}

/// One layer of a page.
#[derive(Clone, Debug, PartialEq)]
pub struct Layer {
    pub id: LayerId,
    pub lock: bool,
    pub show: bool,
}

} // verus!
