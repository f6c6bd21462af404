//! The JSON documents of a shape.

use vstd::prelude::*;
use crate::scalar::Scalar;

verus! {

/// The scale at which a shape was drawn.
#[derive(Clone, Debug, PartialEq)]
pub struct DisplayScale {
    pub display_scale: Scalar,
    pub max_pressure: Scalar,
    pub revised_display_scale: Scalar,
    pub source: u32,
}

/// The line style of a shape.
#[derive(Clone, Debug, PartialEq)]
pub struct LineStyleContainer {
    pub line_style: LineStyle,
}

/// How a line is dashed.
#[derive(Clone, Debug, PartialEq)]
pub struct LineStyle {
    pub phase: Scalar,
    pub type_: u8,
}

} // verus!
