//! The records of shapes, as the protobuf codec hands them over.

use vstd::prelude::*;
use crate::scalar::Scalar;

verus! {

/// The file of a group of shapes.
#[derive(Clone, Debug, PartialEq)]
pub struct ShapeContainer {
    /// Field 1 of the record.
    pub shapes: Vec<Shape>,
}

/// A shape, undecoded.
#[derive(Clone, Debug, PartialEq)]
pub struct Shape {
    /// Field 1 of the record.
    pub stroke_uuid: String,
    /// Field 2 of the record.
    pub created: u64,
    /// Field 3 of the record.
    pub modified: u64,
    /// Field 4 of the record.
    pub unknown: i64,
    /// Field 5 of the record.
    pub stroke_width: Scalar,
    /// Field 7 of the record.
    pub bbox_json: String,
    /// Field 11 of the record.
    pub render_scale_json: String,
    /// Field 12 of the record.
    pub z_order: i64,
    /// Field 16 of the record.
    pub points_uuid: String,
    /// Field 17 of the record.
    pub line_style_json: String,
    /// Field 18 of the record.
    pub shape_group_uuid: String,
    /// Field 21 of the record.
    pub empty_array_json: String,
}

} // verus!
