//! Shapes: what was drawn on a page, each with the stroke that holds its pen
//! samples and the place it takes in the painting order.

pub mod json;
pub mod protobuf;

use vstd::prelude::*;
use crate::error::{Failure, NoteError};
use crate::id::{uuid_text_value, PointsUuid, ShapeGroupUuid, StrokeUuid};
use crate::json::Dimensions;
use crate::scalar::Scalar;
use crate::shape::json::{DisplayScale, LineStyle, LineStyleContainer};
use crate::utils::{convert_timestamp_to_datetime, parse_json, reversed, timestamp_of, Timestamp};

verus! {

/// One shape of a page.
#[derive(Clone, Debug, PartialEq)]
pub struct Shape {
    pub stroke_id: StrokeUuid,
    pub created: Timestamp,
    pub modified: Timestamp,
    /// A number of unknown meaning, kept as it was found.
    pub unknown: i64,
    pub stroke_width: Scalar,
    pub bbox: Dimensions,
    pub render_scale: DisplayScale,
    /// Shapes are painted in ascending order of this number.
    pub z_order: i64,
    /// The points file that holds the stroke, if the shape has one.
    pub points_id: Option<PointsUuid>,
    pub line_style: Option<LineStyle>,
    pub shape_group_id: ShapeGroupUuid,
    pub points_json: String,
}

/// What the JSON codec made of the JSON documents of a shape record. The
/// line style is looked at only where the record holds a text for it.
pub struct ShapeDocuments {
    pub bbox: Result<Dimensions, serde_json::Error>,
    pub render_scale: Result<DisplayScale, serde_json::Error>,
    pub line_style: Result<LineStyleContainer, serde_json::Error>,
}

/// Why a shape record is rejected, if it is: the first of its fields, in the
/// order of the record, that cannot be decoded. An empty text for the points
/// file or for the line style stands for none and is no fault.
pub open spec fn shape_failure(record: protobuf::Shape, docs: ShapeDocuments) -> Option<Failure> {
    if uuid_text_value(record.stroke_uuid@) is None {
        Some(Failure::UuidParse)
    } else if timestamp_of(record.created) is None {
        Some(Failure::InvalidTimestamp(record.created))
    } else if timestamp_of(record.modified) is None {
        Some(Failure::InvalidTimestamp(record.modified))
    } else if docs.bbox is Err {
        Some(Failure::Json(record.bbox_json@))
    } else if docs.render_scale is Err {
        Some(Failure::Json(record.render_scale_json@))
    } else if record.points_uuid@.len() > 0 && uuid_text_value(record.points_uuid@) is None {
        Some(Failure::UuidParse)
    } else if record.line_style_json@.len() > 0 && docs.line_style is Err {
        Some(Failure::Json(record.line_style_json@))
    } else if uuid_text_value(record.shape_group_uuid@) is None {
        Some(Failure::UuidParse)
    } else {
        None
    }
}

/// The shape that a record without a fault stands for.
pub open spec fn shape_value(record: protobuf::Shape, docs: ShapeDocuments) -> Shape {
    Shape {
        stroke_id: StrokeUuid(uuid_text_value(record.stroke_uuid@).unwrap()),
        created: timestamp_of(record.created).unwrap(),
        modified: timestamp_of(record.modified).unwrap(),
        unknown: record.unknown,
        stroke_width: record.stroke_width,
        bbox: docs.bbox->Ok_0,
        render_scale: docs.render_scale->Ok_0,
        z_order: record.z_order,
        points_id: if record.points_uuid@.len() == 0 {
            None
        } else {
            Some(PointsUuid(uuid_text_value(record.points_uuid@).unwrap()))
        },
        line_style: if record.line_style_json@.len() == 0 {
            None
        } else {
            Some(docs.line_style->Ok_0.line_style)
        },
        shape_group_id: ShapeGroupUuid(uuid_text_value(record.shape_group_uuid@).unwrap()),
        points_json: record.empty_array_json,
    }
}

/// What a shape record stands for: the shape, or why it is rejected.
pub open spec fn shape_of(record: protobuf::Shape, docs: ShapeDocuments) -> Result<Shape, Failure> {
    match shape_failure(record, docs) {
        Some(k) => Err(k),
        None => Ok(shape_value(record, docs)),
    }
}

impl Shape {
    /// Decodes a shape record, given what the JSON codec made of its
    /// documents.
    pub fn from_protobuf(shape: protobuf::Shape, docs: ShapeDocuments) -> (r: Result<
        Shape,
        NoteError,
    >)
        ensures
            match shape_failure(shape, docs) {
                Some(k) => r is Err && r->Err_0.failure() == k,
                None => r == Ok::<Shape, NoteError>(shape_value(shape, docs)),
            },
    {
        let stroke_id = match StrokeUuid::from_str(shape.stroke_uuid.as_str()) {
            Ok(v) => v,
            Err(e) => {
                return Err(e);
            },
        };
        let created = match convert_timestamp_to_datetime(shape.created) {
            Ok(v) => v,
            Err(e) => {
                return Err(e);
            },
        };
        let modified = match convert_timestamp_to_datetime(shape.modified) {
            Ok(v) => v,
            Err(e) => {
                return Err(e);
            },
        };
        let bbox = match parse_json(docs.bbox, shape.bbox_json.as_str()) {
            Ok(v) => v,
            Err(e) => {
                return Err(e);
            },
        };
        let render_scale = match parse_json(docs.render_scale, shape.render_scale_json.as_str()) {
            Ok(v) => v,
            Err(e) => {
                return Err(e);
            },
        };
        let points_id = if shape.points_uuid.as_str().is_empty() {
            None
        } else {
            match PointsUuid::from_str(shape.points_uuid.as_str()) {
                Ok(v) => Some(v),
                Err(e) => {
                    return Err(e);
                },
            }
        };
        let line_style = if shape.line_style_json.as_str().is_empty() {
            None
        } else {
            match parse_json(docs.line_style, shape.line_style_json.as_str()) {
                Ok(v) => Some(v.line_style),
                Err(e) => {
                    return Err(e);
                },
            }
        };
        let shape_group_id = match ShapeGroupUuid::from_str(shape.shape_group_uuid.as_str()) {
            Ok(v) => v,
            Err(e) => {
                return Err(e);
            },
        };
        Ok(
            Shape {
                stroke_id,
                created,
                modified,
                unknown: shape.unknown,
                stroke_width: shape.stroke_width,
                bbox,
                render_scale,
                z_order: shape.z_order,
                points_id,
                line_style,
                shape_group_id,
                points_json: shape.empty_array_json,
            },
        )
    }
}

/// The shapes that a list of records stands for, in the order of the records;
/// the first record that is rejected decides the outcome.
pub open spec fn shapes_of(records: Seq<(protobuf::Shape, ShapeDocuments)>) -> Result<
    Seq<Shape>,
    Failure,
>
    decreases records.len(),
{
    if records.len() == 0 {
        Ok(Seq::empty())
    } else {
        match shapes_of(records.drop_last()) {
            Err(k) => Err(k),
            Ok(shapes) => match shape_of(records.last().0, records.last().1) {
                Err(k) => Err(k),
                Ok(shape) => Ok(shapes.push(shape)),
            },
        }
    }
}

/// Where the first `n` records of a list are rejected, the list is rejected
/// for the same reason.
pub proof fn lemma_shapes_fail_on(records: Seq<(protobuf::Shape, ShapeDocuments)>, n: int)
    requires
        0 <= n <= records.len(),
        shapes_of(records.subrange(0, n)) is Err,
    ensures
        shapes_of(records) == shapes_of(records.subrange(0, n)),
    decreases records.len() - n,
{
    if n == records.len() {
        assert(records.subrange(0, n) =~= records);
    } else {
        assert(records.subrange(0, n + 1).drop_last() =~= records.subrange(0, n));
        lemma_shapes_fail_on(records, n + 1);
    }
}

/// The shapes of one file of a page.
#[derive(Clone, Debug, PartialEq)]
pub struct ShapeGroup {
    shapes: Vec<Shape>,
}

impl View for ShapeGroup {
    type V = Seq<Shape>;

    closed spec fn view(&self) -> Seq<Shape> {
        self.shapes@
    }
}

impl ShapeGroup {
    /// Decodes the records of a group of shapes, each with what the JSON
    /// codec made of its documents.
    pub fn read(records: Vec<(protobuf::Shape, ShapeDocuments)>) -> (r: Result<
        ShapeGroup,
        NoteError,
    >)
        ensures
            match shapes_of(records@) {
                Ok(shapes) => r is Ok && r->Ok_0@ == shapes,
                Err(k) => r is Err && r->Err_0.failure() == k,
            },
    {
        let ghost all = records@;
        let mut rest = reversed(records);
        let mut shapes: Vec<Shape> = Vec::new();
        assert(all.subrange(0, 0) =~= Seq::<(protobuf::Shape, ShapeDocuments)>::empty());
        while rest.len() > 0
            invariant
                all == records@,
                rest@.len() <= all.len(),
                rest@ == all.reverse().subrange(0, rest@.len() as int),
                shapes_of(all.subrange(0, all.len() - rest@.len())) == Ok::<Seq<Shape>, Failure>(
                    shapes@,
                ),
            decreases rest@.len(),
        {
            let ghost done = all.len() - rest@.len();
            let (record, docs) = rest.pop().unwrap();
            proof {
                assert((record, docs) == all[done]);
                assert(all.subrange(0, done + 1).drop_last() =~= all.subrange(0, done));
            }
            match Shape::from_protobuf(record, docs) {
                Err(e) => {
                    proof {
                        lemma_shapes_fail_on(all, done + 1);
                    }
                    return Err(e);
                },
                Ok(shape) => {
                    shapes.push(shape);
                },
            }
        }
        assert(all.subrange(0, all.len() as int) =~= all);
        Ok(ShapeGroup { shapes })
    }

    /// The shapes of the group, in file order.
    pub fn shapes(&self) -> (shapes: &Vec<Shape>)
        ensures
            shapes@ == self@,
    {
        &self.shapes
    }
}

} // verus!
