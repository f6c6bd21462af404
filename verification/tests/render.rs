use boox_note::id::{PageUuid, PointsUuid, ShapeGroupUuid, StrokeUuid};
use boox_note::json::Dimensions;
use boox_note::points::{Point, PointsFile, Stroke};
use boox_note::render::{find_file, find_stroke, paint_order_of, render_strokes};
use boox_note::scalar::Scalar;
use boox_note::shape::json::DisplayScale;
use boox_note::shape::Shape;
use boox_note::utils::Timestamp;

fn scalar(v: f32) -> Scalar {
    Scalar::from_bits(v.to_bits())
}

fn shape(stroke: u128, points: Option<u128>, z_order: i64) -> Shape {
    Shape {
        stroke_id: StrokeUuid::new(stroke),
        created: Timestamp { millis: 0 },
        modified: Timestamp { millis: 0 },
        unknown: 0,
        stroke_width: scalar(1.0),
        bbox: Dimensions {
            top: scalar(0.0),
            right: scalar(0.0),
            bottom: scalar(0.0),
            left: scalar(0.0),
            empty: true,
            stability: 0,
        },
        render_scale: DisplayScale {
            display_scale: scalar(1.0),
            max_pressure: scalar(1.0),
            revised_display_scale: scalar(1.0),
            source: 0,
        },
        z_order,
        points_id: points.map(PointsUuid::new),
        line_style: None,
        shape_group_id: ShapeGroupUuid::new(1),
        points_json: String::new(),
    }
}

fn point(x: f32, y: f32) -> Point {
    Point { timestamp_rel: 0, x: scalar(x), y: scalar(y), tilt_x: 0, tilt_y: 0, pressure: 100 }
}

fn points_file(id: u128, strokes: &[(u128, Vec<Point>)]) -> PointsFile {
    let mut out = Vec::new();
    out.extend_from_slice(&1u32.to_be_bytes());
    out.extend_from_slice(PageUuid::new(9).to_hyphenated_string().as_bytes());
    out.extend_from_slice(PointsUuid::new(id).to_hyphenated_string().as_bytes());
    let mut table = Vec::new();
    for (stroke, points) in strokes {
        let start = out.len() as u32;
        for p in points {
            out.extend_from_slice(&p.timestamp_rel.to_be_bytes());
            out.extend_from_slice(&p.x.bits.to_be_bytes());
            out.extend_from_slice(&p.y.bits.to_be_bytes());
            out.push(p.tilt_x as u8);
            out.push(p.tilt_y as u8);
            out.extend_from_slice(&p.pressure.to_be_bytes());
        }
        table.extend_from_slice(StrokeUuid::new(*stroke).to_hyphenated_string().as_bytes());
        table.extend_from_slice(&start.to_be_bytes());
        table.extend_from_slice(&((points.len() as u32) << 4).to_be_bytes());
    }
    let table_start = out.len() as u32;
    out.extend_from_slice(&table);
    out.extend_from_slice(&table_start.to_be_bytes());
    PointsFile::read(&out).unwrap()
}

fn xs(strokes: &[Stroke]) -> Vec<f32> {
    strokes.iter().map(|s| f32::from_bits(s.points[0].x.bits)).collect()
}

#[test]
fn paints_in_ascending_order_of_the_numbers() {
    assert_eq!(paint_order_of(&vec![3, 1, 2]), vec![1, 2, 0]);
    assert_eq!(paint_order_of(&vec![1, 2, 3]), vec![0, 1, 2]);
    assert_eq!(paint_order_of(&vec![3, 2, 1]), vec![2, 1, 0]);
    assert_eq!(paint_order_of(&vec![i64::MAX, i64::MIN, 0, -1]), vec![1, 3, 2, 0]);
}

#[test]
fn paints_equal_numbers_in_the_order_in_which_they_stand() {
    assert_eq!(paint_order_of(&vec![5, 5]), vec![0, 1]);
    assert_eq!(paint_order_of(&vec![5, 5, 5, 5]), vec![0, 1, 2, 3]);
    assert_eq!(paint_order_of(&vec![2, 1, 2, 1, 2]), vec![1, 3, 0, 2, 4]);
    assert_eq!(paint_order_of(&vec![0, -1, 0, -1]), vec![1, 3, 0, 2]);
}

#[test]
fn the_painting_order_of_nothing_is_empty() {
    assert_eq!(paint_order_of(&Vec::new()), Vec::<usize>::new());
    assert_eq!(paint_order_of(&vec![7]), vec![0]);
}

#[test]
fn the_painting_order_holds_every_index_once() {
    let z: Vec<i64> = (0..200).map(|i| (i * 37 % 11) as i64 - 5).collect();
    let order = paint_order_of(&z);
    let mut seen = vec![false; z.len()];
    for &i in &order {
        assert!(!seen[i]);
        seen[i] = true;
    }
    assert!(seen.iter().all(|&s| s));
    for w in order.windows(2) {
        assert!(z[w[0]] < z[w[1]] || (z[w[0]] == z[w[1]] && w[0] < w[1]));
    }
}

#[test]
fn finds_the_first_points_file_of_an_id() {
    let a = points_file(1, &[]);
    let b = points_file(2, &[]);
    let c = points_file(2, &[(5, vec![point(1.0, 1.0)])]);
    let files = vec![&a, &b, &c];
    assert_eq!(find_file(&files, &PointsUuid::new(1)), Some(0));
    assert_eq!(find_file(&files, &PointsUuid::new(2)), Some(1));
    assert_eq!(find_file(&files, &PointsUuid::new(3)), None);
    assert_eq!(find_file(&Vec::new(), &PointsUuid::new(1)), None);
}

#[test]
fn finds_the_stroke_of_a_shape() {
    let a = points_file(1, &[(5, vec![point(1.0, 2.0)])]);
    let b = points_file(2, &[(5, vec![point(3.0, 4.0)]), (6, vec![point(5.0, 6.0)])]);
    let files = vec![&a, &b];
    let stroke = find_stroke(&shape(5, Some(2), 0), &files).unwrap();
    assert_eq!(stroke.points, vec![point(3.0, 4.0)]);
    let stroke = find_stroke(&shape(5, Some(1), 0), &files).unwrap();
    assert_eq!(stroke.points, vec![point(1.0, 2.0)]);
    assert!(find_stroke(&shape(6, Some(1), 0), &files).is_none());
    assert!(find_stroke(&shape(5, Some(3), 0), &files).is_none());
    assert!(find_stroke(&shape(5, None, 0), &files).is_none());
}

#[test]
fn only_the_first_points_file_of_an_id_is_looked_at() {
    let a = points_file(1, &[]);
    let b = points_file(1, &[(5, vec![point(3.0, 4.0)])]);
    let files = vec![&a, &b];
    assert!(find_stroke(&shape(5, Some(1), 0), &files).is_none());
}

#[test]
fn draws_the_strokes_in_painting_order() {
    let file = points_file(
        1,
        &[
            (10, vec![point(10.0, 0.0)]),
            (11, vec![point(11.0, 0.0)]),
            (12, vec![point(12.0, 0.0)]),
            (13, vec![point(13.0, 0.0)]),
        ],
    );
    let s0 = shape(10, Some(1), 7);
    let s1 = shape(11, Some(1), -2);
    let s2 = shape(12, Some(1), 7);
    let s3 = shape(13, Some(1), 0);
    let strokes = render_strokes(&vec![&s0, &s1, &s2, &s3], &vec![&file]);
    assert_eq!(xs(&strokes), vec![11.0, 13.0, 10.0, 12.0]);
}

#[test]
fn of_two_shapes_with_one_number_the_later_one_is_drawn_last() {
    let file = points_file(1, &[(10, vec![point(10.0, 0.0)]), (11, vec![point(11.0, 0.0)])]);
    let first = shape(10, Some(1), 4);
    let second = shape(11, Some(1), 4);
    assert_eq!(xs(&render_strokes(&vec![&first, &second], &vec![&file])), vec![10.0, 11.0]);
    assert_eq!(xs(&render_strokes(&vec![&second, &first], &vec![&file])), vec![11.0, 10.0]);
    let lower = shape(11, Some(1), 3);
    assert_eq!(xs(&render_strokes(&vec![&first, &lower], &vec![&file])), vec![11.0, 10.0]);
}

#[test]
fn a_shape_without_a_stroke_draws_nothing() {
    let file = points_file(1, &[(10, vec![point(10.0, 0.0)])]);
    let with = shape(10, Some(1), 2);
    let no_reference = shape(10, None, 1);
    let no_file = shape(10, Some(9), 0);
    let no_stroke = shape(99, Some(1), 3);
    let strokes = render_strokes(&vec![&no_stroke, &with, &no_reference, &no_file], &vec![&file]);
    assert_eq!(xs(&strokes), vec![10.0]);
    assert_eq!(render_strokes(&vec![&no_file], &vec![&file]).len(), 0);
    assert_eq!(render_strokes(&vec![&with], &Vec::new()).len(), 0);
    assert_eq!(render_strokes(&Vec::new(), &vec![&file]).len(), 0);
}

fn draw(width: i32, height: i32, strokes: &[Stroke]) -> raqote::DrawTarget {
    let mut target = raqote::DrawTarget::new(width, height);
    target.fill_rect(
        0.0,
        0.0,
        width as f32,
        height as f32,
        &raqote::Source::Solid(raqote::Color::new(255, 255, 255, 255).into()),
        &raqote::DrawOptions::new(),
    );
    for stroke in strokes {
        let mut path = raqote::PathBuilder::new();
        for (i, p) in stroke.points.iter().enumerate() {
            let (x, y) = (f32::from_bits(p.x.to_bits()), f32::from_bits(p.y.to_bits()));
            if i == 0 {
                path.move_to(x, y);
            } else {
                path.line_to(x, y);
            }
        }
        target.stroke(
            &path.finish(),
            &raqote::Source::Solid(raqote::Color::new(255, 0, 0, 0).into()),
            &raqote::StrokeStyle::default(),
            &raqote::DrawOptions::new(),
        );
    }
    target
}

#[test]
fn a_black_line_on_a_white_canvas() {
    let file = points_file(1, &[(10, vec![point(10.0, 10.0), point(90.0, 90.0)])]);
    let line = shape(10, Some(1), 0);
    let strokes = render_strokes(&vec![&line], &vec![&file]);
    assert_eq!(strokes.len(), 1);
    let target = draw(100, 100, &strokes);
    let data = target.get_data();
    assert_eq!(data.len(), 100 * 100);
    assert_eq!(data[0], 0xFFFF_FFFF);
    assert_eq!(data[99], 0xFFFF_FFFF);
    let mut darkest = 0xFFu32;
    for y in 49..=51usize {
        for x in 49..=51usize {
            let pixel = data[y * 100 + x];
            assert_eq!(pixel >> 24, 0xFF);
            darkest = darkest.min(pixel & 0xFF);
        }
    }
    assert!(darkest < 0x80, "darkest value near the middle is {:#x}", darkest);
    assert_ne!(data[50 * 100 + 50], 0xFFFF_FFFF);
}

#[test]
fn a_shape_whose_points_file_is_missing_leaves_the_canvas_white() {
    let file = points_file(1, &[(10, vec![point(10.0, 10.0), point(90.0, 90.0)])]);
    let lost = shape(10, Some(2), 0);
    let strokes = render_strokes(&vec![&lost], &vec![&file]);
    assert!(strokes.is_empty());
    let target = draw(100, 100, &strokes);
    assert!(target.get_data().iter().all(|&pixel| pixel == 0xFFFF_FFFF));
}
