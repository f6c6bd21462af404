//! The order in which the shapes of a page are painted, and the strokes that
//! painting them draws.

use vstd::prelude::*;
use crate::id::PointsUuid;
use crate::points::{Point, PointsFile, PointsFileView, Stroke};
use crate::shape::Shape;

verus! {

/// An order with the index `i` put behind every index whose number is not
/// greater than that of `i`. `z` holds the number of each index.
pub open spec fn insert_by_z(order: Seq<usize>, z: Seq<i64>, i: usize) -> Seq<usize>
    decreases order.len(),
{
    if order.len() == 0 {
        seq![i]
    } else if z[order.last() as int] <= z[i as int] {
        order.push(i)
    } else {
        insert_by_z(order.drop_last(), z, i).push(order.last())
    }
}

/// The painting order of the first `n` of the numbers `z`: their indices in
/// ascending order of the numbers, equal numbers in the order of the indices.
pub open spec fn paint_order_upto(z: Seq<i64>, n: nat) -> Seq<usize>
    decreases n,
{
    if n == 0 {
        Seq::empty()
    } else {
        insert_by_z(paint_order_upto(z, (n - 1) as nat), z, (n - 1) as usize)
    }
}

/// The painting order of shapes with the numbers `z`.
pub open spec fn paint_order(z: Seq<i64>) -> Seq<usize> {
    paint_order_upto(z, z.len())
}

/// Whether the index `a` is painted before the index `b`: its number is
/// smaller, or the numbers are equal and `a` comes first.
pub open spec fn paints_before(z: Seq<i64>, a: usize, b: usize) -> bool {
    z[a as int] < z[b as int] || (z[a as int] == z[b as int] && a < b)
}

/// Whether an order holds indices below `n` only, each before every index that
/// it is painted before.
pub open spec fn is_painting(order: Seq<usize>, z: Seq<i64>, n: nat) -> bool {
    &&& forall|k: int| 0 <= k < order.len() ==> order[k] < n
    &&& forall|j: int, k: int|
        0 <= j < k < order.len() ==> paints_before(z, #[trigger] order[j], #[trigger] order[k])
}

/// Putting an index where [`insert_by_z`] says is putting it at the place
/// behind which every number is greater and before which the number is not.
pub proof fn lemma_insert_at(order: Seq<usize>, z: Seq<i64>, i: usize, pos: int)
    requires
        0 <= pos <= order.len(),
        forall|k: int| pos <= k < order.len() ==> z[order[k] as int] > z[i as int],
        pos > 0 ==> z[order[pos - 1] as int] <= z[i as int],
    ensures
        insert_by_z(order, z, i) == order.insert(pos, i),
    decreases order.len(),
{
    if order.len() == 0 {
        assert(order.insert(pos, i) =~= seq![i]);
    } else if pos == order.len() {
        assert(order.insert(pos, i) =~= order.push(i));
    } else {
        lemma_insert_at(order.drop_last(), z, i, pos);
        assert(order.drop_last().insert(pos, i).push(order.last()) =~= order.insert(pos, i));
    }
}

/// Putting a new greatest index into a painting gives a painting with one
/// index more, which holds the new index and those that were there.
pub proof fn lemma_insert_keeps_painting(order: Seq<usize>, z: Seq<i64>, i: usize)
    requires
        is_painting(order, z, i as nat),
        i < z.len(),
    ensures
        is_painting(insert_by_z(order, z, i), z, (i + 1) as nat),
        insert_by_z(order, z, i).len() == order.len() + 1,
        insert_by_z(order, z, i).contains(i),
        forall|x: usize| #[trigger] order.contains(x) ==> insert_by_z(order, z, i).contains(x),
        forall|x: usize| #[trigger]
            insert_by_z(order, z, i).contains(x) ==> order.contains(x) || x == i,
    decreases order.len(),
{
    let r = insert_by_z(order, z, i);
    if order.len() == 0 {
        assert(r[0] == i);
    } else if z[order.last() as int] <= z[i as int] {
        assert forall|j: int, k: int| 0 <= j < k < r.len() implies paints_before(
            z,
            #[trigger] r[j],
            #[trigger] r[k],
        ) by {
            if k == order.len() {
                if j < order.len() - 1 {
                    assert(paints_before(z, order[j], order[order.len() - 1]));
                }
            }
        }
        assert(r[order.len() as int] == i);
        assert forall|x: usize| #[trigger] order.contains(x) implies r.contains(x) by {
            let k = choose|k: int| 0 <= k < order.len() && order[k] == x;
            assert(r[k] == x);
        }
    } else {
        let head = order.drop_last();
        let last = order.last();
        assert(is_painting(head, z, i as nat));
        lemma_insert_keeps_painting(head, z, i);
        let inner = insert_by_z(head, z, i);
        assert(r == inner.push(last));
        assert forall|j: int, k: int| 0 <= j < k < r.len() implies paints_before(
            z,
            #[trigger] r[j],
            #[trigger] r[k],
        ) by {
            if k == inner.len() {
                let x = inner[j];
                assert(inner.contains(x));
                assert(head.contains(x) || x == i);
                if x != i {
                    let m = choose|m: int| 0 <= m < head.len() && head[m] == x;
                    assert(order[m] == x);
                    assert(paints_before(z, order[m], order[order.len() - 1]));
                }
            } else {
                assert(paints_before(z, inner[j], inner[k]));
            }
        }
        assert(r.contains(i)) by {
            let m = choose|m: int| 0 <= m < inner.len() && inner[m] == i;
            assert(r[m] == i);
        }
        assert forall|x: usize| #[trigger] order.contains(x) implies r.contains(x) by {
            let k = choose|k: int| 0 <= k < order.len() && order[k] == x;
            if k < head.len() {
                assert(head[k] == x);
                assert(head.contains(x));
                let m = choose|m: int| 0 <= m < inner.len() && inner[m] == x;
                assert(r[m] == x);
            } else {
                assert(r[inner.len() as int] == x);
            }
        }
        assert forall|x: usize| #[trigger] r.contains(x) implies order.contains(x) || x == i by {
            let k = choose|k: int| 0 <= k < r.len() && r[k] == x;
            if k < inner.len() {
                assert(inner[k] == x);
                assert(inner.contains(x));
                if head.contains(x) {
                    let m = choose|m: int| 0 <= m < head.len() && head[m] == x;
                    assert(order[m] == x);
                }
            } else {
                assert(order[order.len() - 1] == x);
            }
        }
    }
}

/// The painting order of the first `n` numbers is a painting of exactly the
/// indices below `n`.
pub proof fn lemma_paint_order_upto(z: Seq<i64>, n: nat)
    requires
        n <= z.len(),
        n <= usize::MAX,
    ensures
        is_painting(paint_order_upto(z, n), z, n),
        paint_order_upto(z, n).len() == n,
        forall|x: usize| paint_order_upto(z, n).contains(x) <==> x < n,
    decreases n,
{
    if n > 0 {
        let before = paint_order_upto(z, (n - 1) as nat);
        lemma_paint_order_upto(z, (n - 1) as nat);
        lemma_insert_keeps_painting(before, z, (n - 1) as usize);
        let order = paint_order_upto(z, n);
        assert forall|x: usize| order.contains(x) <==> x < n by {
            if x < n - 1 {
                assert(before.contains(x));
            }
            if order.contains(x) && x != (n - 1) as usize {
                assert(before.contains(x));
            }
        }
    }
}

/// The painting order holds every shape once. Of two shapes, the one with the
/// smaller number is painted first; of two with the same number, the one
/// that comes first is painted first, so that the later one lies over it.
pub proof fn lemma_paint_order(z: Seq<i64>)
    requires
        z.len() <= usize::MAX,
    ensures
        paint_order(z).len() == z.len(),
        forall|x: usize| paint_order(z).contains(x) <==> x < z.len(),
        forall|j: int, k: int|
            0 <= j < k < z.len() ==> paints_before(
                z,
                #[trigger] paint_order(z)[j],
                #[trigger] paint_order(z)[k],
            ),
{
    lemma_paint_order_upto(z, z.len());
}

/// The indices of the numbers in painting order.
pub fn paint_order_of(z: &Vec<i64>) -> (order: Vec<usize>)
    ensures
        order@ == paint_order(z@),
{
    let mut order: Vec<usize> = Vec::new();
    let mut i: usize = 0;
    while i < z.len()
        invariant
            i <= z@.len(),
            order@ == paint_order_upto(z@, i as nat),
        decreases z@.len() - i,
    {
        proof {
            lemma_paint_order_upto(z@, i as nat);
        }
        let mut pos: usize = order.len();
        while pos > 0 && z[order[pos - 1]] > z[i]
            invariant
                pos <= order@.len(),
                i < z@.len(),
                forall|k: int| 0 <= k < order@.len() ==> order@[k] < i,
                forall|k: int| pos <= k < order@.len() ==> z@[order@[k] as int] > z@[i as int],
            decreases pos,
        {
            pos = pos - 1;
        }
        proof {
            lemma_insert_at(order@, z@, i, pos as int);
        }
        order.insert(pos, i);
        i = i + 1;
    }
    order
}

/// The index of the first points file whose header names the id `id`.
pub open spec fn file_index(files: Seq<PointsFileView>, id: PointsUuid) -> Option<int>
    decreases files.len(),
{
    if files.len() == 0 {
        None
    } else {
        match file_index(files.drop_last(), id) {
            Some(i) => Some(i),
            None => if files.last().header.points_id == id {
                Some(files.len() - 1)
            } else {
                None
            },
        }
    }
}

/// The index that [`file_index`] gives is the first whose header names the id.
pub proof fn lemma_file_index(files: Seq<PointsFileView>, id: PointsUuid)
    ensures
        match file_index(files, id) {
            Some(i) => 0 <= i < files.len() && files[i].header.points_id == id && forall|j: int|
                0 <= j < i ==> files[j].header.points_id != id,
            None => forall|j: int| 0 <= j < files.len() ==> files[j].header.points_id != id,
        },
    decreases files.len(),
{
    if files.len() > 0 {
        lemma_file_index(files.drop_last(), id);
        assert forall|j: int| 0 <= j < files.len() - 1 implies files.drop_last()[j]
            == files[j] by {}
        match file_index(files.drop_last(), id) {
            Some(i) => {
                assert(files.drop_last()[i] == files[i]);
                assert forall|j: int| 0 <= j < i implies files[j].header.points_id != id by {
                    assert(files.drop_last()[j] == files[j]);
                }
            },
            None => {
                assert forall|j: int| 0 <= j < files.len() - 1 implies files[j].header.points_id
                    != id by {
                    assert(files.drop_last()[j] == files[j]);
                }
            },
        }
    }
}

/// The samples that painting a shape draws: those of the stroke of the
/// shape's id in the first points file that the shape names. A shape that
/// names no points file, or one that is not there, or a stroke that the file
/// does not hold, draws nothing.
pub open spec fn stroke_of_shape(shape: Shape, files: Seq<PointsFileView>) -> Option<Seq<Point>> {
    match shape.points_id {
        None => None,
        Some(id) => match file_index(files, id) {
            None => None,
            Some(f) => if files[f].strokes.contains_key(shape.stroke_id.0) {
                Some(files[f].strokes[shape.stroke_id.0])
            } else {
                None
            },
        },
    }
}

/// The strokes that painting the shapes in the given order draws.
pub open spec fn strokes_drawn(
    shapes: Seq<Shape>,
    order: Seq<usize>,
    files: Seq<PointsFileView>,
) -> Seq<Seq<Point>>
    decreases order.len(),
{
    if order.len() == 0 {
        Seq::empty()
    } else {
        let before = strokes_drawn(shapes, order.drop_last(), files);
        match stroke_of_shape(shapes[order.last() as int], files) {
            Some(points) => before.push(points),
            None => before,
        }
    }
}

/// The numbers by which shapes are ordered.
pub open spec fn z_orders(shapes: Seq<Shape>) -> Seq<i64> {
    shapes.map_values(|shape: Shape| shape.z_order)
}

/// The strokes that painting a page draws, the lowest first: the shapes are
/// taken in painting order, and each draws its stroke where it has one.
pub open spec fn rendering(shapes: Seq<Shape>, files: Seq<PointsFileView>) -> Seq<Seq<Point>> {
    strokes_drawn(shapes, paint_order(z_orders(shapes)), files)
}

/// A shape that draws, at place `k` of an order, puts its stroke into the
/// strokes drawn at the index that counts the strokes of the places before `k`.
pub proof fn lemma_drawn_at(
    shapes: Seq<Shape>,
    order: Seq<usize>,
    files: Seq<PointsFileView>,
    k: int,
)
    requires
        0 <= k < order.len(),
        stroke_of_shape(shapes[order[k] as int], files) is Some,
    ensures
        strokes_drawn(shapes, order.subrange(0, k), files).len() < strokes_drawn(
            shapes,
            order,
            files,
        ).len(),
        strokes_drawn(shapes, order, files)[strokes_drawn(
            shapes,
            order.subrange(0, k),
            files,
        ).len() as int] == stroke_of_shape(shapes[order[k] as int], files)->Some_0,
    decreases order.len(),
{
    if k == order.len() - 1 {
        assert(order.subrange(0, k) =~= order.drop_last());
    } else {
        lemma_drawn_at(shapes, order.drop_last(), files, k);
        assert(order.drop_last().subrange(0, k) =~= order.subrange(0, k));
    }
}

/// Where no shape of an order draws, no stroke is drawn.
pub proof fn lemma_none_drawn(shapes: Seq<Shape>, order: Seq<usize>, files: Seq<PointsFileView>)
    requires
        forall|k: int|
            0 <= k < order.len() ==> stroke_of_shape(
                shapes[(#[trigger] order[k]) as int],
                files,
            ) is None,
    ensures
        strokes_drawn(shapes, order, files).len() == 0,
    decreases order.len(),
{
    if order.len() > 0 {
        assert(order.drop_last().len() == order.len() - 1);
        assert forall|k: int| 0 <= k < order.drop_last().len() implies stroke_of_shape(
            shapes[(#[trigger] order.drop_last()[k]) as int],
            files,
        ) is None by {
            assert(order.drop_last()[k] == order[k]);
        }
        lemma_none_drawn(shapes, order.drop_last(), files);
        assert(order.last() == order[order.len() - 1]);
    }
}

/// Painting a page draws the stroke of a shape before that of every shape
/// that is painted after it: of two shapes that draw, the one with the
/// smaller number comes first among the strokes, and of two with the same
/// number the one that stands first among the shapes, so that the later one
/// lies over it.
pub proof fn lemma_rendering_order(
    shapes: Seq<Shape>,
    files: Seq<PointsFileView>,
    a: usize,
    b: usize,
)
    requires
        shapes.len() <= usize::MAX,
        a < shapes.len(),
        b < shapes.len(),
        paints_before(z_orders(shapes), a, b),
        stroke_of_shape(shapes[a as int], files) is Some,
        stroke_of_shape(shapes[b as int], files) is Some,
    ensures
        exists|i: int, j: int|
            0 <= i < j < rendering(shapes, files).len() && #[trigger] rendering(shapes, files)[i]
                == stroke_of_shape(shapes[a as int], files)->Some_0 && #[trigger] rendering(
                shapes,
                files,
            )[j] == stroke_of_shape(shapes[b as int], files)->Some_0,
{
    let z = z_orders(shapes);
    let order = paint_order(z);
    lemma_paint_order(z);
    assert(order.contains(a));
    assert(order.contains(b));
    let pa = choose|p: int| 0 <= p < order.len() && order[p] == a;
    let pb = choose|p: int| 0 <= p < order.len() && order[p] == b;
    if pb < pa {
        assert(paints_before(z, order[pb], order[pa]));
    }
    assert(pa < pb);
    let head = order.subrange(0, pb);
    assert(head[pa] == a);
    lemma_drawn_at(shapes, head, files, pa);
    assert(head.subrange(0, pa) =~= order.subrange(0, pa));
    lemma_drawn_at(shapes, order, files, pa);
    lemma_drawn_at(shapes, order, files, pb);
    let i = strokes_drawn(shapes, order.subrange(0, pa), files).len() as int;
    let j = strokes_drawn(shapes, order.subrange(0, pb), files).len() as int;
    assert(i < j);
    assert(rendering(shapes, files)[i] == stroke_of_shape(shapes[a as int], files)->Some_0);
    assert(rendering(shapes, files)[j] == stroke_of_shape(shapes[b as int], files)->Some_0);
}

/// Where no shape of a page draws, because it names no points file or one
/// that is not there or a stroke that the file does not hold, painting the
/// page draws no stroke.
pub proof fn lemma_nothing_drawn(shapes: Seq<Shape>, files: Seq<PointsFileView>)
    requires
        shapes.len() <= usize::MAX,
        forall|i: int| 0 <= i < shapes.len() ==> stroke_of_shape(#[trigger] shapes[i], files) is None,
    ensures
        rendering(shapes, files).len() == 0,
{
    let z = z_orders(shapes);
    let order = paint_order(z);
    lemma_paint_order(z);
    assert forall|k: int| 0 <= k < order.len() implies stroke_of_shape(
        shapes[(#[trigger] order[k]) as int],
        files,
    ) is None by {
        assert(order.contains(order[k]));
    }
    lemma_none_drawn(shapes, order, files);
}

/// The shapes behind a list of references.
pub open spec fn shape_values(shapes: Seq<&Shape>) -> Seq<Shape> {
    shapes.map_values(|shape: &Shape| *shape)
}

/// What the points files behind a list of references hold.
pub open spec fn points_views(files: Seq<&PointsFile>) -> Seq<PointsFileView> {
    files.map_values(|file: &PointsFile| file@)
}

/// The samples of each of a list of strokes.
pub open spec fn stroke_views(strokes: Seq<Stroke>) -> Seq<Seq<Point>> {
    strokes.map_values(|stroke: Stroke| stroke@)
}

/// The index of the first points file whose header names the id.
pub fn find_file(files: &Vec<&PointsFile>, id: &PointsUuid) -> (r: Option<usize>)
    ensures
        match r {
            Some(i) => i < files@.len() && file_index(points_views(files@), *id) == Some(
                i as int,
            ),
            None => file_index(points_views(files@), *id) is None,
        },
{
    let mut i: usize = 0;
    while i < files.len()
        invariant
            i <= files@.len(),
            forall|j: int| 0 <= j < i ==> points_views(files@)[j].header.points_id != *id,
        decreases files@.len() - i,
    {
        if files[i].header().points_id == *id {
            proof {
                lemma_file_index(points_views(files@), *id);
                assert(points_views(files@)[i as int] == files@[i as int]@);
            }
            return Some(i);
        }
        proof {
            assert(points_views(files@)[i as int] == files@[i as int]@);
        }
        i = i + 1;
    }
    proof {
        lemma_file_index(points_views(files@), *id);
    }
    None
}

/// The stroke that painting a shape draws, if it draws one.
pub fn find_stroke<'a>(shape: &Shape, files: &Vec<&'a PointsFile>) -> (r: Option<&'a Stroke>)
    ensures
        match stroke_of_shape(*shape, points_views(files@)) {
            Some(points) => r is Some && r->Some_0@ == points,
            None => r is None,
        },
{
    match shape.points_id {
        None => None,
        Some(id) => match find_file(files, &id) {
            None => None,
            Some(f) => {
                assert(points_views(files@)[f as int] == files@[f as int]@);
                files[f].get_stroke(&shape.stroke_id)
            },
        },
    }
}

/// The strokes that painting a page draws, the lowest first.
pub fn render_strokes(shapes: &Vec<&Shape>, files: &Vec<&PointsFile>) -> (r: Vec<Stroke>)
    ensures
        stroke_views(r@) == rendering(shape_values(shapes@), points_views(files@)),
{
    let mut z: Vec<i64> = Vec::new();
    let mut i: usize = 0;
    while i < shapes.len()
        invariant
            i <= shapes@.len(),
            z@ == z_orders(shape_values(shapes@)).subrange(0, i as int),
        decreases shapes@.len() - i,
    {
        z.push(shapes[i].z_order);
        i = i + 1;
        assert(z@ =~= z_orders(shape_values(shapes@)).subrange(0, i as int));
    }
    assert(z@ =~= z_orders(shape_values(shapes@)));
    let order: Vec<usize> = paint_order_of(&z);
    proof {
        lemma_paint_order(z@);
    }
    let mut strokes: Vec<Stroke> = Vec::new();
    let mut k: usize = 0;
    assert(order@.subrange(0, 0) =~= Seq::<usize>::empty());
    assert(stroke_views(strokes@) =~= Seq::<Seq<Point>>::empty());
    while k < order.len()
        invariant
            k <= order@.len(),
            order@.len() == shapes@.len(),
            forall|x: usize| order@.contains(x) ==> x < shapes@.len(),
            stroke_views(strokes@) == strokes_drawn(
                shape_values(shapes@),
                order@.subrange(0, k as int),
                points_views(files@),
            ),
        decreases order@.len() - k,
    {
        let at: usize = order[k];
        proof {
            assert(order@.contains(at));
            assert(order@.subrange(0, k + 1).drop_last() =~= order@.subrange(0, k as int));
            assert(order@.subrange(0, k + 1).last() == at);
            assert(shape_values(shapes@)[at as int] == *shapes@[at as int]);
        }
        match find_stroke(shapes[at], files) {
            Some(stroke) => {
                let ghost before = strokes@;
                strokes.push(stroke.copy());
                assert(stroke_views(strokes@) =~= stroke_views(before).push(stroke@));
            },
            None => {},
        }
        k = k + 1;
    }
    assert(order@.subrange(0, k as int) =~= order@);
    strokes
}

} // verus!
