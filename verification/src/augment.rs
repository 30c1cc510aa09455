//! The multi-polygon augmenter: small secondary squares attached near a
//! primary shape, and the bounding box of several polygons together.

use crate::geometry::{copy_outline, polygons_view, BBox, UNITS_PER_PIXEL};
use crate::placement::{overlaps_any, overlaps_some};
use crate::sampler::{range_draw, range_end, Sampler};
use crate::shape::Shape;
use vstd::prelude::*;

verus! {

/// Secondary polygons are squares of at most this side, placed at most this
/// far outside the primary bounding box: ten pixels.
pub const SECONDARY_REACH: i64 = 10 * UNITS_PER_PIXEL;

/// Positions tried for one secondary polygon before it is given up.
pub const SECONDARY_TRIES: u32 = 10;

/// Side of the secondary squares of a primary box: ten pixels, or the
/// smaller side of the box if that is less.
pub open spec fn secondary_side(b: BBox) -> int {
    let smaller = if b.width <= b.height {
        b.width as int
    } else {
        b.height as int
    };
    if smaller <= SECONDARY_REACH {
        smaller
    } else {
        SECONDARY_REACH as int
    }
}

/// Lowest origin of a secondary square on one axis: ten pixels before the
/// primary box, but not off the canvas.
pub open spec fn secondary_low(origin: int) -> int {
    if origin - SECONDARY_REACH >= 0 {
        origin - SECONDARY_REACH
    } else {
        0
    }
}

/// Bound above the origins of a secondary square on one axis: ten pixels
/// past the primary box, but no further than keeps the square on the canvas.
pub open spec fn secondary_high(origin: int, extent: int, canvas: int, side: int) -> int {
    let past = origin + extent + SECONDARY_REACH;
    let last = canvas * UNITS_PER_PIXEL - side;
    if past <= last {
        past
    } else {
        last
    }
}

/// The outline of the square of the given side with its top-left corner at
/// `(x, y)`.
pub open spec fn square_outline(x: int, y: int, side: int) -> Seq<int> {
    seq![x, y, x + side, y, x + side, y + side, x, y + side]
}

/// `poly` is the secondary square with origin `(x, y)` of a primary shape
/// with box `main` on a `width` by `height` canvas: the origin lies in the
/// admitted range on both axes and the box of the square overlaps none of
/// the `existing` shapes.
pub open spec fn secondary_at(
    poly: Seq<i64>,
    x: i64,
    y: i64,
    main: BBox,
    width: u32,
    height: u32,
    existing: Seq<Shape>,
) -> bool {
    let side = secondary_side(main);
    &&& secondary_low(main.x as int) <= x < secondary_high(
        main.x as int,
        main.width as int,
        width as int,
        side,
    )
    &&& secondary_low(main.y as int) <= y < secondary_high(
        main.y as int,
        main.height as int,
        height as int,
        side,
    )
    &&& poly.len() == 8
    &&& forall|i: int| 0 <= i < 8 ==> poly[i] as int == square_outline(x as int, y as int, side)[i]
    &&& !overlaps_some(BBox { x, y, width: side as i64, height: side as i64 }, existing)
}

/// `poly` is a secondary polygon of a primary shape with box `main`: the
/// secondary square at some origin.
pub open spec fn is_secondary(
    poly: Seq<i64>,
    main: BBox,
    width: u32,
    height: u32,
    existing: Seq<Shape>,
) -> bool {
    exists|x: i64, y: i64| #[trigger] secondary_at(poly, x, y, main, width, height, existing)
}

/// The outline of the square of the given side with its top-left corner at
/// `(x, y)`, as it is stored.
pub open spec fn square_polygon(x: i64, y: i64, side: i64) -> Seq<i64> {
    seq![
        x,
        y,
        (x + side) as i64,
        y,
        (x + side) as i64,
        (y + side) as i64,
        x,
        (y + side) as i64,
    ]
}

/// The box of the secondary square of `main` with its origin at `(x, y)`.
pub open spec fn square_box(main: BBox, x: i64, y: i64) -> BBox {
    BBox { x, y, width: secondary_side(main) as i64, height: secondary_side(main) as i64 }
}

/// The admitted range of origins of a secondary square of `main` is not
/// empty on either axis.
pub open spec fn has_origins(main: BBox, width: u32, height: u32) -> bool {
    let side = secondary_side(main);
    &&& secondary_low(main.x as int) < secondary_high(
        main.x as int,
        main.width as int,
        width as int,
        side,
    )
    &&& secondary_low(main.y as int) < secondary_high(
        main.y as int,
        main.height as int,
        height as int,
        side,
    )
}

/// One try at a secondary square of `main` by the sampler of `seed` at
/// `position`: the origin drawn, first on the horizontal and then on the
/// vertical axis, each from its admitted range, and where the sampler then
/// stands.
pub open spec fn origin_draw(seed: u64, position: u128, main: BBox, width: u32, height: u32) -> (
    i64,
    i64,
    u128,
) {
    let side = secondary_side(main);
    let low_x = secondary_low(main.x as int) as i64;
    let high_x = secondary_high(main.x as int, main.width as int, width as int, side) as i64;
    let low_y = secondary_low(main.y as int) as i64;
    let high_y = secondary_high(main.y as int, main.height as int, height as int, side) as i64;
    let after_x = range_end(seed, position, low_x, high_x);
    (
        range_draw(seed, position, low_x, high_x),
        range_draw(seed, after_x, low_y, high_y),
        range_end(seed, after_x, low_y, high_y),
    )
}

/// The search for a place for one secondary square in up to `tries` tries:
/// the first origin drawn whose square overlaps none of the `existing`
/// shapes, if there is one, and where the sampler stands after the search.
/// Without an admitted origin nothing is drawn and nothing is found.
pub open spec fn square_search(
    seed: u64,
    position: u128,
    main: BBox,
    width: u32,
    height: u32,
    existing: Seq<Shape>,
    tries: nat,
) -> (Option<(i64, i64)>, u128)
    decreases tries,
{
    if tries == 0 || !has_origins(main, width, height) {
        (None, position)
    } else {
        let (x, y, next) = origin_draw(seed, position, main, width, height);
        if !overlaps_some(square_box(main, x, y), existing) {
            (Some((x, y)), next)
        } else {
            square_search(seed, next, main, width, height, existing, (tries - 1) as nat)
        }
    }
}

/// Polygons gathered, and where the sampler stands after gathering them.
pub struct Gathered {
    pub polygons: Seq<Seq<i64>>,
    pub position: u128,
}

/// The secondary squares placed in `count` searches, one after the other,
/// by the sampler of `seed` starting at `position`: each search is given
/// ten tries, and a search that finds no place adds nothing.
pub open spec fn squares_after(
    seed: u64,
    position: u128,
    main: BBox,
    width: u32,
    height: u32,
    existing: Seq<Shape>,
    count: nat,
) -> Gathered
    decreases count,
{
    if count == 0 {
        Gathered { polygons: Seq::empty(), position }
    } else {
        let before = squares_after(seed, position, main, width, height, existing, (count - 1) as nat);
        let (found, next) = square_search(
            seed,
            before.position,
            main,
            width,
            height,
            existing,
            SECONDARY_TRIES as nat,
        );
        Gathered {
            polygons: match found {
                Some((x, y)) => before.polygons.push(
                    square_polygon(x, y, secondary_side(main) as i64),
                ),
                None => before.polygons,
            },
            position: next,
        }
    }
}

/// The multi-part segmentation of a shape with the outline `outline` and
/// the box `main`, as the sampler of `seed` at `position` makes it: the
/// outline, then the secondary squares placed in as many searches as the
/// sampler draws between one and three.
pub open spec fn multi_polygons(
    seed: u64,
    position: u128,
    outline: Seq<i64>,
    main: BBox,
    width: u32,
    height: u32,
    existing: Seq<Shape>,
) -> Gathered {
    let count = range_draw(seed, position, 1, 4);
    let squares = squares_after(
        seed,
        range_end(seed, position, 1, 4),
        main,
        width,
        height,
        existing,
        count as nat,
    );
    Gathered { polygons: seq![outline] + squares.polygons, position: squares.position }
}

/// Without an admitted origin no search finds a place, and no search moves
/// the sampler.
pub proof fn lemma_no_origins(
    seed: u64,
    position: u128,
    main: BBox,
    width: u32,
    height: u32,
    existing: Seq<Shape>,
    count: nat,
)
    requires
        !has_origins(main, width, height),
    ensures
        squares_after(seed, position, main, width, height, existing, count) == (Gathered {
            polygons: Seq::empty(),
            position,
        }),
    decreases count,
{
    if count > 0 {
        lemma_no_origins(seed, position, main, width, height, existing, (count - 1) as nat);
    }
}

/// With an admitted origin and no shape to overlap, every search places its
/// square at the first try: as many squares are placed as searches made.
pub proof fn lemma_free_neighbourhood(
    seed: u64,
    position: u128,
    main: BBox,
    width: u32,
    height: u32,
    existing: Seq<Shape>,
    count: nat,
)
    requires
        has_origins(main, width, height),
        existing.len() == 0,
    ensures
        squares_after(seed, position, main, width, height, existing, count).polygons.len() == count,
    decreases count,
{
    if count > 0 {
        lemma_free_neighbourhood(seed, position, main, width, height, existing, (count - 1) as nat);
    }
}

/// The square secondary polygon with its top-left corner at `(x, y)`.
pub fn secondary_square(x: i64, y: i64, side: i64) -> (poly: Vec<i64>)
    requires
        0 <= x <= 0x1000_0000_0000_0000,
        0 <= y <= 0x1000_0000_0000_0000,
        0 <= side <= SECONDARY_REACH,
    ensures
        poly@ == square_polygon(x, y, side),
        poly@.len() == 8,
        forall|i: int|
            0 <= i < 8 ==> poly@[i] as int == square_outline(x as int, y as int, side as int)[i],
{
    let mut poly: Vec<i64> = Vec::new();
    poly.push(x);
    poly.push(y);
    poly.push(x + side);
    poly.push(y);
    poly.push(x + side);
    poly.push(y + side);
    poly.push(x);
    poly.push(y + side);
    assert(poly@ =~= square_polygon(x, y, side));
    poly
}

/// The half-open range of origins of a secondary square on one axis, if it
/// is not empty.
fn secondary_range(origin: i64, extent: i64, canvas: u32, side: i64) -> (r: Option<(i64, i64)>)
    requires
        0 <= extent,
        0 <= side <= SECONDARY_REACH,
    ensures
        match r {
            Some((low, high)) => {
                &&& low == secondary_low(origin as int)
                &&& high == secondary_high(origin as int, extent as int, canvas as int, side as int)
                &&& 0 <= low < high <= canvas * UNITS_PER_PIXEL
            },
            None => secondary_low(origin as int) >= secondary_high(
                origin as int,
                extent as int,
                canvas as int,
                side as int,
            ),
        },
{
    let before: i128 = origin as i128 - SECONDARY_REACH as i128;
    let low: i128 = if before >= 0 {
        before
    } else {
        0
    };
    let past: i128 = origin as i128 + extent as i128 + SECONDARY_REACH as i128;
    let last: i128 = canvas as i128 * 1_000_000 - side as i128;
    let high: i128 = if past <= last {
        past
    } else {
        last
    };
    if low < high {
        Some((low as i64, high as i64))
    } else {
        None
    }
}

/// The polygons of a multi-part segmentation for `main_shape`: its own
/// outline first, then the secondary squares that found a place.
///
/// Between one and three secondary squares are attempted. Each is tried at
/// up to ten random origins within ten pixels of the primary box and on the
/// canvas; the first origin whose square overlaps none of `existing_shapes`
/// is taken, and a square with no such origin in ten tries is given up.
#[verifier::loop_isolation(false)]
pub fn generate_multi_polygon_segmentation(
    main_shape: &Shape,
    rng: &mut Sampler,
    width: u32,
    height: u32,
    existing_shapes: &[Shape],
) -> (polygons: Vec<Vec<i64>>)
    requires
        0 <= main_shape.bbox.width,
        0 <= main_shape.bbox.height,
    ensures
        polygons_view(polygons@) == multi_polygons(
            old(rng).seed,
            old(rng).position,
            main_shape.segmentation@,
            main_shape.bbox,
            width,
            height,
            existing_shapes@,
        ).polygons,
        final(rng).seed == old(rng).seed,
        final(rng).position == multi_polygons(
            old(rng).seed,
            old(rng).position,
            main_shape.segmentation@,
            main_shape.bbox,
            width,
            height,
            existing_shapes@,
        ).position,
        1 <= polygons@.len() <= 4,
        polygons@[0]@ == main_shape.segmentation@,
        forall|k: int|
            1 <= k < polygons@.len() ==> is_secondary(
                (#[trigger] polygons@[k])@,
                main_shape.bbox,
                width,
                height,
                existing_shapes@,
            ),
        !has_origins(main_shape.bbox, width, height) ==> polygons@.len() == 1,
        has_origins(main_shape.bbox, width, height) && existing_shapes@.len() == 0
            ==> polygons@.len() == 1 + range_draw(old(rng).seed, old(rng).position, 1, 4),
{
    let ghost seed = rng.seed;
    let ghost start = rng.position;
    let ghost main = main_shape.bbox;
    let ghost existing = existing_shapes@;
    let mut polygons: Vec<Vec<i64>> = Vec::new();
    polygons.push(copy_outline(&main_shape.segmentation));
    let bw: i64 = main_shape.bbox.width;
    let bh: i64 = main_shape.bbox.height;
    let smaller: i64 = if bw <= bh {
        bw
    } else {
        bh
    };
    let side: i64 = if smaller <= SECONDARY_REACH {
        smaller
    } else {
        SECONDARY_REACH
    };
    let range_x = secondary_range(main_shape.bbox.x, bw, width, side);
    let range_y = secondary_range(main_shape.bbox.y, bh, height, side);
    let count: u32 = rng.between(1, 3);
    let ghost first = rng.position;
    let ghost mut gathered = squares_after(seed, first, main, width, height, existing, 0);
    assert(polygons_view(polygons@) =~= seq![main_shape.segmentation@] + gathered.polygons);
    let mut attempted: u32 = 0;
    while attempted < count
        invariant
            attempted <= count <= 3,
            rng.seed == seed,
            gathered == squares_after(seed, first, main, width, height, existing, attempted as nat),
            rng.position == gathered.position,
            polygons_view(polygons@) == seq![main_shape.segmentation@] + gathered.polygons,
            1 <= polygons@.len() <= 1 + attempted,
            polygons@[0]@ == main_shape.segmentation@,
            forall|k: int|
                1 <= k < polygons@.len() ==> is_secondary(
                    (#[trigger] polygons@[k])@,
                    main_shape.bbox,
                    width,
                    height,
                    existing_shapes@,
                ),
        decreases count - attempted,
    {
        attempted += 1;
        let ghost from = rng.position;
        let ghost search = square_search(
            seed,
            from,
            main,
            width,
            height,
            existing,
            SECONDARY_TRIES as nat,
        );
        let ghost before = polygons_view(polygons@);
        let mut tries: u32 = 0;
        let mut found: bool = false;
        while tries < SECONDARY_TRIES && !found
            invariant
                tries <= SECONDARY_TRIES,
                rng.seed == seed,
                found ==> search.1 == rng.position && search.0.is_some() && polygons_view(
                    polygons@,
                ) == before.push(
                    square_polygon(search.0.unwrap().0, search.0.unwrap().1, side),
                ),
                !found ==> polygons_view(polygons@) == before && search == square_search(
                    seed,
                    rng.position,
                    main,
                    width,
                    height,
                    existing,
                    (SECONDARY_TRIES - tries) as nat,
                ),
                1 <= attempted <= 3,
                1 <= polygons@.len(),
                polygons@.len() <= attempted + if found {
                    1int
                } else {
                    0int
                },
                polygons@[0]@ == main_shape.segmentation@,
                forall|k: int|
                    1 <= k < polygons@.len() ==> is_secondary(
                        (#[trigger] polygons@[k])@,
                        main_shape.bbox,
                        width,
                        height,
                        existing_shapes@,
                    ),
            decreases SECONDARY_TRIES - tries + if found {
                0int
            } else {
                1int
            },
        {
            tries += 1;
            match (range_x, range_y) {
                (Some((low_x, high_x)), Some((low_y, high_y))) => {
                    let x: i64 = rng.below(low_x, high_x);
                    let y: i64 = rng.below(low_y, high_y);
                    let candidate = BBox { x, y, width: side, height: side };
                    assert(candidate == square_box(main, x, y));
                    if !overlaps_any(&candidate, existing_shapes) {
                        let poly = secondary_square(x, y, side);
                        assert(secondary_at(
                            poly@,
                            x,
                            y,
                            main_shape.bbox,
                            width,
                            height,
                            existing_shapes@,
                        ));
                        polygons.push(poly);
                        found = true;
                        assert(polygons_view(polygons@) =~= before.push(
                            square_polygon(x, y, side),
                        ));
                    }
                },
                _ => {
                    assert(!has_origins(main, width, height));
                },
            }
        }
        proof {
            gathered = squares_after(seed, first, main, width, height, existing, attempted as nat);
            assert(polygons_view(polygons@) =~= seq![main_shape.segmentation@]
                + gathered.polygons);
        }
    }
    proof {
        if !has_origins(main, width, height) {
            lemma_no_origins(seed, first, main, width, height, existing, count as nat);
        } else if existing.len() == 0 {
            lemma_free_neighbourhood(seed, first, main, width, height, existing, count as nat);
        }
    }
    polygons
}

/// Largest magnitude of a coordinate whose extents can be combined: the
/// distance between two such coordinates fits in 64 signed bits.
pub const COORD_LIMIT: i64 = 0x3fff_ffff_ffff_ffff;

/// Every coordinate of every polygon is within `COORD_LIMIT` of the origin.
pub open spec fn coords_bounded(polygons: Seq<Seq<i64>>) -> bool {
    forall|p: int, i: int|
        0 <= p < polygons.len() && 0 <= i < polygons[p].len() ==> -COORD_LIMIT
            <= #[trigger] polygons[p][i] <= COORD_LIMIT
}

/// `i` is the position of a coordinate of a whole vertex of polygon `p`.
pub open spec fn is_coord(polygons: Seq<Seq<i64>>, p: int, i: int) -> bool {
    0 <= p < polygons.len() && 0 <= i < polygons[p].len() / 2 * 2
}

/// Some polygon has at least one whole vertex.
pub open spec fn has_vertex(polygons: Seq<Seq<i64>>) -> bool {
    exists|p: int| 0 <= p < polygons.len() && #[trigger] polygons[p].len() >= 2
}

/// `b` encloses every vertex of every polygon.
pub open spec fn encloses_all(b: BBox, polygons: Seq<Seq<i64>>) -> bool {
    forall|p: int, i: int|
        is_coord(polygons, p, i) ==> if i % 2 == 0 {
            b.x <= #[trigger] polygons[p][i] <= b.x + b.width
        } else {
            b.y <= polygons[p][i] <= b.y + b.height
        }
}

/// Some x coordinate of the polygons equals `v`.
pub open spec fn x_attained(polygons: Seq<Seq<i64>>, v: int) -> bool {
    exists|p: int, i: int|
        is_coord(polygons, p, i) && i % 2 == 0 && #[trigger] polygons[p][i] == v
}

/// Some y coordinate of the polygons equals `v`.
pub open spec fn y_attained(polygons: Seq<Seq<i64>>, v: int) -> bool {
    exists|p: int, i: int|
        is_coord(polygons, p, i) && i % 2 == 1 && #[trigger] polygons[p][i] == v
}

/// `b` is the bounding box of the polygons together: it encloses every
/// vertex, and each of its four sides passes through a vertex.
pub open spec fn is_combined_box(b: BBox, polygons: Seq<Seq<i64>>) -> bool {
    &&& encloses_all(b, polygons)
    &&& x_attained(polygons, b.x as int)
    &&& x_attained(polygons, b.x + b.width)
    &&& y_attained(polygons, b.y as int)
    &&& y_attained(polygons, b.y + b.height)
}

/// The bounding box `[x, y, width, height]` of several polygons together:
/// the extent from the smallest to the largest coordinate over every vertex
/// of every polygon on each axis. Without any vertex the box is all zeros.
#[verifier::loop_isolation(false)]
pub fn calculate_combined_bbox(segmentations: &[Vec<i64>]) -> (bbox: Vec<i64>)
    requires
        coords_bounded(polygons_view(segmentations@)),
    ensures
        bbox@.len() == 4,
        has_vertex(polygons_view(segmentations@)) ==> is_combined_box(
            BBox { x: bbox@[0], y: bbox@[1], width: bbox@[2], height: bbox@[3] },
            polygons_view(segmentations@),
        ),
        !has_vertex(polygons_view(segmentations@)) ==> bbox@ == seq![0i64, 0i64, 0i64, 0i64],
{
    let ghost polys = polygons_view(segmentations@);
    let mut seen: bool = false;
    let mut min_x: i64 = 0;
    let mut min_y: i64 = 0;
    let mut max_x: i64 = 0;
    let mut max_y: i64 = 0;
    let mut p: usize = 0;
    while p < segmentations.len()
        invariant
            p <= polys.len(),
            !seen ==> forall|q: int| 0 <= q < p ==> #[trigger] polys[q].len() < 2,
            seen ==> {
                &&& -COORD_LIMIT <= min_x <= max_x <= COORD_LIMIT
                &&& -COORD_LIMIT <= min_y <= max_y <= COORD_LIMIT
                &&& forall|q: int, i: int|
                    is_coord(polys, q, i) && q < p ==> if i % 2 == 0 {
                        min_x <= #[trigger] polys[q][i] <= max_x
                    } else {
                        min_y <= polys[q][i] <= max_y
                    }
                &&& x_attained(polys, min_x as int)
                &&& x_attained(polys, max_x as int)
                &&& y_attained(polys, min_y as int)
                &&& y_attained(polys, max_y as int)
            },
        decreases polys.len() - p,
    {
        let poly = &segmentations[p];
        let n: usize = poly.len() / 2 * 2;
        let mut i: usize = 0;
        while i < n
            invariant
                p < polys.len(),
                poly@ == polys[p as int],
                polys == polygons_view(segmentations@),
                n == poly@.len() / 2 * 2,
                i <= n,
                i % 2 == 0,
                !seen ==> i == 0 && forall|q: int| 0 <= q < p ==> #[trigger] polys[q].len() < 2,
                seen ==> {
                    &&& -COORD_LIMIT <= min_x <= max_x <= COORD_LIMIT
                    &&& -COORD_LIMIT <= min_y <= max_y <= COORD_LIMIT
                    &&& forall|q: int, j: int|
                        is_coord(polys, q, j) && (q < p || (q == p && j < i)) ==> if j % 2 == 0 {
                            min_x <= #[trigger] polys[q][j] <= max_x
                        } else {
                            min_y <= polys[q][j] <= max_y
                        }
                    &&& x_attained(polys, min_x as int)
                    &&& x_attained(polys, max_x as int)
                    &&& y_attained(polys, min_y as int)
                    &&& y_attained(polys, max_y as int)
                },
            decreases n - i,
        {
            let x: i64 = poly[i];
            let y: i64 = poly[i + 1];
            proof {
                assert(is_coord(polys, p as int, i as int));
                assert(is_coord(polys, p as int, i + 1));
                assert(polys[p as int][i as int] == x);
                assert(polys[p as int][i + 1] == y);
                assert(x_attained(polys, x as int));
                assert(y_attained(polys, y as int));
            }
            if !seen {
                min_x = x;
                max_x = x;
                min_y = y;
                max_y = y;
                seen = true;
            } else {
                if x < min_x {
                    min_x = x;
                }
                if x > max_x {
                    max_x = x;
                }
                if y < min_y {
                    min_y = y;
                }
                if y > max_y {
                    max_y = y;
                }
            }
            i += 2;
        }
        p += 1;
    }
    let mut bbox: Vec<i64> = Vec::new();
    if seen {
        bbox.push(min_x);
        bbox.push(min_y);
        bbox.push(max_x - min_x);
        bbox.push(max_y - min_y);
    } else {
        bbox.push(0);
        bbox.push(0);
        bbox.push(0);
        bbox.push(0);
        assert(bbox@ =~= seq![0i64, 0i64, 0i64, 0i64]);
    }
    bbox
}

} // verus!
