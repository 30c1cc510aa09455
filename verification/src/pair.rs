//! The pair generator: a second annotation set derived from a dataset, with
//! a controlled mix of perfect matches, partial matches, misses, multiple
//! matches and additional detections.
//!
//! Ratios are given in parts per million of the number of original
//! annotations.

use crate::augment::{encloses_all, is_coord};
use crate::models::{
    annotations_keyed, annotations_view, categories_view, copy_categories, copy_extras,
    copy_images, copy_licenses, copy_text, keys_unique, well_keyed, AnnotationView,
    COCOAnnotation, COCOCategory, COCOData, CategoryView,
};
use crate::sample_generator::box_of;
use crate::sampler::{range_draw, range_end, ratio_draw, ratio_end, Sampler};
use vstd::set_lib::{lemma_int_range, set_int_range};
use vstd::prelude::*;

verus! {

/// Largest magnitude of a coordinate the pair generator shifts: far beyond
/// any canvas, and small enough that every shifted coordinate fits in 64
/// signed bits.
pub const SHIFT_LIMIT: i64 = 0x1000_0000_0000_0000;

/// The four ratios of a pair run, in parts per million: perfect matches,
/// partial matches, misses, and additional detections.
pub type Distribution = (u32, u32, u32, u32);

/// The size of a bucket: the ratio times the number of original
/// annotations, rounded to the nearest whole number, halves upwards.
pub open spec fn bucket(ratio: u32, total: nat) -> nat {
    ((ratio as int * total as int + 500_000) / 1_000_000) as nat
}

/// How an original annotation is treated in the pair set.
#[derive(Clone, Copy, Debug, PartialEq, Eq, Structural)]
pub enum Band {
    /// Copied verbatim.
    Perfect,
    /// Copied with a shift of three to six tenths of its size.
    Partial,
    /// Left out.
    NoMatch,
    /// Copied verbatim, possibly followed by slightly shifted copies.
    Multiple,
}

/// The band of the annotation at position `idx` among `total`: the perfect
/// band comes first, then the partial band, then the misses, each as long as
/// its bucket, and everything after them is in the multiple band. The order
/// of the annotations in the dataset alone decides; nothing is shuffled.
pub open spec fn band_of(idx: int, total: nat, distribution: Distribution) -> Band {
    let perfect = bucket(distribution.0, total);
    let partial = bucket(distribution.1, total);
    let missed = bucket(distribution.2, total);
    if idx < perfect {
        Band::Perfect
    } else if idx < perfect + partial {
        Band::Partial
    } else if idx < perfect + partial + missed {
        Band::NoMatch
    } else {
        Band::Multiple
    }
}

/// The exec counterpart of `bucket`.
pub fn bucket_size(ratio: u32, total: u64) -> (n: u128)
    ensures
        n == bucket(ratio, total as nat),
        n <= 0x1_0000_0000_0000_0000_0000_0000,
        total == 0 ==> n == 0,
{
    assert(0 <= ratio as int * total as int <= 0xffff_ffff * 0xffff_ffff_ffff_ffff)
        by (nonlinear_arith)
        requires
            0 <= ratio <= 0xffff_ffff,
            0 <= total <= 0xffff_ffff_ffff_ffff,
    ;
    (ratio as u128 * total as u128 + 500_000) / 1_000_000
}

/// The exec counterpart of `band_of`.
pub fn band_at(idx: usize, total: usize, distribution: Distribution) -> (b: Band)
    ensures
        b == band_of(idx as int, total as nat, distribution),
{
    let perfect: u128 = bucket_size(distribution.0, total as u64);
    let partial: u128 = bucket_size(distribution.1, total as u64);
    let missed: u128 = bucket_size(distribution.2, total as u64);
    let at: u128 = idx as u128;
    if at < perfect {
        Band::Perfect
    } else if at < perfect + partial {
        Band::Partial
    } else if at < perfect + partial + missed {
        Band::NoMatch
    } else {
        Band::Multiple
    }
}

/// `part` thousandths of `v`, rounded towards zero.
pub open spec fn scale_permille(v: int, part: int) -> int {
    if v >= 0 {
        v * part / 1000
    } else {
        -((-v) * part / 1000)
    }
}

/// An origin moved to `v`, kept on the canvas: not below zero, and not
/// above `limit`, the last origin at which the box still ends on the
/// canvas. The upper bound wins where the two conflict.
pub open spec fn clamp_origin(v: int, limit: int) -> int {
    let raised = if v < 0 {
        0
    } else {
        v
    };
    if raised > limit {
        limit
    } else {
        raised
    }
}

/// The exec counterpart of `clamp_origin`.
fn clamped(v: i128, limit: i128) -> (r: i128)
    ensures
        r == clamp_origin(v as int, limit as int),
{
    let raised: i128 = if v < 0 {
        0
    } else {
        v
    };
    if raised > limit {
        limit
    } else {
        raised
    }
}

/// The outline `poly` moved by `dx` horizontally and `dy` vertically.
pub open spec fn moved_outline(poly: Seq<i64>, dx: int, dy: int) -> Seq<i64> {
    Seq::new(
        poly.len(),
        |i: int|
            if i % 2 == 0 {
                (poly[i] + dx) as i64
            } else {
                (poly[i] + dy) as i64
            },
    )
}

/// Every polygon of a segmentation moved by `(dx, dy)`.
pub open spec fn moved_segmentation(segmentation: Option<Seq<Seq<i64>>>, dx: int, dy: int) -> Option<
    Seq<Seq<i64>>,
> {
    match segmentation {
        Some(polygons) => Some(
            Seq::new(polygons.len(), |p: int| moved_outline(polygons[p], dx, dy)),
        ),
        None => None,
    }
}

/// The annotation `a` under the new id `id`, everything else as it was.
pub open spec fn renumbered(a: AnnotationView, id: i64) -> AnnotationView {
    AnnotationView { id, ..a }
}

/// The annotation `a` under the new id `id` with its box origin moved to
/// `(x, y)`: every vertex of every polygon moves by the same amount as the
/// origin, and the area becomes that of the box.
pub open spec fn relocated(a: AnnotationView, id: i64, x: i64, y: i64) -> AnnotationView {
    AnnotationView {
        id,
        bbox: seq![x, y, a.bbox[2], a.bbox[3]],
        segmentation: moved_segmentation(a.segmentation, x - a.bbox[0], y - a.bbox[1]),
        area: (a.bbox[2] * a.bbox[3]) as i128,
        ..a
    }
}

/// The box of `a` has four entries, and they and all its vertices are
/// within `SHIFT_LIMIT` of the origin.
pub open spec fn shiftable(a: AnnotationView) -> bool {
    &&& a.bbox.len() == 4
    &&& forall|i: int| 0 <= i < 4 ==> -SHIFT_LIMIT <= #[trigger] a.bbox[i] <= SHIFT_LIMIT
    &&& a.segmentation matches Some(polygons) ==> forall|p: int, i: int|
        0 <= p < polygons.len() && 0 <= i < polygons[p].len() ==> -SHIFT_LIMIT
            <= #[trigger] polygons[p][i] <= SHIFT_LIMIT
}

/// A copy of `a` under the id `id`.
pub fn renumber(a: &COCOAnnotation, id: i64) -> (r: COCOAnnotation)
    ensures
        r@ == renumbered(a@, id),
{
    let mut r = a.duplicate();
    r.id = id;
    r
}

/// A copy of `poly` moved by `(dx, dy)`.
fn move_outline(poly: &Vec<i64>, dx: i64, dy: i64) -> (r: Vec<i64>)
    requires
        -3 * SHIFT_LIMIT <= dx <= 3 * SHIFT_LIMIT,
        -3 * SHIFT_LIMIT <= dy <= 3 * SHIFT_LIMIT,
        forall|i: int| 0 <= i < poly@.len() ==> -SHIFT_LIMIT <= #[trigger] poly@[i] <= SHIFT_LIMIT,
    ensures
        r@ == moved_outline(poly@, dx as int, dy as int),
{
    let mut r: Vec<i64> = Vec::new();
    let mut i: usize = 0;
    while i < poly.len()
        invariant
            i <= poly.len(),
            r@.len() == i,
            -3 * SHIFT_LIMIT <= dx <= 3 * SHIFT_LIMIT,
            -3 * SHIFT_LIMIT <= dy <= 3 * SHIFT_LIMIT,
            forall|j: int|
                0 <= j < poly@.len() ==> -SHIFT_LIMIT <= #[trigger] poly@[j] <= SHIFT_LIMIT,
            forall|j: int|
                0 <= j < i ==> #[trigger] r@[j] == moved_outline(poly@, dx as int, dy as int)[j],
        decreases poly.len() - i,
    {
        let v: i64 = poly[i];
        if i % 2 == 0 {
            r.push(v + dx);
        } else {
            r.push(v + dy);
        }
        i += 1;
    }
    assert(r@ =~= moved_outline(poly@, dx as int, dy as int));
    r
}

/// A copy of `a` under the id `id` with its box origin moved to `(x, y)`.
pub fn relocate(a: &COCOAnnotation, id: i64, x: i64, y: i64) -> (r: COCOAnnotation)
    requires
        shiftable(a@),
        -2 * SHIFT_LIMIT <= x <= 2 * SHIFT_LIMIT,
        -2 * SHIFT_LIMIT <= y <= 2 * SHIFT_LIMIT,
    ensures
        r@ == relocated(a@, id, x, y),
{
    let w: i64 = a.bbox[2];
    let h: i64 = a.bbox[3];
    assert(-SHIFT_LIMIT <= a@.bbox[0] <= SHIFT_LIMIT);
    assert(-SHIFT_LIMIT <= a@.bbox[1] <= SHIFT_LIMIT);
    assert(-SHIFT_LIMIT <= a@.bbox[2] <= SHIFT_LIMIT);
    assert(-SHIFT_LIMIT <= a@.bbox[3] <= SHIFT_LIMIT);
    let dx: i64 = x - a.bbox[0];
    let dy: i64 = y - a.bbox[1];
    let segmentation: Option<Vec<Vec<i64>>> = match &a.segmentation {
        None => None,
        Some(polygons) => {
            let mut moved: Vec<Vec<i64>> = Vec::new();
            let mut p: usize = 0;
            while p < polygons.len()
                invariant
                    p <= polygons.len(),
                    moved@.len() == p,
                    a.segmentation == Some(*polygons),
                    shiftable(a@),
                    -3 * SHIFT_LIMIT <= dx <= 3 * SHIFT_LIMIT,
                    -3 * SHIFT_LIMIT <= dy <= 3 * SHIFT_LIMIT,
                    forall|q: int|
                        0 <= q < p ==> (#[trigger] moved@[q])@ == moved_outline(
                            polygons@[q]@,
                            dx as int,
                            dy as int,
                        ),
                decreases polygons.len() - p,
            {
                proof {
                    let all = a@.segmentation.unwrap();
                    assert(all[p as int] == polygons@[p as int]@);
                    assert forall|i: int| 0 <= i < polygons@[p as int]@.len() implies -SHIFT_LIMIT
                        <= #[trigger] polygons@[p as int]@[i] <= SHIFT_LIMIT by {
                        assert(all[p as int][i] == polygons@[p as int]@[i]);
                    }
                }
                moved.push(move_outline(&polygons[p], dx, dy));
                p += 1;
            }
            Some(moved)
        },
    };
    let mut bbox: Vec<i64> = Vec::new();
    bbox.push(x);
    bbox.push(y);
    bbox.push(w);
    bbox.push(h);
    assert(-SHIFT_LIMIT * SHIFT_LIMIT <= w * h <= SHIFT_LIMIT * SHIFT_LIMIT) by (nonlinear_arith)
        requires
            -SHIFT_LIMIT <= w <= SHIFT_LIMIT,
            -SHIFT_LIMIT <= h <= SHIFT_LIMIT,
    ;
    let area: i128 = w as i128 * h as i128;
    let r = COCOAnnotation {
        id,
        image_id: a.image_id,
        category_id: a.category_id,
        segmentation,
        area,
        bbox,
        iscrowd: a.iscrowd,
        option: match &a.option {
            Some(o) => Some(o.duplicate()),
            None => None,
        },
        extra: copy_extras(&a.extra),
    };
    proof {
        let want = relocated(a@, id, x, y);
        assert(r@.bbox =~= want.bbox);
        if a.segmentation.is_some() {
            assert(r@.segmentation.unwrap() =~= want.segmentation.unwrap());
        }
    }
    r
}

/// The origin of a box of extent `extent` on a canvas `canvas` pixels
/// long, after a move by `shift` from `origin`.
pub open spec fn shifted_origin(origin: int, extent: int, canvas: int, shift: int) -> int {
    clamp_origin(origin + shift, canvas * 1_000_000 - extent)
}

/// A partial match of `a`: its box moved on each axis by `part` thousandths
/// of its extent on that axis, to the right or left and down or up, then
/// kept on a canvas of `width` by `height` pixels.
pub open spec fn partially_shifted(
    a: AnnotationView,
    id: i64,
    width: i32,
    height: i32,
    part: int,
    right: bool,
    down: bool,
) -> AnnotationView {
    let sx = scale_permille(a.bbox[2] as int, part);
    let sy = scale_permille(a.bbox[3] as int, part);
    relocated(
        a,
        id,
        shifted_origin(a.bbox[0] as int, a.bbox[2] as int, width as int, if right {
            sx
        } else {
            -sx
        }) as i64,
        shifted_origin(a.bbox[1] as int, a.bbox[3] as int, height as int, if down {
            sy
        } else {
            -sy
        }) as i64,
    )
}

/// A further match of `a`: its box moved by `(dx, dy)`, then kept on a
/// canvas of `width` by `height` pixels.
pub open spec fn nudged(
    a: AnnotationView,
    id: i64,
    width: i32,
    height: i32,
    dx: int,
    dy: int,
) -> AnnotationView {
    relocated(
        a,
        id,
        shifted_origin(a.bbox[0] as int, a.bbox[2] as int, width as int, dx) as i64,
        shifted_origin(a.bbox[1] as int, a.bbox[3] as int, height as int, dy) as i64,
    )
}

/// How far the match with index `match_index` of a multiple match may move
/// on each axis: ten pixels and five more for every earlier match.
pub open spec fn nudge_reach(match_index: int) -> int {
    (10 + 5 * match_index) * 1_000_000
}

/// An additional detection: a rectangle of the first category that stems
/// from no original annotation.
pub open spec fn additional_view(
    id: i64,
    image_id: i64,
    x: i64,
    y: i64,
    w: i64,
    h: i64,
) -> AnnotationView {
    AnnotationView {
        id,
        image_id,
        category_id: 1,
        segmentation: Some(
            seq![seq![x, y, (x + w) as i64, y, (x + w) as i64, (y + h) as i64, x, (y + h) as i64]],
        ),
        area: (w * h) as i128,
        bbox: seq![x, y, w, h],
        iscrowd: 0,
        option: None,
        extra: Seq::empty(),
    }
}

/// `part` thousandths of `v`, rounded towards zero.
fn permille_of(v: i64, part: u32) -> (r: i64)
    requires
        part <= 1000,
    ensures
        r == scale_permille(v as int, part as int),
        v >= 0 ==> 0 <= r <= v,
        v < 0 ==> v <= r <= 0,
{
    if v >= 0 {
        assert(0 <= v * part <= v * 1000 && v * part / 1000 <= v) by (nonlinear_arith)
            requires
                v >= 0,
                0 <= part <= 1000,
        ;
        ((v as i128 * part as i128) / 1000) as i64
    } else {
        let m: i128 = -(v as i128);
        assert(0 <= m * part <= m * 1000 && m * part / 1000 <= m) by (nonlinear_arith)
            requires
                m >= 0,
                0 <= part <= 1000,
        ;
        (-((m * part as i128) / 1000)) as i64
    }
}

/// The exec counterpart of `shifted_origin`.
fn shift_origin(origin: i64, extent: i64, canvas: i32, shift: i64) -> (r: i64)
    requires
        -SHIFT_LIMIT <= origin <= SHIFT_LIMIT,
        -SHIFT_LIMIT <= extent <= SHIFT_LIMIT,
        -SHIFT_LIMIT <= shift <= SHIFT_LIMIT,
    ensures
        r == shifted_origin(origin as int, extent as int, canvas as int, shift as int),
        -2 * SHIFT_LIMIT <= r <= 2 * SHIFT_LIMIT,
{
    let limit: i128 = canvas as i128 * 1_000_000 - extent as i128;
    clamped(origin as i128 + shift as i128, limit) as i64
}

/// The partial match of `a` for the drawn fraction and directions.
pub fn partial_match(
    a: &COCOAnnotation,
    id: i64,
    width: i32,
    height: i32,
    part: u32,
    right: bool,
    down: bool,
) -> (r: COCOAnnotation)
    requires
        shiftable(a@),
        part <= 1000,
    ensures
        r@ == partially_shifted(a@, id, width, height, part as int, right, down),
{
    assert(-SHIFT_LIMIT <= a@.bbox[0] <= SHIFT_LIMIT);
    assert(-SHIFT_LIMIT <= a@.bbox[1] <= SHIFT_LIMIT);
    assert(-SHIFT_LIMIT <= a@.bbox[2] <= SHIFT_LIMIT);
    assert(-SHIFT_LIMIT <= a@.bbox[3] <= SHIFT_LIMIT);
    let sx: i64 = permille_of(a.bbox[2], part);
    let sy: i64 = permille_of(a.bbox[3], part);
    let x: i64 = shift_origin(a.bbox[0], a.bbox[2], width, if right {
        sx
    } else {
        -sx
    });
    let y: i64 = shift_origin(a.bbox[1], a.bbox[3], height, if down {
        sy
    } else {
        -sy
    });
    relocate(a, id, x, y)
}

/// The further match of `a` for the drawn move.
pub fn nudged_match(a: &COCOAnnotation, id: i64, width: i32, height: i32, dx: i64, dy: i64) -> (r:
    COCOAnnotation)
    requires
        shiftable(a@),
        -SHIFT_LIMIT <= dx <= SHIFT_LIMIT,
        -SHIFT_LIMIT <= dy <= SHIFT_LIMIT,
    ensures
        r@ == nudged(a@, id, width, height, dx as int, dy as int),
{
    assert(-SHIFT_LIMIT <= a@.bbox[0] <= SHIFT_LIMIT);
    assert(-SHIFT_LIMIT <= a@.bbox[1] <= SHIFT_LIMIT);
    assert(-SHIFT_LIMIT <= a@.bbox[2] <= SHIFT_LIMIT);
    assert(-SHIFT_LIMIT <= a@.bbox[3] <= SHIFT_LIMIT);
    let x: i64 = shift_origin(a.bbox[0], a.bbox[2], width, dx);
    let y: i64 = shift_origin(a.bbox[1], a.bbox[3], height, dy);
    relocate(a, id, x, y)
}

/// The additional detection with the drawn origin and size.
pub fn additional_annotation(id: i64, image_id: i64, x: i64, y: i64, w: i64, h: i64) -> (r:
    COCOAnnotation)
    requires
        0 <= x <= SHIFT_LIMIT,
        0 <= y <= SHIFT_LIMIT,
        0 <= w <= SHIFT_LIMIT,
        0 <= h <= SHIFT_LIMIT,
    ensures
        r@ == additional_view(id, image_id, x, y, w, h),
{
    let mut outline: Vec<i64> = Vec::new();
    outline.push(x);
    outline.push(y);
    outline.push(x + w);
    outline.push(y);
    outline.push(x + w);
    outline.push(y + h);
    outline.push(x);
    outline.push(y + h);
    let mut polygons: Vec<Vec<i64>> = Vec::new();
    polygons.push(outline);
    let mut bbox: Vec<i64> = Vec::new();
    bbox.push(x);
    bbox.push(y);
    bbox.push(w);
    bbox.push(h);
    assert(0 <= w * h <= SHIFT_LIMIT * SHIFT_LIMIT) by (nonlinear_arith)
        requires
            0 <= w <= SHIFT_LIMIT,
            0 <= h <= SHIFT_LIMIT,
    ;
    let r = COCOAnnotation {
        id,
        image_id,
        category_id: 1,
        segmentation: Some(polygons),
        area: w as i128 * h as i128,
        bbox,
        iscrowd: 0,
        option: None,
        extra: Vec::new(),
    };
    proof {
        let want = additional_view(id, image_id, x, y, w, h);
        assert(r@.bbox =~= want.bbox);
        assert(r@.extra =~= want.extra);
        assert(r@.segmentation.unwrap()[0] =~= want.segmentation.unwrap()[0]);
        assert(r@.segmentation.unwrap() =~= want.segmentation.unwrap());
    }
    r
}

/// `b` is a partial match of `a` under the id `id`: the partial shift for
/// some fraction between three and six tenths and some pair of directions.
pub open spec fn is_partial_of(
    a: AnnotationView,
    b: AnnotationView,
    id: i64,
    width: i32,
    height: i32,
) -> bool {
    exists|part: int, right: bool, down: bool|
        300 <= part < 600 && b == #[trigger] partially_shifted(
            a,
            id,
            width,
            height,
            part,
            right,
            down,
        )
}

/// `b` is the further match number `match_index` of `a` under the id `id`:
/// a move of less than the reach of that match on each axis.
pub open spec fn is_nudge_of(
    a: AnnotationView,
    b: AnnotationView,
    id: i64,
    width: i32,
    height: i32,
    match_index: int,
) -> bool {
    exists|dx: int, dy: int|
        {
            &&& -nudge_reach(match_index) <= dx < nudge_reach(match_index)
            &&& -nudge_reach(match_index) <= dy < nudge_reach(match_index)
            &&& b == #[trigger] nudged(a, id, width, height, dx, dy)
        }
}

/// `b` is an additional detection under the id `id` on a canvas of `width`
/// by `height` pixels: a rectangle of thirty to eighty pixels a side with
/// its origin at least fifty pixels from the top and left edges and more
/// than a hundred from the bottom and right edges.
pub open spec fn is_additional(
    b: AnnotationView,
    id: i64,
    image_id: i64,
    width: i32,
    height: i32,
) -> bool {
    exists|x: i64, y: i64, w: i64, h: i64|
        {
            &&& 50_000_000 <= x < (width - 100) * 1_000_000
            &&& 50_000_000 <= y < (height - 100) * 1_000_000
            &&& 30_000_000 <= w < 80_000_000
            &&& 30_000_000 <= h < 80_000_000
            &&& b == #[trigger] additional_view(id, image_id, x, y, w, h)
        }
}

/// The most matches one original annotation can have.
pub open spec fn match_cap(max_pair_matches: u32) -> int {
    if max_pair_matches > 1 {
        max_pair_matches as int
    } else {
        1
    }
}

/// The `count` pair annotations from position `start` on are what the band
/// of the original annotation `idx` asks for: one verbatim copy in the
/// perfect band, one partial match in the partial band, nothing for a miss,
/// and in the multiple band a verbatim copy followed by further matches, at
/// most `max_pair_matches` in all. Ids continue the count from one.
pub open spec fn group_ok(
    originals: Seq<AnnotationView>,
    pairs: Seq<AnnotationView>,
    idx: int,
    start: int,
    count: int,
    max_pair_matches: u32,
    distribution: Distribution,
    width: i32,
    height: i32,
) -> bool {
    let a = originals[idx];
    &&& 0 <= start
    &&& 0 <= count
    &&& start + count <= pairs.len()
    &&& match band_of(idx, originals.len(), distribution) {
        Band::Perfect => count == 1 && pairs[start] == renumbered(a, (start + 1) as i64),
        Band::Partial => count == 1 && is_partial_of(
            a,
            pairs[start],
            (start + 1) as i64,
            width,
            height,
        ),
        Band::NoMatch => count == 0,
        Band::Multiple => {
            &&& 1 <= count <= match_cap(max_pair_matches)
            &&& pairs[start] == renumbered(a, (start + 1) as i64)
            &&& forall|j: int|
                1 <= j < count ==> is_nudge_of(
                    a,
                    #[trigger] pairs[start + j],
                    (start + j + 1) as i64,
                    width,
                    height,
                    j,
                )
        },
    }
}

/// `pairs` is a pair set of `originals` in which the group of original
/// `idx` begins at `starts[idx]`: the groups follow one another in the
/// order of the originals, each as its band asks, and the additional
/// detections, as many as their bucket, come last.
pub open spec fn arranged(
    originals: Seq<AnnotationView>,
    pairs: Seq<AnnotationView>,
    starts: Seq<int>,
    max_pair_matches: u32,
    distribution: Distribution,
    width: i32,
    height: i32,
) -> bool {
    let total = originals.len() as int;
    &&& starts.len() == total + 1
    &&& starts[0] == 0
    &&& forall|i: int|
        0 <= i < total ==> #[trigger] group_ok(
            originals,
            pairs,
            i,
            starts[i],
            starts[i + 1] - starts[i],
            max_pair_matches,
            distribution,
            width,
            height,
        )
    &&& pairs.len() == starts[total] + bucket(distribution.3, originals.len())
    &&& forall|j: int|
        0 <= j < bucket(distribution.3, originals.len()) ==> is_additional(
            #[trigger] pairs[starts[total] + j],
            (starts[total] + j + 1) as i64,
            originals[0].image_id,
            width,
            height,
        )
}

/// `pairs` is a pair set of `originals`.
pub open spec fn derived(
    originals: Seq<AnnotationView>,
    pairs: Seq<AnnotationView>,
    max_pair_matches: u32,
    distribution: Distribution,
    width: i32,
    height: i32,
) -> bool {
    exists|starts: Seq<int>| #[trigger]
        arranged(originals, pairs, starts, max_pair_matches, distribution, width, height)
}

/// The annotation at position `idx` may be shifted: it is in the partial
/// band, or in the multiple band when more than one match is allowed.
pub open spec fn may_shift(
    idx: int,
    total: nat,
    max_pair_matches: u32,
    distribution: Distribution,
) -> bool {
    band_of(idx, total, distribution) == Band::Partial || (band_of(idx, total, distribution)
        == Band::Multiple && max_pair_matches > 1)
}

/// A dataset the pair generator accepts: every annotation that may be
/// shifted can be shifted, and there is a first image to keep shifted boxes
/// and additional detections on if there are any to keep. Annotations that
/// are only copied or left out may be anything.
pub open spec fn pair_ready(
    original: COCOData,
    max_pair_matches: u32,
    distribution: Distribution,
) -> bool {
    let total = original.annotations@.len();
    &&& forall|i: int|
        0 <= i < total && may_shift(i, total, max_pair_matches, distribution) ==> shiftable(
            #[trigger] original.annotations@[i]@,
        ) && original.images@.len() > 0
    &&& bucket(distribution.3, total) > 0 ==> original.images@.len() > 0
}

/// The most pair annotations a run can produce.
pub open spec fn pair_capacity(
    total: nat,
    max_pair_matches: u32,
    distribution: Distribution,
) -> int {
    total * match_cap(max_pair_matches) + bucket(distribution.3, total)
}

/// Additional detections are asked for, but the first image is too small to
/// hold their margin of a hundred and fifty pixels on an axis.
pub open spec fn cramped(original: COCOData, distribution: Distribution) -> bool {
    &&& bucket(distribution.3, original.annotations@.len()) > 0
    &&& original.images@.len() > 0
    &&& (original.images@[0].width <= 150 || original.images@[0].height <= 150)
}

/// Why no pair set was generated.
#[derive(Debug, Clone, Copy, PartialEq, Eq, Structural)]
pub enum PairError {
    /// Additional detections were asked for on a canvas of at most 150
    /// pixels on an axis.
    CanvasTooSmall,
}

/// The category `c` with the marker appended to its name.
pub open spec fn renamed(c: CategoryView) -> CategoryView {
    CategoryView { name: c.name + "2"@, ..c }
}

/// The categories of a pair set: those of the original, with the marker
/// appended to every name if a mismatch of names is asked for.
pub open spec fn pair_categories(categories: Seq<CategoryView>, change_category_names: bool) -> Seq<
    CategoryView,
> {
    if change_category_names {
        Seq::new(categories.len(), |i: int| renamed(categories[i]))
    } else {
        categories
    }
}

/// The categories with the marker appended to every name; ids and
/// supercategories stay.
pub fn rename_categories(categories: &Vec<COCOCategory>) -> (r: Vec<COCOCategory>)
    ensures
        categories_view(r@) == pair_categories(categories_view(categories@), true),
{
    let mut r: Vec<COCOCategory> = Vec::new();
    let mut i: usize = 0;
    while i < categories.len()
        invariant
            i <= categories.len(),
            r@.len() == i,
            forall|j: int| 0 <= j < i ==> (#[trigger] r@[j])@ == renamed(categories@[j]@),
        decreases categories.len() - i,
    {
        let c = &categories[i];
        let mut name = c.name.clone();
        name.append("2");
        r.push(
            COCOCategory {
                id: c.id,
                name,
                supercategory: copy_text(&c.supercategory),
                extra: copy_extras(&c.extra),
            },
        );
        i += 1;
    }
    assert(categories_view(r@) =~= pair_categories(categories_view(categories@), true));
    r
}

/// A group that is as its band asks stays so when annotations are appended
/// to the pair set.
pub proof fn lemma_group_stable(
    originals: Seq<AnnotationView>,
    before: Seq<AnnotationView>,
    after: Seq<AnnotationView>,
    idx: int,
    start: int,
    count: int,
    max_pair_matches: u32,
    distribution: Distribution,
    width: i32,
    height: i32,
)
    requires
        group_ok(originals, before, idx, start, count, max_pair_matches, distribution, width, height),
        before.len() <= after.len(),
        forall|k: int| 0 <= k < before.len() ==> after[k] == before[k],
    ensures
        group_ok(originals, after, idx, start, count, max_pair_matches, distribution, width, height),
{
    if count > 0 {
        assert(after[start] == before[start]);
    }
    assert forall|j: int| 1 <= j < count implies #[trigger] after[start + j] == before[start + j] by {}
}

/// Pair annotation `k` has the id `k + 1`: ids count up from one across
/// the whole pair set.
pub open spec fn numbered(pairs: Seq<AnnotationView>) -> bool {
    forall|k: int| 0 <= k < pairs.len() ==> (#[trigger] pairs[k]).id == k + 1
}

/// Appending an annotation appends its value, and keeps the ids counting
/// up from one if the new id continues the count.
pub proof fn lemma_appended(pairs: Seq<COCOAnnotation>, x: COCOAnnotation)
    ensures
        annotations_view(pairs.push(x)) == annotations_view(pairs).push(x@),
        numbered(annotations_view(pairs)) && x.id == pairs.len() + 1 ==> numbered(
            annotations_view(pairs.push(x)),
        ),
        annotations_keyed(annotations_view(pairs)) && keys_unique(x@.extra) ==> annotations_keyed(
            annotations_view(pairs.push(x)),
        ),
{
    assert(annotations_view(pairs.push(x)) =~= annotations_view(pairs).push(x@));
}

/// Pair annotations made, and where the sampler stands after making them.
pub struct Matched {
    pub entries: Seq<AnnotationView>,
    pub position: u128,
}

/// The partial match of `a` that the sampler of `seed` at `position`
/// makes: it draws the fraction of the size, in thousandths from three to
/// six hundred, then whether the shift goes right and whether it goes
/// down, each in one case out of two.
pub open spec fn partial_draw(
    seed: u64,
    position: u128,
    a: AnnotationView,
    id: i64,
    width: i32,
    height: i32,
) -> Matched {
    let after_part = range_end(seed, position, 300, 600);
    let after_right = ratio_end(seed, after_part, 1, 2);
    Matched {
        entries: seq![
            partially_shifted(
                a,
                id,
                width,
                height,
                range_draw(seed, position, 300, 600) as int,
                ratio_draw(seed, after_part, 1, 2),
                ratio_draw(seed, after_right, 1, 2),
            ),
        ],
        position: ratio_end(seed, after_right, 1, 2),
    }
}

/// The number of matches of an original of the multiple band that the
/// sampler of `seed` at `position` draws, and where it stands afterwards:
/// one match unless more are allowed; if more are allowed, in three cases
/// out of ten a number between two and the most allowed, else one.
pub open spec fn match_count(seed: u64, position: u128, max_pair_matches: u32) -> (int, u128) {
    if max_pair_matches <= 1 {
        (1, position)
    } else {
        let decided = ratio_end(seed, position, 3, 10);
        if ratio_draw(seed, position, 3, 10) {
            (
                range_draw(seed, decided, 2, (max_pair_matches + 1) as i64) as int,
                range_end(seed, decided, 2, (max_pair_matches + 1) as i64),
            )
        } else {
            (1, decided)
        }
    }
}

/// The first `done` matches of an original `a` of the multiple band, made
/// by the sampler of `seed` starting at `position`: the copy under
/// `first_id`, then further matches under the ids that follow, each moved by
/// what the sampler draws within its reach, first horizontally and then
/// vertically.
pub open spec fn matches_after(
    seed: u64,
    position: u128,
    a: AnnotationView,
    first_id: int,
    width: i32,
    height: i32,
    done: nat,
) -> Matched
    decreases done,
{
    if done <= 1 {
        Matched { entries: seq![renumbered(a, first_id as i64)], position }
    } else {
        let before = matches_after(seed, position, a, first_id, width, height, (done - 1) as nat);
        let low = (-nudge_reach(done - 1)) as i64;
        let high = nudge_reach(done - 1) as i64;
        let after_x = range_end(seed, before.position, low, high);
        Matched {
            entries: before.entries.push(
                nudged(
                    a,
                    (first_id + done - 1) as i64,
                    width,
                    height,
                    range_draw(seed, before.position, low, high) as int,
                    range_draw(seed, after_x, low, high) as int,
                ),
            ),
            position: range_end(seed, after_x, low, high),
        }
    }
}

/// The matches of an original `a` of `band` that the sampler of `seed` at
/// `position` makes, the first under `first_id`.
pub open spec fn group_draw(
    seed: u64,
    position: u128,
    a: AnnotationView,
    band: Band,
    first_id: int,
    max_pair_matches: u32,
    width: i32,
    height: i32,
) -> Matched {
    match band {
        Band::Perfect => Matched { entries: seq![renumbered(a, first_id as i64)], position },
        Band::Partial => partial_draw(seed, position, a, first_id as i64, width, height),
        Band::NoMatch => Matched { entries: Seq::empty(), position },
        Band::Multiple => {
            let count = match_count(seed, position, max_pair_matches);
            matches_after(seed, count.1, a, first_id, width, height, count.0 as nat)
        },
    }
}

/// The matches of the first `done` originals, made one original after the
/// other by the sampler of `seed` starting at `position`, with ids counting
/// up from one.
pub open spec fn groups_after(
    seed: u64,
    position: u128,
    originals: Seq<AnnotationView>,
    max_pair_matches: u32,
    distribution: Distribution,
    width: i32,
    height: i32,
    done: nat,
) -> Matched
    decreases done,
{
    if done == 0 {
        Matched { entries: Seq::empty(), position }
    } else {
        let before = groups_after(
            seed,
            position,
            originals,
            max_pair_matches,
            distribution,
            width,
            height,
            (done - 1) as nat,
        );
        let group = group_draw(
            seed,
            before.position,
            originals[done - 1],
            band_of(done - 1, originals.len(), distribution),
            before.entries.len() as int + 1,
            max_pair_matches,
            width,
            height,
        );
        Matched { entries: before.entries + group.entries, position: group.position }
    }
}

/// The first `done` additional detections, made by the sampler of `seed`
/// starting at `position`: for each it draws the horizontal and the
/// vertical origin, then the width and the height.
pub open spec fn additions_after(
    seed: u64,
    position: u128,
    first_id: int,
    image_id: i64,
    width: i32,
    height: i32,
    done: nat,
) -> Matched
    decreases done,
{
    if done == 0 {
        Matched { entries: Seq::empty(), position }
    } else {
        let before = additions_after(
            seed,
            position,
            first_id,
            image_id,
            width,
            height,
            (done - 1) as nat,
        );
        let high_x = ((width - 100) * 1_000_000) as i64;
        let high_y = ((height - 100) * 1_000_000) as i64;
        let after_x = range_end(seed, before.position, 50_000_000, high_x);
        let after_y = range_end(seed, after_x, 50_000_000, high_y);
        let after_w = range_end(seed, after_y, 30_000_000, 80_000_000);
        Matched {
            entries: before.entries.push(
                additional_view(
                    (first_id + done - 1) as i64,
                    image_id,
                    range_draw(seed, before.position, 50_000_000, high_x),
                    range_draw(seed, after_x, 50_000_000, high_y),
                    range_draw(seed, after_y, 30_000_000, 80_000_000),
                    range_draw(seed, after_w, 30_000_000, 80_000_000),
                ),
            ),
            position: range_end(seed, after_w, 30_000_000, 80_000_000),
        }
    }
}

/// The pair set of `originals` that the sampler of `seed` at `position`
/// makes: the matches of every original in turn, then as many additional
/// detections as their bucket, on the image of the first original.
pub open spec fn pair_draw(
    seed: u64,
    position: u128,
    originals: Seq<AnnotationView>,
    max_pair_matches: u32,
    distribution: Distribution,
    width: i32,
    height: i32,
) -> Matched {
    let groups = groups_after(
        seed,
        position,
        originals,
        max_pair_matches,
        distribution,
        width,
        height,
        originals.len(),
    );
    let additions = additions_after(
        seed,
        groups.position,
        groups.entries.len() as int + 1,
        originals[0].image_id,
        width,
        height,
        bucket(distribution.3, originals.len()),
    );
    Matched { entries: groups.entries + additions.entries, position: additions.position }
}

/// The id of the next pair annotation when `count` exist.
fn next_id(count: usize) -> (id: i64)
    requires
        count < i64::MAX,
    ensures
        id == count + 1,
{
    (count as u64 + 1) as i64
}

/// The size of the canvas the pair generator keeps shifted boxes on: that
/// of the first image.
pub open spec fn reference_size(original: COCOData) -> (i32, i32) {
    if original.images@.len() > 0 {
        (original.images@[0].width, original.images@[0].height)
    } else {
        (0, 0)
    }
}

/// `pair` is a pair dataset of `original`: the same provenance, images,
/// licenses and extra fields, the categories of a pair set, and a pair set
/// of the original annotations with ids counting up from one.
pub open spec fn pair_of(
    original: COCOData,
    pair: COCOData,
    max_pair_matches: u32,
    distribution: Distribution,
    change_category_names: bool,
) -> bool {
    &&& !cramped(original, distribution)
    &&& pair@.info == original@.info
    &&& pair@.images == original@.images
    &&& pair@.licenses == original@.licenses
    &&& pair@.extra == original@.extra
    &&& pair@.categories == pair_categories(original@.categories, change_category_names)
    &&& numbered(pair@.annotations)
    &&& derived(
        original@.annotations,
        pair@.annotations,
        max_pair_matches,
        distribution,
        reference_size(original).0,
        reference_size(original).1,
    )
    &&& well_keyed(original@) ==> well_keyed(pair@)
}

/// Derives the pair dataset of `original_data`.
///
/// The original annotations are treated in their order, each as its band
/// asks: a verbatim copy; a partial match, shifted by three to six tenths
/// of its size in a random direction on each axis; nothing; or a verbatim
/// copy which in three cases out of ten, if more than one match is allowed,
/// is followed by further matches up to between two and `max_pair_matches`
/// in all, each moved by less than its reach. Then the additional
/// detections follow. Shifted boxes are kept on the canvas of the first
/// image. Ids count up from one in the order of the pair set.
#[verifier::loop_isolation(false)]
#[verifier::rlimit(60)]
pub fn generate_pair_json(
    original_data: &COCOData,
    rng: &mut Sampler,
    max_pair_matches: u32,
    distribution: Distribution,
    change_category_names: bool,
) -> (r: Result<COCOData, PairError>)
    requires
        pair_ready(*original_data, max_pair_matches, distribution),
        pair_capacity(original_data.annotations@.len(), max_pair_matches, distribution) < i64::MAX,
    ensures
        match r {
            Err(PairError::CanvasTooSmall) => cramped(*original_data, distribution),
            Ok(pair) => pair_of(
                *original_data,
                pair,
                max_pair_matches,
                distribution,
                change_category_names,
            ),
        },
        final(rng).seed == old(rng).seed,
        r is Err ==> final(rng).position == old(rng).position,
        r matches Ok(pair) ==> pair@.annotations == pair_draw(
            old(rng).seed,
            old(rng).position,
            original_data@.annotations,
            max_pair_matches,
            distribution,
            reference_size(*original_data).0,
            reference_size(*original_data).1,
        ).entries && final(rng).position == pair_draw(
            old(rng).seed,
            old(rng).position,
            original_data@.annotations,
            max_pair_matches,
            distribution,
            reference_size(*original_data).0,
            reference_size(*original_data).1,
        ).position,
{
    let ghost seed = rng.seed;
    let ghost origin = rng.position;
    let total: usize = original_data.annotations.len();
    let extra_count: u128 = bucket_size(distribution.3, total as u64);
    let (width, height): (i32, i32) = if original_data.images.len() > 0 {
        (original_data.images[0].width, original_data.images[0].height)
    } else {
        (0, 0)
    };
    if extra_count > 0 && original_data.images.len() > 0 && (width <= 150 || height <= 150) {
        return Err(PairError::CanvasTooSmall);
    }
    let cap: u32 = if max_pair_matches > 1 {
        max_pair_matches
    } else {
        1
    };
    let ghost originals = annotations_view(original_data.annotations@);
    proof {
        assert(cap == match_cap(max_pair_matches));
        assert(total * cap + extra_count < i64::MAX);
        assert(extra_count > 0 ==> total > 0);
    }
    let mut pairs: Vec<COCOAnnotation> = Vec::new();
    let ghost mut starts: Seq<int> = seq![0int];
    let ghost mut made_so_far = Matched { entries: Seq::empty(), position: origin };
    assert(annotations_view(pairs@) =~= made_so_far.entries);
    let mut idx: usize = 0;
    while idx < total
        invariant
            idx <= total,
            rng.seed == seed,
            rng.position == made_so_far.position,
            annotations_view(pairs@) == made_so_far.entries,
            made_so_far == groups_after(
                seed,
                origin,
                originals,
                max_pair_matches,
                distribution,
                width,
                height,
                idx as nat,
            ),
            starts.len() == idx + 1,
            starts[0] == 0,
            starts[idx as int] == pairs@.len(),
            pairs@.len() <= idx * cap,
            total * cap + extra_count < i64::MAX,
            numbered(annotations_view(pairs@)),
            well_keyed(original_data@) ==> annotations_keyed(annotations_view(pairs@)),
            forall|i: int|
                0 <= i < idx ==> #[trigger] group_ok(
                    originals,
                    annotations_view(pairs@),
                    i,
                    starts[i],
                    starts[i + 1] - starts[i],
                    max_pair_matches,
                    distribution,
                    width,
                    height,
                ),
        decreases total - idx,
    {
        let a = &original_data.annotations[idx];
        let ghost before = annotations_view(pairs@);
        let ghost old_starts = starts;
        let start: usize = pairs.len();
        proof {
            assert(idx * cap + cap == (idx + 1) * cap && (idx + 1) * cap <= total * cap)
                by (nonlinear_arith)
                requires
                    idx < total,
                    cap >= 1,
            ;
            assert(originals[idx as int] == a@);
            assert(original_data@.annotations[idx as int] == a@);
            assert(may_shift(idx as int, total as nat, max_pair_matches, distribution)
                ==> shiftable(original_data.annotations@[idx as int]@));
        }
        let band = band_at(idx, total, distribution);
        let ghost group = group_draw(
            seed,
            rng.position,
            a@,
            band,
            start + 1,
            max_pair_matches,
            width,
            height,
        );
        match band {
            Band::Perfect => {
                let id: i64 = next_id(pairs.len());
                let copy = renumber(a, id);
                proof {
                    lemma_appended(pairs@, copy);
                }
                pairs.push(copy);
                assert(annotations_view(pairs@) =~= before + group.entries);
            },
            Band::Partial => {
                let id: i64 = next_id(pairs.len());
                let part: u32 = rng.below(300, 600) as u32;
                let right: bool = rng.chance(1, 2);
                let down: bool = rng.chance(1, 2);
                let shifted = partial_match(a, id, width, height, part, right, down);
                assert(is_partial_of(a@, shifted@, id, width, height));
                proof {
                    lemma_appended(pairs@, shifted);
                }
                pairs.push(shifted);
                assert(annotations_view(pairs@) =~= before + group.entries);
            },
            Band::NoMatch => {
                assert(annotations_view(pairs@) =~= before + group.entries);
            },
            Band::Multiple => {
                let ghost counted = match_count(seed, rng.position, max_pair_matches);
                let matches: u32 = if max_pair_matches > 1 && rng.chance(3, 10) {
                    rng.between(2, max_pair_matches)
                } else {
                    1
                };
                assert(matches == counted.0 && rng.position == counted.1);
                let id: i64 = next_id(pairs.len());
                let copy = renumber(a, id);
                proof {
                    lemma_appended(pairs@, copy);
                }
                pairs.push(copy);
                assert(annotations_view(pairs@) =~= before + matches_after(
                    seed,
                    counted.1,
                    a@,
                    start + 1,
                    width,
                    height,
                    1,
                ).entries);
                let mut j: u32 = 1;
                while j < matches
                    invariant
                        1 <= j <= matches <= cap,
                        rng.seed == seed,
                        rng.position == matches_after(
                            seed,
                            counted.1,
                            a@,
                            start + 1,
                            width,
                            height,
                            j as nat,
                        ).position,
                        annotations_view(pairs@) == before + matches_after(
                            seed,
                            counted.1,
                            a@,
                            start + 1,
                            width,
                            height,
                            j as nat,
                        ).entries,
                        pairs@.len() == start + j,
                        numbered(annotations_view(pairs@)),
                        well_keyed(original_data@) ==> annotations_keyed(
                            annotations_view(pairs@),
                        ),
                        forall|k: int|
                            0 <= k < start ==> #[trigger] annotations_view(pairs@)[k] == before[k],
                        annotations_view(pairs@)[start as int] == renumbered(a@, (start + 1) as i64),
                        forall|m: int|
                            1 <= m < j ==> is_nudge_of(
                                a@,
                                #[trigger] annotations_view(pairs@)[start + m],
                                (start + m + 1) as i64,
                                width,
                                height,
                                m,
                            ),
                    decreases matches - j,
                {
                    let reach: i64 = (10 + 5 * (j as i64)) * 1_000_000;
                    let dx: i64 = rng.below(-reach, reach);
                    let dy: i64 = rng.below(-reach, reach);
                    let id: i64 = next_id(pairs.len());
                    let further = nudged_match(a, id, width, height, dx, dy);
                    assert(is_nudge_of(a@, further@, id, width, height, j as int));
                    proof {
                        lemma_appended(pairs@, further);
                    }
                    pairs.push(further);
                    j += 1;
                    assert(annotations_view(pairs@) =~= before + matches_after(
                        seed,
                        counted.1,
                        a@,
                        start + 1,
                        width,
                        height,
                        j as nat,
                    ).entries);
                }
            },
        }
        proof {
            made_so_far = Matched { entries: before + group.entries, position: group.position };
            let after = annotations_view(pairs@);
            starts = starts.push(pairs@.len() as int);
            assert forall|k: int| 0 <= k < before.len() implies after[k] == before[k] by {}
            assert(group_ok(
                originals,
                after,
                idx as int,
                start as int,
                pairs@.len() - start,
                max_pair_matches,
                distribution,
                width,
                height,
            ));
            assert forall|i: int| 0 <= i < idx + 1 implies #[trigger] group_ok(
                originals,
                after,
                i,
                starts[i],
                starts[i + 1] - starts[i],
                max_pair_matches,
                distribution,
                width,
                height,
            ) by {
                if i < idx {
                    assert(starts[i] == old_starts[i] && starts[i + 1] == old_starts[i + 1]);
                    lemma_group_stable(
                        originals,
                        before,
                        after,
                        i,
                        starts[i],
                        starts[i + 1] - starts[i],
                        max_pair_matches,
                        distribution,
                        width,
                        height,
                    );
                }
            }
        }
        idx += 1;
    }
    let base: usize = pairs.len();
    let ghost grouped = annotations_view(pairs@);
    let ghost grouped_at = rng.position;
    proof {
        assert(idx * cap == total * cap);
        assert(annotations_view(pairs@) =~= grouped + additions_after(
            seed,
            grouped_at,
            base + 1,
            originals[0].image_id,
            width,
            height,
            0,
        ).entries);
    }
    let mut made: u128 = 0;
    while made < extra_count
        invariant
            made <= extra_count,
            pairs@.len() == base + made,
            rng.seed == seed,
            rng.position == additions_after(
                seed,
                grouped_at,
                base + 1,
                originals[0].image_id,
                width,
                height,
                made as nat,
            ).position,
            annotations_view(pairs@) == grouped + additions_after(
                seed,
                grouped_at,
                base + 1,
                originals[0].image_id,
                width,
                height,
                made as nat,
            ).entries,
            numbered(annotations_view(pairs@)),
            well_keyed(original_data@) ==> annotations_keyed(annotations_view(pairs@)),
            forall|k: int| 0 <= k < base ==> #[trigger] annotations_view(pairs@)[k] == grouped[k],
            forall|m: int|
                0 <= m < made ==> is_additional(
                    #[trigger] annotations_view(pairs@)[base + m],
                    (base + m + 1) as i64,
                    originals[0].image_id,
                    width,
                    height,
                ),
        decreases extra_count - made,
    {
        assert(total > 0 && original_data.images@.len() > 0);
        assert(originals[0] == original_data.annotations@[0]@);
        let x: i64 = rng.below(50_000_000, (width as i64 - 100) * 1_000_000);
        let y: i64 = rng.below(50_000_000, (height as i64 - 100) * 1_000_000);
        let w: i64 = rng.below(30_000_000, 80_000_000);
        let h: i64 = rng.below(30_000_000, 80_000_000);
        let id: i64 = next_id(pairs.len());
        let image_id: i64 = original_data.annotations[0].image_id;
        let extra = additional_annotation(id, image_id, x, y, w, h);
        assert(is_additional(extra@, id, image_id, width, height));
        proof {
            lemma_appended(pairs@, extra);
        }
        pairs.push(extra);
        made += 1;
        assert(annotations_view(pairs@) =~= grouped + additions_after(
            seed,
            grouped_at,
            base + 1,
            originals[0].image_id,
            width,
            height,
            made as nat,
        ).entries);
    }
    proof {
        let after = annotations_view(pairs@);
        assert forall|i: int| 0 <= i < total implies #[trigger] group_ok(
            originals,
            after,
            i,
            starts[i],
            starts[i + 1] - starts[i],
            max_pair_matches,
            distribution,
            width,
            height,
        ) by {
            lemma_group_stable(
                originals,
                grouped,
                after,
                i,
                starts[i],
                starts[i + 1] - starts[i],
                max_pair_matches,
                distribution,
                width,
                height,
            );
        }
        assert(arranged(originals, after, starts, max_pair_matches, distribution, width, height));
    }
    let categories = if change_category_names {
        rename_categories(&original_data.categories)
    } else {
        copy_categories(&original_data.categories)
    };
    let pair = COCOData {
        info: match &original_data.info {
            Some(info) => Some(info.duplicate()),
            None => None,
        },
        images: copy_images(&original_data.images),
        annotations: pairs,
        categories,
        licenses: copy_licenses(&original_data.licenses),
        extra: copy_extras(&original_data.extra),
    };
    Ok(pair)
}

/// The positions among `total` originals that fall into `band`.
pub open spec fn band_members(total: nat, distribution: Distribution, band: Band) -> Set<int> {
    Set::new(|i: int| 0 <= i < total && band_of(i, total, distribution) == band)
}

/// Bucket sizes: when the perfect, partial and miss buckets together do
/// not exceed the number of originals, each of these bands holds exactly as
/// many originals as its bucket, the ratio times the number of originals
/// rounded to the nearest whole number, and the multiple band holds the
/// rest.
pub proof fn lemma_band_sizes(total: nat, distribution: Distribution)
    requires
        bucket(distribution.0, total) + bucket(distribution.1, total) + bucket(
            distribution.2,
            total,
        ) <= total,
    ensures
        band_members(total, distribution, Band::Perfect).finite(),
        band_members(total, distribution, Band::Partial).finite(),
        band_members(total, distribution, Band::NoMatch).finite(),
        band_members(total, distribution, Band::Multiple).finite(),
        band_members(total, distribution, Band::Perfect).len() == bucket(distribution.0, total),
        band_members(total, distribution, Band::Partial).len() == bucket(distribution.1, total),
        band_members(total, distribution, Band::NoMatch).len() == bucket(distribution.2, total),
        band_members(total, distribution, Band::Multiple).len() == total - bucket(
            distribution.0,
            total,
        ) - bucket(distribution.1, total) - bucket(distribution.2, total),
{
    let p = bucket(distribution.0, total) as int;
    let q = p + bucket(distribution.1, total);
    let n = q + bucket(distribution.2, total);
    lemma_int_range(0, p);
    lemma_int_range(p, q);
    lemma_int_range(q, n);
    lemma_int_range(n, total as int);
    assert(band_members(total, distribution, Band::Perfect) =~= set_int_range(0, p));
    assert(band_members(total, distribution, Band::Partial) =~= set_int_range(p, q));
    assert(band_members(total, distribution, Band::NoMatch) =~= set_int_range(q, n));
    assert(band_members(total, distribution, Band::Multiple) =~= set_int_range(n, total as int));
}

/// A bucket of ratio one holds every original, and a bucket of ratio zero
/// none.
pub proof fn lemma_bucket_extremes(total: nat)
    ensures
        bucket(1_000_000, total) == total,
        bucket(0, total) == 0,
{
}

/// Groups of one annotation each begin at their own position, and groups of
/// none all begin at zero.
proof fn lemma_starts(starts: Seq<int>, n: int, step: int)
    requires
        0 <= n < starts.len(),
        starts[0] == 0,
        forall|i: int| 0 <= i < n ==> #[trigger] starts[i + 1] - starts[i] == step,
    ensures
        starts[n] == n * step,
    decreases n,
{
    if n > 0 {
        lemma_starts(starts, n - 1, step);
        let m = n - 1;
        assert(starts[m + 1] - starts[m] == step);
        assert(starts[n] == starts[m] + step);
        assert(n * step == m * step + step) by (nonlinear_arith)
            requires
                n == m + 1,
        ;
    } else {
        assert(n * step == 0) by (nonlinear_arith)
            requires
                n == 0,
        ;
    }
}

/// All perfect: with the perfect ratio at one and every other ratio at
/// zero, the pair set is the original annotations in their order, each
/// unchanged but for its id, and the ids count up from one.
pub proof fn lemma_all_perfect(
    original: COCOData,
    pair: COCOData,
    max_pair_matches: u32,
    change_category_names: bool,
)
    requires
        pair_of(original, pair, max_pair_matches, (1_000_000, 0, 0, 0), change_category_names),
    ensures
        pair@.annotations.len() == original@.annotations.len(),
        forall|k: int|
            0 <= k < original@.annotations.len() ==> #[trigger] pair@.annotations[k] == renumbered(
                original@.annotations[k],
                (k + 1) as i64,
            ),
        !change_category_names ==> pair@.categories == original@.categories,
{
    let d: Distribution = (1_000_000, 0, 0, 0);
    let originals = original@.annotations;
    let pairs = pair@.annotations;
    let total = originals.len();
    let (w, h) = reference_size(original);
    lemma_bucket_extremes(total);
    let starts = choose|starts: Seq<int>| #[trigger]
        arranged(originals, pairs, starts, max_pair_matches, d, w, h);
    assert forall|i: int| 0 <= i < total implies #[trigger] starts[i + 1] - starts[i] == 1 by {
        assert(group_ok(
            originals,
            pairs,
            i,
            starts[i],
            starts[i + 1] - starts[i],
            max_pair_matches,
            d,
            w,
            h,
        ));
        assert(band_of(i, total, d) == Band::Perfect);
    }
    assert forall|k: int| 0 <= k < total implies #[trigger] pairs[k] == renumbered(
        originals[k],
        (k + 1) as i64,
    ) by {
        lemma_starts(starts, k, 1);
        assert(group_ok(
            originals,
            pairs,
            k,
            starts[k],
            starts[k + 1] - starts[k],
            max_pair_matches,
            d,
            w,
            h,
        ));
        assert(band_of(k, total, d) == Band::Perfect);
    }
    lemma_starts(starts, total as int, 1);
}

/// All missed: with the miss ratio at one and the perfect and partial
/// ratios at zero, no original annotation has a match: the pair set holds
/// the additional detections and nothing else.
pub proof fn lemma_all_missed(
    original: COCOData,
    pair: COCOData,
    max_pair_matches: u32,
    additional: u32,
    change_category_names: bool,
)
    requires
        pair_of(
            original,
            pair,
            max_pair_matches,
            (0, 0, 1_000_000, additional),
            change_category_names,
        ),
    ensures
        pair@.annotations.len() == bucket(additional, original@.annotations.len()),
        forall|k: int|
            0 <= k < pair@.annotations.len() ==> is_additional(
                #[trigger] pair@.annotations[k],
                (k + 1) as i64,
                original@.annotations[0].image_id,
                reference_size(original).0,
                reference_size(original).1,
            ),
{
    let d: Distribution = (0, 0, 1_000_000, additional);
    let originals = original@.annotations;
    let pairs = pair@.annotations;
    let total = originals.len();
    let (w, h) = reference_size(original);
    lemma_bucket_extremes(total);
    let starts = choose|starts: Seq<int>| #[trigger]
        arranged(originals, pairs, starts, max_pair_matches, d, w, h);
    assert forall|i: int| 0 <= i < total implies #[trigger] starts[i + 1] - starts[i] == 0 by {
        assert(group_ok(
            originals,
            pairs,
            i,
            starts[i],
            starts[i + 1] - starts[i],
            max_pair_matches,
            d,
            w,
            h,
        ));
        assert(band_of(i, total, d) == Band::NoMatch);
    }
    lemma_starts(starts, total as int, 0);
    assert forall|k: int| 0 <= k < pairs.len() implies is_additional(
        #[trigger] pairs[k],
        (k + 1) as i64,
        originals[0].image_id,
        w,
        h,
    ) by {
        assert(pairs[starts[total as int] + k] == pairs[k]);
    }
}

/// Ids that count up from one are strictly increasing, and so no two
/// annotations share one.
pub proof fn lemma_numbered_increasing(pairs: Seq<AnnotationView>)
    requires
        numbered(pairs),
    ensures
        forall|i: int, j: int|
            0 <= i < j < pairs.len() ==> (#[trigger] pairs[i]).id < (#[trigger] pairs[j]).id,
{
}

/// A shifted box that fits on the canvas is kept on it: its origin is not
/// negative, and it ends no later than the canvas.
pub proof fn lemma_shifted_on_canvas(origin: int, extent: int, canvas: int, shift: int)
    requires
        0 <= extent <= canvas * 1_000_000,
    ensures
        0 <= shifted_origin(origin, extent, canvas, shift),
        shifted_origin(origin, extent, canvas, shift) + extent <= canvas * 1_000_000,
{
}

/// A relocated annotation moves as a whole: if its box enclosed every
/// vertex of its polygons before, it does so after.
pub proof fn lemma_relocated_encloses(a: AnnotationView, id: i64, x: i64, y: i64)
    requires
        shiftable(a),
        -2 * SHIFT_LIMIT <= x <= 2 * SHIFT_LIMIT,
        -2 * SHIFT_LIMIT <= y <= 2 * SHIFT_LIMIT,
        a.segmentation matches Some(polygons) && encloses_all(box_of(a), polygons),
    ensures
        relocated(a, id, x, y).segmentation matches Some(moved) && encloses_all(
            box_of(relocated(a, id, x, y)),
            moved,
        ),
{
    let polygons = a.segmentation.unwrap();
    let b = relocated(a, id, x, y);
    let moved = b.segmentation.unwrap();
    let dx = x - a.bbox[0];
    let dy = y - a.bbox[1];
    assert(-SHIFT_LIMIT <= a.bbox[0] <= SHIFT_LIMIT);
    assert(-SHIFT_LIMIT <= a.bbox[1] <= SHIFT_LIMIT);
    assert(-SHIFT_LIMIT <= a.bbox[2] <= SHIFT_LIMIT);
    assert(-SHIFT_LIMIT <= a.bbox[3] <= SHIFT_LIMIT);
    assert forall|p: int, i: int| is_coord(moved, p, i) implies if i % 2 == 0 {
        box_of(b).x <= #[trigger] moved[p][i] <= box_of(b).x + box_of(b).width
    } else {
        box_of(b).y <= moved[p][i] <= box_of(b).y + box_of(b).height
    } by {
        assert(moved[p] == moved_outline(polygons[p], dx, dy));
        assert(is_coord(polygons, p, i));
        assert(-SHIFT_LIMIT <= polygons[p][i] <= SHIFT_LIMIT);
        if i % 2 == 0 {
            assert(box_of(a).x <= polygons[p][i] <= box_of(a).x + box_of(a).width);
            assert(moved[p][i] == polygons[p][i] + dx);
        } else {
            assert(box_of(a).y <= polygons[p][i] <= box_of(a).y + box_of(a).height);
            assert(moved[p][i] == polygons[p][i] + dy);
        }
    }
}

/// What a partial match keeps and what it changes: category, image and
/// size stay; the area becomes that of the box; every vertex of every
/// polygon moves by as much as the origin moved, after clamping; and a box
/// that fits on the canvas of `width` by `height` pixels stays on it. The
/// original must have a box of four numbers.
pub proof fn lemma_partial_match(
    a: AnnotationView,
    b: AnnotationView,
    id: i64,
    width: i32,
    height: i32,
)
    requires
        a.bbox.len() == 4,
        is_partial_of(a, b, id, width, height),
    ensures
        b.id == id,
        b.category_id == a.category_id,
        b.image_id == a.image_id,
        b.iscrowd == a.iscrowd,
        b.bbox.len() == 4,
        b.bbox[2] == a.bbox[2],
        b.bbox[3] == a.bbox[3],
        b.area == a.bbox[2] * a.bbox[3],
        b.segmentation == moved_segmentation(
            a.segmentation,
            b.bbox[0] - a.bbox[0],
            b.bbox[1] - a.bbox[1],
        ),
        0 <= a.bbox[2] <= width * 1_000_000 ==> 0 <= b.bbox[0] <= width * 1_000_000 - b.bbox[2],
        0 <= a.bbox[3] <= height * 1_000_000 ==> 0 <= b.bbox[1] <= height * 1_000_000 - b.bbox[3],
{
    let (part, right, down) = choose|part: int, right: bool, down: bool|
        300 <= part < 600 && b == #[trigger] partially_shifted(
            a,
            id,
            width,
            height,
            part,
            right,
            down,
        );
    let sx = scale_permille(a.bbox[2] as int, part);
    let sy = scale_permille(a.bbox[3] as int, part);
    if 0 <= a.bbox[2] <= width * 1_000_000 {
        lemma_shifted_on_canvas(a.bbox[0] as int, a.bbox[2] as int, width as int, if right {
            sx
        } else {
            -sx
        });
    }
    if 0 <= a.bbox[3] <= height * 1_000_000 {
        lemma_shifted_on_canvas(a.bbox[1] as int, a.bbox[3] as int, height as int, if down {
            sy
        } else {
            -sy
        });
    }
    assert(-0x8000_0000_0000_0000 * 0x8000_0000_0000_0000 <= a.bbox[2] * a.bbox[3]
        <= 0x8000_0000_0000_0000 * 0x8000_0000_0000_0000) by (nonlinear_arith)
        requires
            -0x8000_0000_0000_0000 <= a.bbox[2] <= 0x8000_0000_0000_0000,
            -0x8000_0000_0000_0000 <= a.bbox[3] <= 0x8000_0000_0000_0000,
    ;
}

/// All partial: with the partial ratio at one and every other ratio at
/// zero, every original annotation has exactly one match, a partial match,
/// at its own position in the pair set.
pub proof fn lemma_all_partial(
    original: COCOData,
    pair: COCOData,
    max_pair_matches: u32,
    change_category_names: bool,
)
    requires
        pair_of(original, pair, max_pair_matches, (0, 1_000_000, 0, 0), change_category_names),
    ensures
        pair@.annotations.len() == original@.annotations.len(),
        forall|k: int|
            0 <= k < original@.annotations.len() ==> is_partial_of(
                original@.annotations[k],
                #[trigger] pair@.annotations[k],
                (k + 1) as i64,
                reference_size(original).0,
                reference_size(original).1,
            ),
{
    let d: Distribution = (0, 1_000_000, 0, 0);
    let originals = original@.annotations;
    let pairs = pair@.annotations;
    let total = originals.len();
    let (w, h) = reference_size(original);
    lemma_bucket_extremes(total);
    let starts = choose|starts: Seq<int>| #[trigger]
        arranged(originals, pairs, starts, max_pair_matches, d, w, h);
    assert forall|i: int| 0 <= i < total implies #[trigger] starts[i + 1] - starts[i] == 1 by {
        assert(group_ok(
            originals,
            pairs,
            i,
            starts[i],
            starts[i + 1] - starts[i],
            max_pair_matches,
            d,
            w,
            h,
        ));
        assert(band_of(i, total, d) == Band::Partial);
    }
    assert forall|k: int| 0 <= k < total implies is_partial_of(
        originals[k],
        #[trigger] pairs[k],
        (k + 1) as i64,
        w,
        h,
    ) by {
        lemma_starts(starts, k, 1);
        assert(group_ok(
            originals,
            pairs,
            k,
            starts[k],
            starts[k + 1] - starts[k],
            max_pair_matches,
            d,
            w,
            h,
        ));
        assert(band_of(k, total, d) == Band::Partial);
    }
    lemma_starts(starts, total as int, 1);
}

/// The number of original annotations before position `idx` that are left
/// out: those of the miss band.
pub open spec fn missed_before(idx: int, total: nat, distribution: Distribution) -> int {
    let first = bucket(distribution.0, total) + bucket(distribution.1, total);
    let missed = bucket(distribution.2, total);
    if idx <= first {
        0
    } else if idx <= first + missed {
        idx - first
    } else {
        missed as int
    }
}

/// With one match at most and no additional detections, the group of
/// original `idx` begins as many places before `idx` as originals before it
/// are left out.
proof fn lemma_single_starts(
    originals: Seq<AnnotationView>,
    pairs: Seq<AnnotationView>,
    starts: Seq<int>,
    max_pair_matches: u32,
    distribution: Distribution,
    width: i32,
    height: i32,
    idx: int,
)
    requires
        arranged(originals, pairs, starts, max_pair_matches, distribution, width, height),
        max_pair_matches <= 1,
        0 <= idx <= originals.len(),
    ensures
        starts[idx] == idx - missed_before(idx, originals.len(), distribution),
    decreases idx,
{
    if idx > 0 {
        lemma_single_starts(
            originals,
            pairs,
            starts,
            max_pair_matches,
            distribution,
            width,
            height,
            idx - 1,
        );
        assert(group_ok(
            originals,
            pairs,
            idx - 1,
            starts[idx - 1],
            starts[(idx - 1) + 1] - starts[idx - 1],
            max_pair_matches,
            distribution,
            width,
            height,
        ));
    }
}

/// One match at most: when no more than one match is allowed and no
/// additional detections are asked for, the pair set holds one annotation
/// for every original outside the miss band, in the order of the originals
/// and with ids counting up from one. The match of an original of the
/// perfect or the multiple band is the original but for its id; that of an
/// original of the partial band is a partial match.
pub proof fn lemma_single_matches(
    original: COCOData,
    pair: COCOData,
    max_pair_matches: u32,
    distribution: Distribution,
    change_category_names: bool,
)
    requires
        pair_of(original, pair, max_pair_matches, distribution, change_category_names),
        max_pair_matches <= 1,
        distribution.3 == 0,
    ensures
        pair@.annotations.len() == original@.annotations.len() - missed_before(
            original@.annotations.len() as int,
            original@.annotations.len(),
            distribution,
        ),
        forall|i: int|
            0 <= i < original@.annotations.len() ==> {
                let at = i - missed_before(i, original@.annotations.len(), distribution);
                match #[trigger] band_of(i, original@.annotations.len(), distribution) {
                    Band::NoMatch => true,
                    Band::Partial => 0 <= at < pair@.annotations.len() && is_partial_of(
                        original@.annotations[i],
                        pair@.annotations[at],
                        (at + 1) as i64,
                        reference_size(original).0,
                        reference_size(original).1,
                    ),
                    _ => 0 <= at < pair@.annotations.len() && pair@.annotations[at] == renumbered(
                        original@.annotations[i],
                        (at + 1) as i64,
                    ),
                }
            },
{
    let originals = original@.annotations;
    let pairs = pair@.annotations;
    let total = originals.len();
    let (w, h) = reference_size(original);
    lemma_bucket_extremes(total);
    let starts = choose|starts: Seq<int>| #[trigger]
        arranged(originals, pairs, starts, max_pair_matches, distribution, w, h);
    lemma_single_starts(originals, pairs, starts, max_pair_matches, distribution, w, h, total as int);
    assert forall|i: int| 0 <= i < total implies {
        let at = i - missed_before(i, total, distribution);
        match #[trigger] band_of(i, total, distribution) {
            Band::NoMatch => true,
            Band::Partial => 0 <= at < pairs.len() && is_partial_of(
                originals[i],
                pairs[at],
                (at + 1) as i64,
                w,
                h,
            ),
            _ => 0 <= at < pairs.len() && pairs[at] == renumbered(originals[i], (at + 1) as i64),
        }
    } by {
        lemma_single_starts(originals, pairs, starts, max_pair_matches, distribution, w, h, i);
        assert(group_ok(
            originals,
            pairs,
            i,
            starts[i],
            starts[i + 1] - starts[i],
            max_pair_matches,
            distribution,
            w,
            h,
        ));
    }
}

} // verus!
