//! The placement engine: rejection sampling of shapes onto one canvas under
//! a bounded retry budget.

use crate::canvas::{Canvas, CanvasView};
use crate::catalog::model;
use crate::generators::{
    drawn, drawn_as, generate_arrow_shape, generate_cross_shape, generate_diamond_shape,
    generate_hexagon_shape, generate_house_shape, generate_octagon_shape,
    generate_pentagon_shape, generate_rectangle_shape, generate_star_shape,
    generate_triangle_shape, roomy, sampled, shape_draw, Pick,
};
use crate::geometry::{boxes_overlap, inside_canvas, overlap, BBox};
use crate::rasterizer::{draw_shape, painted, policy_color, shape_color, ColorPolicy};
use crate::sampler::{range_draw, range_end, Sampler};
use crate::shape::{Shape, ShapeKind, KIND_COUNT};
use vstd::prelude::*;

verus! {

/// Attempts granted per requested shape.
pub const ATTEMPTS_PER_SHAPE: u64 = 100;

/// `bbox` overlaps the bounding box of at least one of `shapes`.
pub open spec fn overlaps_some(bbox: BBox, shapes: Seq<Shape>) -> bool {
    exists|i: int| 0 <= i < shapes.len() && overlap(bbox, #[trigger] shapes[i].bbox)
}

/// No two of `shapes` have overlapping bounding boxes.
pub open spec fn pairwise_disjoint(shapes: Seq<Shape>) -> bool {
    forall|i: int, j: int|
        0 <= i < shapes.len() && 0 <= j < shapes.len() && i != j ==> !overlap(
            (#[trigger] shapes[i]).bbox,
            (#[trigger] shapes[j]).bbox,
        )
}

/// The canvas after `shapes` have been painted in order, each in the colour
/// the policy gives its category.
pub open spec fn painted_all(
    canvas: CanvasView,
    shapes: Seq<Shape>,
    policy: ColorPolicy,
    num_classes: u32,
) -> CanvasView
    decreases shapes.len(),
{
    if shapes.len() == 0 {
        canvas
    } else {
        painted(
            painted_all(canvas, shapes.drop_last(), policy, num_classes),
            shapes.last()@,
            policy_color(policy, shapes.last().category_id as int, num_classes as int),
        )
    }
}

/// Every kind among the first `num_classes` of the catalogue has a position
/// on the canvas at its largest size.
pub open spec fn all_placeable(num_classes: u32, width: u32, height: u32, max_size: u32) -> bool {
    forall|k: ShapeKind| #[trigger] k.ordinal() <= num_classes ==> roomy(k, width, height, max_size)
}

/// `s` is a shape the engine may accept on a `width` by `height` canvas: a
/// catalogue shape of one of the first `num_classes` kinds, annotated under
/// the category of its kind, well formed and on the canvas.
pub open spec fn acceptable(
    s: Shape,
    num_classes: u32,
    width: u32,
    height: u32,
    max_size: u32,
) -> bool {
    &&& 1 <= s.category_id <= num_classes
    &&& ShapeKind::at(s.category_id as int) matches Some(kind) && drawn(
        s,
        kind,
        width,
        height,
        s.category_id,
        max_size,
    )
    &&& s.well_formed()
    &&& inside_canvas(s.bbox, width as int, height as int)
}

/// Whether `bbox` overlaps the bounding box of any of `shapes`.
pub fn overlaps_any(bbox: &BBox, shapes: &[Shape]) -> (r: bool)
    ensures
        r == overlaps_some(*bbox, shapes@),
{
    let mut i: usize = 0;
    while i < shapes.len()
        invariant
            i <= shapes.len(),
            forall|j: int| 0 <= j < i ==> !overlap(*bbox, #[trigger] shapes@[j].bbox),
        decreases shapes.len() - i,
    {
        if boxes_overlap(bbox, &shapes[i].bbox) {
            return true;
        }
        i += 1;
    }
    false
}

/// Draws a candidate shape of the kind annotated under `category_id`;
/// nothing for a category outside the catalogue.
pub fn generate_candidate(
    rng: &mut Sampler,
    width: u32,
    height: u32,
    category_id: i32,
    max_size: u32,
) -> (r: Option<Shape>)
    ensures
        drawn_as(
            r,
            category_id,
            candidate_draw(
                category_id,
                old(rng).seed,
                old(rng).position,
                width,
                height,
                max_size,
            ).0,
        ),
        final(rng).seed == old(rng).seed,
        final(rng).position == candidate_draw(
            category_id,
            old(rng).seed,
            old(rng).position,
            width,
            height,
            max_size,
        ).1,
        match ShapeKind::at(category_id as int) {
            Some(kind) => sampled(r, kind, width, height, category_id, max_size),
            None => r.is_none(),
        },
        r matches Some(s) ==> s.well_formed() && inside_canvas(s.bbox, width as int, height as int),
{
    match ShapeKind::from_category(category_id) {
        Some(ShapeKind::Rectangle) => generate_rectangle_shape(
            rng,
            width,
            height,
            category_id,
            max_size,
        ),
        Some(ShapeKind::Triangle) => generate_triangle_shape(
            rng,
            width,
            height,
            category_id,
            max_size,
        ),
        Some(ShapeKind::Pentagon) => generate_pentagon_shape(
            rng,
            width,
            height,
            category_id,
            max_size,
        ),
        Some(ShapeKind::Hexagon) => generate_hexagon_shape(
            rng,
            width,
            height,
            category_id,
            max_size,
        ),
        Some(ShapeKind::Octagon) => generate_octagon_shape(
            rng,
            width,
            height,
            category_id,
            max_size,
        ),
        Some(ShapeKind::Diamond) => generate_diamond_shape(
            rng,
            width,
            height,
            category_id,
            max_size,
        ),
        Some(ShapeKind::Star) => generate_star_shape(rng, width, height, category_id, max_size),
        Some(ShapeKind::Cross) => generate_cross_shape(rng, width, height, category_id, max_size),
        Some(ShapeKind::Arrow) => generate_arrow_shape(rng, width, height, category_id, max_size),
        Some(ShapeKind::House) => generate_house_shape(rng, width, height, category_id, max_size),
        None => None,
    }
}

/// What is drawn for a candidate of the kind annotated under
/// `category_id` by the sampler of `seed` at `position`, and where the
/// sampler stands afterwards. For a category outside the catalogue nothing
/// is drawn.
pub open spec fn candidate_draw(
    category_id: i32,
    seed: u64,
    position: u128,
    width: u32,
    height: u32,
    max_size: u32,
) -> (Option<Pick>, u128) {
    match ShapeKind::at(category_id as int) {
        Some(kind) => shape_draw(kind, seed, position, width, height, max_size),
        None => (None, position),
    }
}

/// The bounding box of the shape of a pick.
pub open spec fn pick_box(pick: Pick) -> BBox {
    let m = model(pick.kind, pick.a, pick.b, pick.px, pick.py);
    BBox { x: m.x as i64, y: m.y as i64, width: m.width as i64, height: m.height as i64 }
}

/// The box of `pick` overlaps the box of at least one of `placed`.
pub open spec fn overlaps_placed(pick: Pick, placed: Seq<Pick>) -> bool {
    exists|i: int| 0 <= i < placed.len() && overlap(pick_box(pick), pick_box(#[trigger] placed[i]))
}

/// The picks accepted so far, and where the sampler stands.
pub struct Placing {
    pub picks: Seq<Pick>,
    pub position: u128,
}

/// One attempt of the engine from the state `state`.
///
/// A category is drawn among the first `num_classes`; one beyond the
/// catalogue spends the attempt. Otherwise a candidate of its kind is
/// drawn. The candidate is accepted if there is one and overlap is allowed
/// or its box overlaps none of the accepted ones; it is dropped for no
/// other reason. Without a class nothing is drawn.
pub open spec fn attempt(
    seed: u64,
    state: Placing,
    num_classes: u32,
    width: u32,
    height: u32,
    max_size: u32,
    allow_overlap: bool,
) -> Placing {
    if num_classes == 0 {
        state
    } else {
        let choice = range_draw(seed, state.position, 1, (num_classes + 1) as i64);
        let chosen = range_end(seed, state.position, 1, (num_classes + 1) as i64);
        if choice > KIND_COUNT {
            Placing { picks: state.picks, position: chosen }
        } else {
            let draw = candidate_draw(choice as i32, seed, chosen, width, height, max_size);
            Placing {
                picks: if draw.0.is_some() && (allow_overlap || !overlaps_placed(
                    draw.0.unwrap(),
                    state.picks,
                )) {
                    state.picks.push(draw.0.unwrap())
                } else {
                    state.picks
                },
                position: draw.1,
            }
        }
    }
}

/// The state of the engine after `attempts` turns, starting with the
/// sampler of `seed` at `position`: in each turn an attempt is made, unless
/// `requested` picks are accepted already.
pub open spec fn placing_after(
    seed: u64,
    position: u128,
    num_classes: u32,
    requested: u32,
    width: u32,
    height: u32,
    max_size: u32,
    allow_overlap: bool,
    attempts: nat,
) -> Placing
    decreases attempts,
{
    if attempts == 0 {
        Placing { picks: Seq::empty(), position }
    } else {
        let before = placing_after(
            seed,
            position,
            num_classes,
            requested,
            width,
            height,
            max_size,
            allow_overlap,
            (attempts - 1) as nat,
        );
        if before.picks.len() >= requested {
            before
        } else {
            attempt(seed, before, num_classes, width, height, max_size, allow_overlap)
        }
    }
}

/// What the engine places: its state when the whole budget of a hundred
/// attempts for each requested shape has been offered.
pub open spec fn placement(
    seed: u64,
    position: u128,
    num_classes: u32,
    requested: u32,
    width: u32,
    height: u32,
    max_size: u32,
    allow_overlap: bool,
) -> Placing {
    placing_after(
        seed,
        position,
        num_classes,
        requested,
        width,
        height,
        max_size,
        allow_overlap,
        (ATTEMPTS_PER_SHAPE * requested) as nat,
    )
}

/// `shapes` are the shapes of `picks`, in order, each annotated under the
/// category of its kind.
pub open spec fn placed_as(shapes: Seq<Shape>, picks: Seq<Pick>) -> bool {
    &&& shapes.len() == picks.len()
    &&& forall|i: int|
        0 <= i < picks.len() ==> (#[trigger] shapes[i]).realises(
            picks[i].kind.ordinal() as i32,
            model(picks[i].kind, picks[i].a, picks[i].b, picks[i].px, picks[i].py),
        )
}

/// Once the requested picks are accepted, further turns change nothing.
pub proof fn lemma_full_stays(
    seed: u64,
    position: u128,
    num_classes: u32,
    requested: u32,
    width: u32,
    height: u32,
    max_size: u32,
    allow_overlap: bool,
    full: nat,
    later: nat,
)
    requires
        full <= later,
        placing_after(
            seed,
            position,
            num_classes,
            requested,
            width,
            height,
            max_size,
            allow_overlap,
            full,
        ).picks.len() >= requested,
    ensures
        placing_after(
            seed,
            position,
            num_classes,
            requested,
            width,
            height,
            max_size,
            allow_overlap,
            later,
        ) == placing_after(
            seed,
            position,
            num_classes,
            requested,
            width,
            height,
            max_size,
            allow_overlap,
            full,
        ),
    decreases later,
{
    if later > full {
        lemma_full_stays(
            seed,
            position,
            num_classes,
            requested,
            width,
            height,
            max_size,
            allow_overlap,
            full,
            (later - 1) as nat,
        );
    }
}

/// A candidate overlaps an accepted shape exactly if its pick overlaps an
/// accepted pick.
proof fn lemma_overlap_agrees(shape: Shape, pick: Pick, shapes: Seq<Shape>, picks: Seq<Pick>)
    requires
        shape.realises(
            pick.kind.ordinal() as i32,
            model(pick.kind, pick.a, pick.b, pick.px, pick.py),
        ),
        placed_as(shapes, picks),
    ensures
        overlaps_some(shape.bbox, shapes) == overlaps_placed(pick, picks),
        shape.bbox == pick_box(pick),
{
    assert forall|i: int| 0 <= i < picks.len() implies (#[trigger] shapes[i]).bbox == pick_box(
        picks[i],
    ) by {
        assert(shapes[i].realises(
            picks[i].kind.ordinal() as i32,
            model(picks[i].kind, picks[i].a, picks[i].b, picks[i].px, picks[i].py),
        ));
    }
    if overlaps_some(shape.bbox, shapes) {
        let i = choose|i: int| 0 <= i < shapes.len() && overlap(shape.bbox, #[trigger] shapes[i].bbox);
        assert(overlap(pick_box(pick), pick_box(picks[i])));
    }
    if overlaps_placed(pick, picks) {
        let i = choose|i: int|
            0 <= i < picks.len() && overlap(pick_box(pick), pick_box(#[trigger] picks[i]));
        assert(overlap(shape.bbox, shapes[i].bbox));
    }
}

/// The outcome of placing shapes on one canvas.
pub struct Placement {
    /// The accepted shapes, in order of acceptance.
    pub shapes: Vec<Shape>,
    /// The number of candidates that were drawn.
    pub attempts: u64,
}

/// Places up to `requested` shapes on `canvas`.
///
/// Each attempt draws a category among the first `num_classes`, then a
/// candidate of that kind. With overlap disallowed a candidate whose
/// bounding box overlaps that of an accepted shape is dropped. An accepted
/// candidate is painted and appended. The engine stops when `requested`
/// shapes are accepted or `100 * requested` candidates were tried, so it
/// may deliver fewer shapes than requested.
pub fn place_shapes(
    rng: &mut Sampler,
    canvas: &mut Canvas,
    num_classes: u32,
    requested: u32,
    max_size: u32,
    allow_overlap: bool,
    policy: ColorPolicy,
) -> (p: Placement)
    requires
        old(canvas)@.wf(),
    ensures
        final(canvas)@.wf(),
        final(canvas)@.width == old(canvas)@.width,
        final(canvas)@.height == old(canvas)@.height,
        final(canvas)@ == painted_all(old(canvas)@, p.shapes@, policy, num_classes),
        p.shapes@.len() <= requested,
        p.shapes@.len() <= p.attempts <= ATTEMPTS_PER_SHAPE * requested,
        p.shapes@.len() == requested || p.attempts == ATTEMPTS_PER_SHAPE * requested,
        num_classes == 0 ==> p.shapes@.len() == 0,
        forall|i: int|
            0 <= i < p.shapes@.len() ==> acceptable(
                #[trigger] p.shapes@[i],
                num_classes,
                old(canvas)@.width,
                old(canvas)@.height,
                max_size,
            ),
        !allow_overlap ==> pairwise_disjoint(p.shapes@),
        allow_overlap && 1 <= num_classes <= 10 && all_placeable(
            num_classes,
            old(canvas)@.width,
            old(canvas)@.height,
            max_size,
        ) ==> p.shapes@.len() == requested,
        requested >= 1 && 1 <= num_classes <= 10 && all_placeable(
            num_classes,
            old(canvas)@.width,
            old(canvas)@.height,
            max_size,
        ) ==> p.shapes@.len() >= 1,
        placed_as(
            p.shapes@,
            placement(
                old(rng).seed,
                old(rng).position,
                num_classes,
                requested,
                old(canvas)@.width,
                old(canvas)@.height,
                max_size,
                allow_overlap,
            ).picks,
        ),
        final(rng).seed == old(rng).seed,
        final(rng).position == placement(
            old(rng).seed,
            old(rng).position,
            num_classes,
            requested,
            old(canvas)@.width,
            old(canvas)@.height,
            max_size,
            allow_overlap,
        ).position,
        placing_after(
            old(rng).seed,
            old(rng).position,
            num_classes,
            requested,
            old(canvas)@.width,
            old(canvas)@.height,
            max_size,
            allow_overlap,
            p.attempts as nat,
        ) == placement(
            old(rng).seed,
            old(rng).position,
            num_classes,
            requested,
            old(canvas)@.width,
            old(canvas)@.height,
            max_size,
            allow_overlap,
        ),
        forall|n: nat|
            n < p.attempts ==> (#[trigger] placing_after(
                old(rng).seed,
                old(rng).position,
                num_classes,
                requested,
                old(canvas)@.width,
                old(canvas)@.height,
                max_size,
                allow_overlap,
                n,
            )).picks.len() < requested,
{
    let ghost seed = rng.seed;
    let ghost start = rng.position;
    let width: u32 = canvas.width();
    let height: u32 = canvas.height();
    let budget: u64 = ATTEMPTS_PER_SHAPE * requested as u64;
    let mut shapes: Vec<Shape> = Vec::new();
    let mut attempts: u64 = 0;
    let ghost always = allow_overlap && 1 <= num_classes <= 10 && all_placeable(
        num_classes,
        width,
        height,
        max_size,
    );
    let ghost room = 1 <= num_classes <= 10 && all_placeable(num_classes, width, height, max_size);
    let ghost mut state = Placing { picks: Seq::empty(), position: start };
    while shapes.len() < requested as usize && attempts < budget
        invariant
            rng.seed == seed,
            rng.position == state.position,
            state == placing_after(
                seed,
                start,
                num_classes,
                requested,
                width,
                height,
                max_size,
                allow_overlap,
                attempts as nat,
            ),
            placed_as(shapes@, state.picks),
            forall|n: nat|
                n < attempts ==> (#[trigger] placing_after(
                    seed,
                    start,
                    num_classes,
                    requested,
                    width,
                    height,
                    max_size,
                    allow_overlap,
                    n,
                )).picks.len() < requested,
            room == (1 <= num_classes <= 10 && all_placeable(num_classes, width, height, max_size)),
            room && attempts >= 1 ==> shapes@.len() >= 1,
            canvas@.wf(),
            canvas@.width == width,
            canvas@.height == height,
            width == old(canvas)@.width,
            height == old(canvas)@.height,
            budget == ATTEMPTS_PER_SHAPE * requested,
            canvas@ == painted_all(old(canvas)@, shapes@, policy, num_classes),
            shapes@.len() <= requested,
            shapes@.len() <= attempts <= budget,
            num_classes == 0 ==> shapes@.len() == 0,
            forall|i: int|
                0 <= i < shapes@.len() ==> acceptable(
                    #[trigger] shapes@[i],
                    num_classes,
                    width,
                    height,
                    max_size,
                ),
            !allow_overlap ==> pairwise_disjoint(shapes@),
            always == (allow_overlap && 1 <= num_classes <= 10 && all_placeable(
                num_classes,
                width,
                height,
                max_size,
            )),
            always ==> shapes@.len() == attempts,
        decreases budget - attempts,
    {
        let ghost next = attempt(seed, state, num_classes, width, height, max_size, allow_overlap);
        attempts += 1;
        if num_classes != 0 {
            let choice: u32 = rng.between(1, num_classes);
            if choice <= KIND_COUNT {
                let category_id: i32 = choice as i32;
                let candidate = generate_candidate(rng, width, height, category_id, max_size);
                proof {
                    if room {
                        let kind = ShapeKind::at(category_id as int).unwrap();
                        assert(kind.ordinal() <= num_classes);
                        assert(roomy(kind, width, height, max_size));
                    }
                }
                match candidate {
                    None => {},
                    Some(shape) => {
                        proof {
                            let pick = candidate_draw(
                                category_id,
                                seed,
                                range_end(seed, state.position, 1, (num_classes + 1) as i64),
                                width,
                                height,
                                max_size,
                            ).0.unwrap();
                            assert(pick.kind.ordinal() == category_id);
                            lemma_overlap_agrees(shape, pick, shapes@, state.picks);
                        }
                        if allow_overlap || !overlaps_any(&shape.bbox, shapes.as_slice()) {
                            let ghost before = shapes@;
                            let color = shape_color(policy, shape.category_id, num_classes);
                            draw_shape(canvas, &shape, color);
                            shapes.push(shape);
                            proof {
                                assert(shapes@.drop_last() =~= before);
                                assert(shapes@.last() == shape);
                            }
                        }
                    },
                }
            }
        }
        proof {
            state = next;
        }
    }
    proof {
        if shapes@.len() >= requested {
            lemma_full_stays(
                seed,
                start,
                num_classes,
                requested,
                width,
                height,
                max_size,
                allow_overlap,
                attempts as nat,
                budget as nat,
            );
        }
    }
    Placement { shapes, attempts }
}

} // verus!
