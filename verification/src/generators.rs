//! The ten shape generators: each draws a size and a position for its kind
//! and builds the catalogue shape there.

use crate::catalog::{build_shape, lemma_model_enclosed, model};
use crate::geometry::inside_canvas;
use crate::sampler::{range_draw, range_end, Sampler};
use crate::shape::{lemma_realised_properties, Shape, ShapeKind};
use vstd::prelude::*;

verus! {

/// Whether the vertices of a kind are placed by radius around a centre.
pub open spec fn is_radial(kind: ShapeKind) -> bool {
    kind == ShapeKind::Pentagon || kind == ShapeKind::Hexagon || kind == ShapeKind::Octagon || kind
        == ShapeKind::Star
}

/// Smallest size (or radius) a generator draws under a size budget.
pub open spec fn size_low(kind: ShapeKind, max_size: int) -> int {
    if is_radial(kind) {
        if max_size / 2 < 30 {
            max_size / 2
        } else {
            30
        }
    } else if max_size < 40 {
        max_size
    } else {
        40
    }
}

/// Largest size a kind is ever drawn with, whatever the budget.
pub open spec fn size_cap(kind: ShapeKind) -> int {
    match kind {
        ShapeKind::Rectangle | ShapeKind::Arrow | ShapeKind::House => 100,
        ShapeKind::Triangle | ShapeKind::Diamond | ShapeKind::Cross => 80,
        _ => 60,
    }
}

/// Largest size (or radius) a generator draws under a size budget.
pub open spec fn size_high(kind: ShapeKind, max_size: int) -> int {
    let budget = if is_radial(kind) {
        max_size / 2
    } else {
        max_size
    };
    if budget < size_cap(kind) {
        budget
    } else {
        size_cap(kind)
    }
}

/// Smallest horizontal position of a shape with sizes `a`, `b`: zero for a
/// rectangle, which is positioned by its corner, and otherwise the distance
/// its centre keeps from the canvas edge.
pub open spec fn low_x(kind: ShapeKind, a: int, b: int) -> int {
    match kind {
        ShapeKind::Rectangle => 0,
        ShapeKind::House => (a + 1) / 2,
        _ => a,
    }
}

/// Room the shape needs between its horizontal position and the right edge.
pub open spec fn reserve_x(kind: ShapeKind, a: int, b: int) -> int {
    match kind {
        ShapeKind::House => (a + 1) / 2,
        _ => a,
    }
}

/// Smallest vertical position of a shape with sizes `a`, `b`.
pub open spec fn low_y(kind: ShapeKind, a: int, b: int) -> int {
    match kind {
        ShapeKind::Rectangle => 0,
        ShapeKind::Arrow => (a + 4) / 5,
        ShapeKind::House => (a + 1) / 2,
        _ => a,
    }
}

/// Room the shape needs between its vertical position and the bottom edge.
pub open spec fn reserve_y(kind: ShapeKind, a: int, b: int) -> int {
    match kind {
        ShapeKind::Rectangle => b,
        ShapeKind::Arrow => (a + 4) / 5,
        ShapeKind::House => (a + 1) / 2,
        _ => a,
    }
}

/// A shape with sizes `a`, `b` has at least one position on the canvas.
pub open spec fn placeable(kind: ShapeKind, width: int, height: int, a: int, b: int) -> bool {
    &&& low_x(kind, a, b) + reserve_x(kind, a, b) < width
    &&& low_y(kind, a, b) + reserve_y(kind, a, b) < height
}

/// The parameters are ones the generator of `kind` can draw on a canvas of
/// `width` by `height` pixels under the size budget `max_size`.
pub open spec fn admissible(
    kind: ShapeKind,
    width: int,
    height: int,
    max_size: int,
    a: int,
    b: int,
    px: int,
    py: int,
) -> bool {
    &&& size_low(kind, max_size) <= a <= size_high(kind, max_size)
    &&& if kind == ShapeKind::Rectangle {
        size_low(kind, max_size) <= b <= size_high(kind, max_size)
    } else {
        b == a
    }
    &&& low_x(kind, a, b) <= px < width - reserve_x(kind, a, b)
    &&& low_y(kind, a, b) <= py < height - reserve_y(kind, a, b)
}

/// The canvas has a position for a shape of `kind` at the largest size the
/// generator draws under the budget `max_size`, and so at every size it
/// draws.
pub open spec fn roomy(kind: ShapeKind, width: u32, height: u32, max_size: u32) -> bool {
    let top = size_high(kind, max_size as int);
    placeable(kind, width as int, height as int, top, top)
}

/// The parameters of a catalogue shape: its kind, its two sizes and its
/// position.
pub struct Pick {
    pub kind: ShapeKind,
    pub a: int,
    pub b: int,
    pub px: int,
    pub py: int,
}

/// What the generator of `kind` draws with the sampler of `seed` at
/// `position`, and where the sampler stands afterwards.
///
/// The size is drawn from the range of the kind; a rectangle draws a second
/// size, its height, from the same range. If sizes leave no position on
/// the canvas, nothing more is drawn and there is no shape. Otherwise the
/// horizontal and then the vertical position are drawn from the positions
/// that keep the shape on the canvas.
pub open spec fn shape_draw(
    kind: ShapeKind,
    seed: u64,
    position: u128,
    width: u32,
    height: u32,
    max_size: u32,
) -> (Option<Pick>, u128) {
    let low = size_low(kind, max_size as int) as i64;
    let high = (size_high(kind, max_size as int) + 1) as i64;
    let a = range_draw(seed, position, low, high) as int;
    let after_a = range_end(seed, position, low, high);
    let b = if kind == ShapeKind::Rectangle {
        range_draw(seed, after_a, low, high) as int
    } else {
        a
    };
    let sized = if kind == ShapeKind::Rectangle {
        range_end(seed, after_a, low, high)
    } else {
        after_a
    };
    if !placeable(kind, width as int, height as int, a, b) {
        (None, sized)
    } else {
        let low_px = low_x(kind, a, b) as i64;
        let high_px = (width - reserve_x(kind, a, b)) as i64;
        let low_py = low_y(kind, a, b) as i64;
        let high_py = (height - reserve_y(kind, a, b)) as i64;
        let after_x = range_end(seed, sized, low_px, high_px);
        (
            Some(
                Pick {
                    kind,
                    a,
                    b,
                    px: range_draw(seed, sized, low_px, high_px) as int,
                    py: range_draw(seed, after_x, low_py, high_py) as int,
                },
            ),
            range_end(seed, after_x, low_py, high_py),
        )
    }
}

/// `r` is the shape of the parameters drawn, under `category_id`; nothing
/// if nothing was drawn.
pub open spec fn drawn_as(r: Option<Shape>, category_id: i32, draw: Option<Pick>) -> bool {
    match draw {
        Some(pick) => r.is_some() && r.unwrap().realises(
            category_id,
            model(pick.kind, pick.a, pick.b, pick.px, pick.py),
        ),
        None => r.is_none(),
    }
}

/// `s` is a catalogue shape of `kind` with parameters its generator can
/// draw on a canvas of `width` by `height` pixels under the budget
/// `max_size`.
pub open spec fn drawn(
    s: Shape,
    kind: ShapeKind,
    width: u32,
    height: u32,
    category_id: i32,
    max_size: u32,
) -> bool {
    exists|a: int, b: int, px: int, py: int|
        admissible(kind, width as int, height as int, max_size as int, a, b, px, py)
            && #[trigger] s.realises(category_id, model(kind, a, b, px, py))
}

/// What a generator of `kind` may return: a catalogue shape with admissible
/// parameters, or nothing, and nothing only if the largest size of the
/// range has no position on the canvas.
pub open spec fn sampled(
    r: Option<Shape>,
    kind: ShapeKind,
    width: u32,
    height: u32,
    category_id: i32,
    max_size: u32,
) -> bool {
    match r {
        Some(s) => drawn(s, kind, width, height, category_id, max_size),
        None => !roomy(kind, width, height, max_size),
    }
}

/// A shape drawn at an admissible position lies on the canvas.
pub proof fn lemma_model_on_canvas(
    kind: ShapeKind,
    width: int,
    height: int,
    a: int,
    b: int,
    px: int,
    py: int,
)
    requires
        0 <= a,
        0 <= b,
        low_x(kind, a, b) <= px < width - reserve_x(kind, a, b),
        low_y(kind, a, b) <= py < height - reserve_y(kind, a, b),
    ensures
        model(kind, a, b, px, py).on_canvas(width, height),
{
}

fn size_low_of(kind: ShapeKind, max_size: u32) -> (r: u32)
    ensures
        r == size_low(kind, max_size as int),
{
    match kind {
        ShapeKind::Pentagon | ShapeKind::Hexagon | ShapeKind::Octagon | ShapeKind::Star => {
            if max_size / 2 < 30 {
                max_size / 2
            } else {
                30
            }
        },
        _ => {
            if max_size < 40 {
                max_size
            } else {
                40
            }
        },
    }
}

fn size_high_of(kind: ShapeKind, max_size: u32) -> (r: u32)
    ensures
        r == size_high(kind, max_size as int),
        size_low(kind, max_size as int) <= r <= 100,
{
    let (budget, cap): (u32, u32) = match kind {
        ShapeKind::Rectangle | ShapeKind::Arrow | ShapeKind::House => (max_size, 100),
        ShapeKind::Triangle | ShapeKind::Diamond | ShapeKind::Cross => (max_size, 80),
        _ => (max_size / 2, 60),
    };
    if budget < cap {
        budget
    } else {
        cap
    }
}

/// The two margins of a shape on one axis: the smallest position and the
/// room kept towards the far edge.
fn margins_of(kind: ShapeKind, a: u32, b: u32) -> (m: ((u32, u32), (u32, u32)))
    requires
        a <= 100,
        b <= 100,
    ensures
        m.0.0 == low_x(kind, a as int, b as int),
        m.0.1 == reserve_x(kind, a as int, b as int),
        m.1.0 == low_y(kind, a as int, b as int),
        m.1.1 == reserve_y(kind, a as int, b as int),
{
    match kind {
        ShapeKind::Rectangle => ((0, a), (0, b)),
        ShapeKind::Arrow => ((a, a), ((a + 4) / 5, (a + 4) / 5)),
        ShapeKind::House => (((a + 1) / 2, (a + 1) / 2), ((a + 1) / 2, (a + 1) / 2)),
        _ => ((a, a), (a, a)),
    }
}

/// Draws a shape of `kind`: a size within the range of the kind, then a
/// position that keeps the whole shape on the canvas. Returns nothing when
/// the size drawn leaves no such position.
pub fn sample_shape(
    kind: ShapeKind,
    rng: &mut Sampler,
    width: u32,
    height: u32,
    category_id: i32,
    max_size: u32,
) -> (r: Option<Shape>)
    ensures
        drawn_as(
            r,
            category_id,
            shape_draw(
                kind,
                old(rng).seed,
                old(rng).position,
                width,
                height,
                max_size,
            ).0,
        ),
        final(rng).seed == old(rng).seed,
        final(rng).position == shape_draw(
            kind,
            old(rng).seed,
            old(rng).position,
            width,
            height,
            max_size,
        ).1,
        sampled(r, kind, width, height, category_id, max_size),
        r matches Some(s) ==> s.well_formed() && inside_canvas(
            s.bbox,
            width as int,
            height as int,
        ),
{
    let lo: u32 = size_low_of(kind, max_size);
    let hi: u32 = size_high_of(kind, max_size);
    let a: u32 = rng.between(lo, hi);
    let b: u32 = match kind {
        ShapeKind::Rectangle => rng.between(lo, hi),
        _ => a,
    };
    let ((lx, rx), (ly, ry)) = margins_of(kind, a, b);
    if lx + rx >= width || ly + ry >= height {
        return None;
    }
    let px: u32 = rng.below(lx as i64, (width - rx) as i64) as u32;
    let py: u32 = rng.below(ly as i64, (height - ry) as i64) as u32;
    let s = build_shape(kind, category_id, a, b, px, py);
    proof {
        lemma_drawn_shape(s, kind, width, height, category_id, max_size, a, b, px, py);
    }
    Some(s)
}

/// A shape built from admissible parameters is an outcome of the generator,
/// is well formed and lies on the canvas.
proof fn lemma_drawn_shape(
    s: Shape,
    kind: ShapeKind,
    width: u32,
    height: u32,
    category_id: i32,
    max_size: u32,
    a: u32,
    b: u32,
    px: u32,
    py: u32,
)
    requires
        admissible(
            kind,
            width as int,
            height as int,
            max_size as int,
            a as int,
            b as int,
            px as int,
            py as int,
        ),
        s.realises(category_id, model(kind, a as int, b as int, px as int, py as int)),
    ensures
        drawn(s, kind, width, height, category_id, max_size),
        s.well_formed(),
        inside_canvas(s.bbox, width as int, height as int),
{
    let m = model(kind, a as int, b as int, px as int, py as int);
    lemma_model_enclosed(kind, a as int, b as int, px as int, py as int);
    lemma_model_on_canvas(
        kind,
        width as int,
        height as int,
        a as int,
        b as int,
        px as int,
        py as int,
    );
    lemma_realised_properties(s, category_id, m, width as int, height as int);
}

/// Draws a rectangle: width and height each within the size range, then a top-
/// left corner that leaves room for both.
pub fn generate_rectangle_shape(
    rng: &mut Sampler,
    width: u32,
    height: u32,
    category_id: i32,
    max_size: u32,
) -> (r: Option<Shape>)
    ensures
        drawn_as(
            r,
            category_id,
            shape_draw(
                ShapeKind::Rectangle,
                old(rng).seed,
                old(rng).position,
                width,
                height,
                max_size,
            ).0,
        ),
        final(rng).seed == old(rng).seed,
        final(rng).position == shape_draw(
            ShapeKind::Rectangle,
            old(rng).seed,
            old(rng).position,
            width,
            height,
            max_size,
        ).1,
        sampled(r, ShapeKind::Rectangle, width, height, category_id, max_size),
        r matches Some(s) ==> s.well_formed() && inside_canvas(
            s.bbox,
            width as int,
            height as int,
        ),
{
    sample_shape(ShapeKind::Rectangle, rng, width, height, category_id, max_size)
}

/// Draws a triangle: a size within the range, then a centre at least that size from every edge.
pub fn generate_triangle_shape(
    rng: &mut Sampler,
    width: u32,
    height: u32,
    category_id: i32,
    max_size: u32,
) -> (r: Option<Shape>)
    ensures
        drawn_as(
            r,
            category_id,
            shape_draw(
                ShapeKind::Triangle,
                old(rng).seed,
                old(rng).position,
                width,
                height,
                max_size,
            ).0,
        ),
        final(rng).seed == old(rng).seed,
        final(rng).position == shape_draw(
            ShapeKind::Triangle,
            old(rng).seed,
            old(rng).position,
            width,
            height,
            max_size,
        ).1,
        sampled(r, ShapeKind::Triangle, width, height, category_id, max_size),
        r matches Some(s) ==> s.well_formed() && inside_canvas(
            s.bbox,
            width as int,
            height as int,
        ),
{
    sample_shape(ShapeKind::Triangle, rng, width, height, category_id, max_size)
}

/// Draws a pentagon: a radius within the radius range, then a centre at least the
/// radius from every edge.
pub fn generate_pentagon_shape(
    rng: &mut Sampler,
    width: u32,
    height: u32,
    category_id: i32,
    max_size: u32,
) -> (r: Option<Shape>)
    ensures
        drawn_as(
            r,
            category_id,
            shape_draw(
                ShapeKind::Pentagon,
                old(rng).seed,
                old(rng).position,
                width,
                height,
                max_size,
            ).0,
        ),
        final(rng).seed == old(rng).seed,
        final(rng).position == shape_draw(
            ShapeKind::Pentagon,
            old(rng).seed,
            old(rng).position,
            width,
            height,
            max_size,
        ).1,
        sampled(r, ShapeKind::Pentagon, width, height, category_id, max_size),
        r matches Some(s) ==> s.well_formed() && inside_canvas(
            s.bbox,
            width as int,
            height as int,
        ),
{
    sample_shape(ShapeKind::Pentagon, rng, width, height, category_id, max_size)
}

/// Draws a hexagon: a radius within the radius range, then a centre at least the
/// radius from every edge.
pub fn generate_hexagon_shape(
    rng: &mut Sampler,
    width: u32,
    height: u32,
    category_id: i32,
    max_size: u32,
) -> (r: Option<Shape>)
    ensures
        drawn_as(
            r,
            category_id,
            shape_draw(
                ShapeKind::Hexagon,
                old(rng).seed,
                old(rng).position,
                width,
                height,
                max_size,
            ).0,
        ),
        final(rng).seed == old(rng).seed,
        final(rng).position == shape_draw(
            ShapeKind::Hexagon,
            old(rng).seed,
            old(rng).position,
            width,
            height,
            max_size,
        ).1,
        sampled(r, ShapeKind::Hexagon, width, height, category_id, max_size),
        r matches Some(s) ==> s.well_formed() && inside_canvas(
            s.bbox,
            width as int,
            height as int,
        ),
{
    sample_shape(ShapeKind::Hexagon, rng, width, height, category_id, max_size)
}

/// Draws an octagon: a radius within the radius range, then a centre at least the
/// radius from every edge.
pub fn generate_octagon_shape(
    rng: &mut Sampler,
    width: u32,
    height: u32,
    category_id: i32,
    max_size: u32,
) -> (r: Option<Shape>)
    ensures
        drawn_as(
            r,
            category_id,
            shape_draw(
                ShapeKind::Octagon,
                old(rng).seed,
                old(rng).position,
                width,
                height,
                max_size,
            ).0,
        ),
        final(rng).seed == old(rng).seed,
        final(rng).position == shape_draw(
            ShapeKind::Octagon,
            old(rng).seed,
            old(rng).position,
            width,
            height,
            max_size,
        ).1,
        sampled(r, ShapeKind::Octagon, width, height, category_id, max_size),
        r matches Some(s) ==> s.well_formed() && inside_canvas(
            s.bbox,
            width as int,
            height as int,
        ),
{
    sample_shape(ShapeKind::Octagon, rng, width, height, category_id, max_size)
}

/// Draws a diamond: a size within the range, then a centre at least that size from every edge.
pub fn generate_diamond_shape(
    rng: &mut Sampler,
    width: u32,
    height: u32,
    category_id: i32,
    max_size: u32,
) -> (r: Option<Shape>)
    ensures
        drawn_as(
            r,
            category_id,
            shape_draw(
                ShapeKind::Diamond,
                old(rng).seed,
                old(rng).position,
                width,
                height,
                max_size,
            ).0,
        ),
        final(rng).seed == old(rng).seed,
        final(rng).position == shape_draw(
            ShapeKind::Diamond,
            old(rng).seed,
            old(rng).position,
            width,
            height,
            max_size,
        ).1,
        sampled(r, ShapeKind::Diamond, width, height, category_id, max_size),
        r matches Some(s) ==> s.well_formed() && inside_canvas(
            s.bbox,
            width as int,
            height as int,
        ),
{
    sample_shape(ShapeKind::Diamond, rng, width, height, category_id, max_size)
}

/// Draws a ten-vertex star: an outer radius within the radius range, then a
/// centre at least that radius from every edge.
pub fn generate_star_shape(
    rng: &mut Sampler,
    width: u32,
    height: u32,
    category_id: i32,
    max_size: u32,
) -> (r: Option<Shape>)
    ensures
        drawn_as(
            r,
            category_id,
            shape_draw(
                ShapeKind::Star,
                old(rng).seed,
                old(rng).position,
                width,
                height,
                max_size,
            ).0,
        ),
        final(rng).seed == old(rng).seed,
        final(rng).position == shape_draw(
            ShapeKind::Star,
            old(rng).seed,
            old(rng).position,
            width,
            height,
            max_size,
        ).1,
        sampled(r, ShapeKind::Star, width, height, category_id, max_size),
        r matches Some(s) ==> s.well_formed() && inside_canvas(
            s.bbox,
            width as int,
            height as int,
        ),
{
    sample_shape(ShapeKind::Star, rng, width, height, category_id, max_size)
}

/// Draws a cross: a size within the range, then a centre at least that size from every edge.
pub fn generate_cross_shape(
    rng: &mut Sampler,
    width: u32,
    height: u32,
    category_id: i32,
    max_size: u32,
) -> (r: Option<Shape>)
    ensures
        drawn_as(
            r,
            category_id,
            shape_draw(
                ShapeKind::Cross,
                old(rng).seed,
                old(rng).position,
                width,
                height,
                max_size,
            ).0,
        ),
        final(rng).seed == old(rng).seed,
        final(rng).position == shape_draw(
            ShapeKind::Cross,
            old(rng).seed,
            old(rng).position,
            width,
            height,
            max_size,
        ).1,
        sampled(r, ShapeKind::Cross, width, height, category_id, max_size),
        r matches Some(s) ==> s.well_formed() && inside_canvas(
            s.bbox,
            width as int,
            height as int,
        ),
{
    sample_shape(ShapeKind::Cross, rng, width, height, category_id, max_size)
}

/// Draws an arrow: a length within the range, then a centre at least the length
/// from the left and right edges and half the head width from the top and bottom.
pub fn generate_arrow_shape(
    rng: &mut Sampler,
    width: u32,
    height: u32,
    category_id: i32,
    max_size: u32,
) -> (r: Option<Shape>)
    ensures
        drawn_as(
            r,
            category_id,
            shape_draw(
                ShapeKind::Arrow,
                old(rng).seed,
                old(rng).position,
                width,
                height,
                max_size,
            ).0,
        ),
        final(rng).seed == old(rng).seed,
        final(rng).position == shape_draw(
            ShapeKind::Arrow,
            old(rng).seed,
            old(rng).position,
            width,
            height,
            max_size,
        ).1,
        sampled(r, ShapeKind::Arrow, width, height, category_id, max_size),
        r matches Some(s) ==> s.well_formed() && inside_canvas(
            s.bbox,
            width as int,
            height as int,
        ),
{
    sample_shape(ShapeKind::Arrow, rng, width, height, category_id, max_size)
}

/// Draws a house: a size within the range, then a centre at least half the size from every edge.
pub fn generate_house_shape(
    rng: &mut Sampler,
    width: u32,
    height: u32,
    category_id: i32,
    max_size: u32,
) -> (r: Option<Shape>)
    ensures
        drawn_as(
            r,
            category_id,
            shape_draw(
                ShapeKind::House,
                old(rng).seed,
                old(rng).position,
                width,
                height,
                max_size,
            ).0,
        ),
        final(rng).seed == old(rng).seed,
        final(rng).position == shape_draw(
            ShapeKind::House,
            old(rng).seed,
            old(rng).position,
            width,
            height,
            max_size,
        ).1,
        sampled(r, ShapeKind::House, width, height, category_id, max_size),
        r matches Some(s) ==> s.well_formed() && inside_canvas(
            s.bbox,
            width as int,
            height as int,
        ),
{
    sample_shape(ShapeKind::House, rng, width, height, category_id, max_size)
}

} // verus!
