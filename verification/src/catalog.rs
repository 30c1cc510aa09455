//! The shape catalogue: for each kind, the closed-form outline, bounding box
//! and area of a shape of a given size at a given position.
//!
//! Sizes and positions are whole pixels; everything derived from them is in
//! coordinate units, so halves, fifths and tenths of a size are exact.

use crate::geometry::{BBox, UNITS_PER_PIXEL};
use crate::shape::{Shape, ShapeKind, ShapeModel};
use vstd::prelude::*;

verus! {

/// A whole number of pixels in coordinate units.
pub open spec fn units(px: int) -> int {
    px * 1_000_000
}

/// Rectangle of `w` by `h` pixels with its top-left corner at `(x, y)`.
/// Area is width times height.
pub open spec fn rectangle_model(w: int, h: int, x: int, y: int) -> ShapeModel {
    let x0 = units(x);
    let y0 = units(y);
    let x1 = units(x) + units(w);
    let y1 = units(y) + units(h);
    ShapeModel {
        x: x0,
        y: y0,
        width: units(w),
        height: units(h),
        outline: seq![x0, y0, x1, y0, x1, y1, x0, y1],
        area: units(w) * units(h),
    }
}

/// Upward-pointing triangle inscribed in a square of side `size` centred at
/// `(cx, cy)`. Area is half the square.
pub open spec fn triangle_model(size: int, cx: int, cy: int) -> ShapeModel {
    let h = size * 500_000;
    let x = units(cx);
    let y = units(cy);
    ShapeModel {
        x: x - h,
        y: y - h,
        width: units(size),
        height: units(size),
        outline: seq![x, y - h, x - h, y + h, x + h, y + h],
        area: units(size) * units(size) / 2,
    }
}

/// Diamond with diagonals of length `size` centred at `(cx, cy)`. Area is
/// half the enclosing square.
pub open spec fn diamond_model(size: int, cx: int, cy: int) -> ShapeModel {
    let h = size * 500_000;
    let x = units(cx);
    let y = units(cy);
    ShapeModel {
        x: x - h,
        y: y - h,
        width: units(size),
        height: units(size),
        outline: seq![x, y - h, x + h, y, x, y + h, x - h, y],
        area: units(size) * units(size) / 2,
    }
}

/// Cross of two bars of length `size` and thickness `size / 3`, centred at
/// `(cx, cy)`, as a twelve-vertex outline. Area is that of both bars less
/// the square they share.
pub open spec fn cross_model(size: int, cx: int, cy: int) -> ShapeModel {
    let h = size * 500_000;
    let t = units(size) / 6;
    let thickness = units(size) / 3;
    let x = units(cx);
    let y = units(cy);
    ShapeModel {
        x: x - h,
        y: y - h,
        width: units(size),
        height: units(size),
        outline: seq![
            x - t, y - h,
            x + t, y - h,
            x + t, y - t,
            x + h, y - t,
            x + h, y + t,
            x + t, y + t,
            x + t, y + h,
            x - t, y + h,
            x - t, y + t,
            x - h, y + t,
            x - h, y - t,
            x - t, y - t,
        ],
        area: units(size) * thickness * 2 - thickness * thickness,
    }
}

/// Right-pointing arrow of length `length` centred at `(cx, cy)`: the head
/// is four tenths of the length wide and long, the shaft half as wide as the
/// head. Area is seven tenths of the bounding box.
pub open spec fn arrow_model(length: int, cx: int, cy: int) -> ShapeModel {
    let half = length * 500_000;
    let head = length * 400_000;
    let half_width = length * 200_000;
    let quarter_width = length * 100_000;
    let x = units(cx);
    let y = units(cy);
    let neck = x + half - head;
    ShapeModel {
        x: x - half,
        y: y - half_width,
        width: units(length),
        height: head,
        outline: seq![
            x - half, y - quarter_width,
            neck, y - quarter_width,
            neck, y - half_width,
            x + half, y,
            neck, y + half_width,
            neck, y + quarter_width,
            x - half, y + quarter_width,
        ],
        area: units(length) * head * 7 / 10,
    }
}

/// House silhouette of width `size` around `(cx, cy)`: walls reach three
/// tenths of the size below the centre line, the roof peaks four tenths
/// above it. Area is half the square of the size.
pub open spec fn house_model(size: int, cx: int, cy: int) -> ShapeModel {
    let half = size * 500_000;
    let wall = size * 300_000;
    let roof = size * 400_000;
    let x = units(cx);
    let y = units(cy);
    ShapeModel {
        x: x - half,
        y: y - roof,
        width: units(size),
        height: wall + roof,
        outline: seq![
            x - half, y,
            x - half, y + wall,
            x + half, y + wall,
            x + half, y,
            x, y - roof,
        ],
        area: units(size) * units(size) / 2,
    }
}

/// Number of outline vertices of a radial kind (zero for the other kinds).
pub open spec fn spoke_count(kind: ShapeKind) -> int {
    match kind {
        ShapeKind::Pentagon => 5,
        ShapeKind::Hexagon => 6,
        ShapeKind::Octagon => 8,
        ShapeKind::Star => 10,
        _ => 0,
    }
}

/// The offset of vertex `i` of a radial kind from the centre, per pixel of
/// radius, in coordinate units: the cosine and sine of the vertex angle to
/// six decimal places. Pentagon vertices stand at a fifth of a turn apart
/// starting straight up, hexagon vertices at a sixth of a turn starting to
/// the right, octagon vertices at an eighth of a turn starting a sixteenth
/// before the right, star vertices at a tenth of a turn starting straight up
/// and alternating between the full and half radius.
pub open spec fn spoke(kind: ShapeKind, i: int) -> (int, int) {
    match kind {
        ShapeKind::Pentagon => {
            if i == 0 {
                (0, -1_000_000)
            } else if i == 1 {
                (951_057, -309_017)
            } else if i == 2 {
                (587_785, 809_017)
            } else if i == 3 {
                (-587_785, 809_017)
            } else {
                (-951_057, -309_017)
            }
        },
        ShapeKind::Hexagon => {
            if i == 0 {
                (1_000_000, 0)
            } else if i == 1 {
                (500_000, 866_025)
            } else if i == 2 {
                (-500_000, 866_025)
            } else if i == 3 {
                (-1_000_000, 0)
            } else if i == 4 {
                (-500_000, -866_025)
            } else {
                (500_000, -866_025)
            }
        },
        ShapeKind::Octagon => {
            if i == 0 {
                (923_880, -382_683)
            } else if i == 1 {
                (923_880, 382_683)
            } else if i == 2 {
                (382_683, 923_880)
            } else if i == 3 {
                (-382_683, 923_880)
            } else if i == 4 {
                (-923_880, 382_683)
            } else if i == 5 {
                (-923_880, -382_683)
            } else if i == 6 {
                (-382_683, -923_880)
            } else {
                (382_683, -923_880)
            }
        },
        ShapeKind::Star => {
            if i == 0 {
                (0, -1_000_000)
            } else if i == 1 {
                (293_893, -404_508)
            } else if i == 2 {
                (951_057, -309_017)
            } else if i == 3 {
                (475_528, 154_508)
            } else if i == 4 {
                (587_785, 809_017)
            } else if i == 5 {
                (0, 500_000)
            } else if i == 6 {
                (-587_785, 809_017)
            } else if i == 7 {
                (-475_528, 154_508)
            } else if i == 8 {
                (-951_057, -309_017)
            } else {
                (-293_893, -404_508)
            }
        },
        _ => (0, 0),
    }
}

/// The area of a radial kind per square unit of radius, in hundredths:
/// the calibrated regular-polygon constants 1.72, 2.6 and 2.83, and 1 for
/// the star.
pub open spec fn area_factor(kind: ShapeKind) -> int {
    match kind {
        ShapeKind::Pentagon => 172,
        ShapeKind::Hexagon => 260,
        ShapeKind::Octagon => 283,
        ShapeKind::Star => 100,
        _ => 0,
    }
}

/// Radial shape of radius `r` centred at `(cx, cy)`: vertex `i` stands at the
/// centre plus `r` times spoke `i`; the box is the square around the circle
/// of radius `r`.
pub open spec fn radial_model(kind: ShapeKind, r: int, cx: int, cy: int) -> ShapeModel {
    ShapeModel {
        x: units(cx) - units(r),
        y: units(cy) - units(r),
        width: 2 * units(r),
        height: 2 * units(r),
        outline: Seq::new(
            (2 * spoke_count(kind)) as nat,
            |j: int|
                if j % 2 == 0 {
                    units(cx) + r * spoke(kind, j / 2).0
                } else {
                    units(cy) + r * spoke(kind, j / 2).1
                },
        ),
        area: units(r) * units(r) * area_factor(kind) / 100,
    }
}

/// The shape of a kind from its four parameters. For a rectangle they are
/// width, height and the top-left corner; for every other kind the size (or
/// radius), an unused second size, and the centre.
pub open spec fn model(kind: ShapeKind, a: int, b: int, px: int, py: int) -> ShapeModel {
    match kind {
        ShapeKind::Rectangle => rectangle_model(a, b, px, py),
        ShapeKind::Triangle => triangle_model(a, px, py),
        ShapeKind::Diamond => diamond_model(a, px, py),
        ShapeKind::Cross => cross_model(a, px, py),
        ShapeKind::Arrow => arrow_model(a, px, py),
        ShapeKind::House => house_model(a, px, py),
        _ => radial_model(kind, a, px, py),
    }
}

/// Every spoke is at most one pixel long on each axis.
pub proof fn lemma_spoke_bounded(kind: ShapeKind, i: int)
    ensures
        -1_000_000 <= spoke(kind, i).0 <= 1_000_000,
        -1_000_000 <= spoke(kind, i).1 <= 1_000_000,
{
}

/// Every full-radius spoke is a unit vector to within one part per million:
/// the table lies on the unit circle.
pub proof fn lemma_spoke_unit_length(kind: ShapeKind, i: int)
    requires
        0 <= i < spoke_count(kind),
        kind == ShapeKind::Star ==> i % 2 == 0,
    ensures
        ({
            let (c, s) = spoke(kind, i);
            -1_000_000 < c * c + s * s - 1_000_000_000_000 < 1_000_000
        }),
{
    let (c, s) = spoke(kind, i);
    match kind {
        ShapeKind::Pentagon => {
            if i == 0 {
                assert(c == 0 && s == -1_000_000);
                assert(c * c + s * s == 1_000_000_000_000) by (nonlinear_arith)
                    requires
                        c == 0,
                        s == -1_000_000,
                ;
            } else if i == 1 {
                assert(c == 951_057 && s == -309_017);
                assert(c * c + s * s == 1_000_000_923_538) by (nonlinear_arith)
                    requires
                        c == 951_057,
                        s == -309_017,
                ;
            } else if i == 2 {
                assert(c == 587_785 && s == 809_017);
                assert(c * c + s * s == 999_999_712_514) by (nonlinear_arith)
                    requires
                        c == 587_785,
                        s == 809_017,
                ;
            } else if i == 3 {
                assert(c == -587_785 && s == 809_017);
                assert(c * c + s * s == 999_999_712_514) by (nonlinear_arith)
                    requires
                        c == -587_785,
                        s == 809_017,
                ;
            } else if i == 4 {
                assert(c == -951_057 && s == -309_017);
                assert(c * c + s * s == 1_000_000_923_538) by (nonlinear_arith)
                    requires
                        c == -951_057,
                        s == -309_017,
                ;
            }
        },
        ShapeKind::Hexagon => {
            if i == 0 {
                assert(c == 1_000_000 && s == 0);
                assert(c * c + s * s == 1_000_000_000_000) by (nonlinear_arith)
                    requires
                        c == 1_000_000,
                        s == 0,
                ;
            } else if i == 1 {
                assert(c == 500_000 && s == 866_025);
                assert(c * c + s * s == 999_999_300_625) by (nonlinear_arith)
                    requires
                        c == 500_000,
                        s == 866_025,
                ;
            } else if i == 2 {
                assert(c == -500_000 && s == 866_025);
                assert(c * c + s * s == 999_999_300_625) by (nonlinear_arith)
                    requires
                        c == -500_000,
                        s == 866_025,
                ;
            } else if i == 3 {
                assert(c == -1_000_000 && s == 0);
                assert(c * c + s * s == 1_000_000_000_000) by (nonlinear_arith)
                    requires
                        c == -1_000_000,
                        s == 0,
                ;
            } else if i == 4 {
                assert(c == -500_000 && s == -866_025);
                assert(c * c + s * s == 999_999_300_625) by (nonlinear_arith)
                    requires
                        c == -500_000,
                        s == -866_025,
                ;
            } else if i == 5 {
                assert(c == 500_000 && s == -866_025);
                assert(c * c + s * s == 999_999_300_625) by (nonlinear_arith)
                    requires
                        c == 500_000,
                        s == -866_025,
                ;
            }
        },
        ShapeKind::Octagon => {
            if i == 0 {
                assert(c == 923_880 && s == -382_683);
                assert(c * c + s * s == 1_000_000_532_889) by (nonlinear_arith)
                    requires
                        c == 923_880,
                        s == -382_683,
                ;
            } else if i == 1 {
                assert(c == 923_880 && s == 382_683);
                assert(c * c + s * s == 1_000_000_532_889) by (nonlinear_arith)
                    requires
                        c == 923_880,
                        s == 382_683,
                ;
            } else if i == 2 {
                assert(c == 382_683 && s == 923_880);
                assert(c * c + s * s == 1_000_000_532_889) by (nonlinear_arith)
                    requires
                        c == 382_683,
                        s == 923_880,
                ;
            } else if i == 3 {
                assert(c == -382_683 && s == 923_880);
                assert(c * c + s * s == 1_000_000_532_889) by (nonlinear_arith)
                    requires
                        c == -382_683,
                        s == 923_880,
                ;
            } else if i == 4 {
                assert(c == -923_880 && s == 382_683);
                assert(c * c + s * s == 1_000_000_532_889) by (nonlinear_arith)
                    requires
                        c == -923_880,
                        s == 382_683,
                ;
            } else if i == 5 {
                assert(c == -923_880 && s == -382_683);
                assert(c * c + s * s == 1_000_000_532_889) by (nonlinear_arith)
                    requires
                        c == -923_880,
                        s == -382_683,
                ;
            } else if i == 6 {
                assert(c == -382_683 && s == -923_880);
                assert(c * c + s * s == 1_000_000_532_889) by (nonlinear_arith)
                    requires
                        c == -382_683,
                        s == -923_880,
                ;
            } else if i == 7 {
                assert(c == 382_683 && s == -923_880);
                assert(c * c + s * s == 1_000_000_532_889) by (nonlinear_arith)
                    requires
                        c == 382_683,
                        s == -923_880,
                ;
            }
        },
        ShapeKind::Star => {
            if i == 0 {
                assert(c == 0 && s == -1_000_000);
                assert(c * c + s * s == 1_000_000_000_000) by (nonlinear_arith)
                    requires
                        c == 0,
                        s == -1_000_000,
                ;
            } else if i == 2 {
                assert(c == 951_057 && s == -309_017);
                assert(c * c + s * s == 1_000_000_923_538) by (nonlinear_arith)
                    requires
                        c == 951_057,
                        s == -309_017,
                ;
            } else if i == 4 {
                assert(c == 587_785 && s == 809_017);
                assert(c * c + s * s == 999_999_712_514) by (nonlinear_arith)
                    requires
                        c == 587_785,
                        s == 809_017,
                ;
            } else if i == 6 {
                assert(c == -587_785 && s == 809_017);
                assert(c * c + s * s == 999_999_712_514) by (nonlinear_arith)
                    requires
                        c == -587_785,
                        s == 809_017,
                ;
            } else if i == 8 {
                assert(c == -951_057 && s == -309_017);
                assert(c * c + s * s == 1_000_000_923_538) by (nonlinear_arith)
                    requires
                        c == -951_057,
                        s == -309_017,
                ;
            }
        },
        _ => {},
    }
}

/// The exec counterpart of `spoke`.
fn spoke_of(kind: ShapeKind, i: usize) -> (d: (i64, i64))
    ensures
        d.0 == spoke(kind, i as int).0,
        d.1 == spoke(kind, i as int).1,
{
    match kind {
        ShapeKind::Pentagon => {
            if i == 0 {
                (0, -1_000_000)
            } else if i == 1 {
                (951_057, -309_017)
            } else if i == 2 {
                (587_785, 809_017)
            } else if i == 3 {
                (-587_785, 809_017)
            } else {
                (-951_057, -309_017)
            }
        },
        ShapeKind::Hexagon => {
            if i == 0 {
                (1_000_000, 0)
            } else if i == 1 {
                (500_000, 866_025)
            } else if i == 2 {
                (-500_000, 866_025)
            } else if i == 3 {
                (-1_000_000, 0)
            } else if i == 4 {
                (-500_000, -866_025)
            } else {
                (500_000, -866_025)
            }
        },
        ShapeKind::Octagon => {
            if i == 0 {
                (923_880, -382_683)
            } else if i == 1 {
                (923_880, 382_683)
            } else if i == 2 {
                (382_683, 923_880)
            } else if i == 3 {
                (-382_683, 923_880)
            } else if i == 4 {
                (-923_880, 382_683)
            } else if i == 5 {
                (-923_880, -382_683)
            } else if i == 6 {
                (-382_683, -923_880)
            } else {
                (382_683, -923_880)
            }
        },
        ShapeKind::Star => {
            if i == 0 {
                (0, -1_000_000)
            } else if i == 1 {
                (293_893, -404_508)
            } else if i == 2 {
                (951_057, -309_017)
            } else if i == 3 {
                (475_528, 154_508)
            } else if i == 4 {
                (587_785, 809_017)
            } else if i == 5 {
                (0, 500_000)
            } else if i == 6 {
                (-587_785, 809_017)
            } else if i == 7 {
                (-475_528, 154_508)
            } else if i == 8 {
                (-951_057, -309_017)
            } else {
                (-293_893, -404_508)
            }
        },
        _ => (0, 0),
    }
}

/// Appends the vertex `(x, y)` to a flat vertex list.
fn push_vertex(v: &mut Vec<i64>, x: i64, y: i64)
    ensures
        final(v)@ == old(v)@.push(x).push(y),
{
    v.push(x);
    v.push(y);
}

/// The rectangle of the catalogue as a stored shape.
pub fn rectangle_shape(category_id: i32, w: u32, h: u32, x: u32, y: u32) -> (s: Shape)
    ensures
        s.realises(category_id, rectangle_model(w as int, h as int, x as int, y as int)),
{
    let x0: i64 = x as i64 * UNITS_PER_PIXEL;
    let y0: i64 = y as i64 * UNITS_PER_PIXEL;
    let bw: i64 = w as i64 * UNITS_PER_PIXEL;
    let bh: i64 = h as i64 * UNITS_PER_PIXEL;
    let x1: i64 = x0 + bw;
    let y1: i64 = y0 + bh;
    let mut seg: Vec<i64> = Vec::new();
    push_vertex(&mut seg, x0, y0);
    push_vertex(&mut seg, x1, y0);
    push_vertex(&mut seg, x1, y1);
    push_vertex(&mut seg, x0, y1);
    assert(0 <= bw * bh <= 0x1_0000_0000_0000_0000_0000_0000_0000) by (nonlinear_arith)
        requires
            0 <= bw <= 0x1_0000_0000_0000_00,
            0 <= bh <= 0x1_0000_0000_0000_00,
    ;
    let area: i128 = bw as i128 * bh as i128;
    Shape {
        category_id,
        bbox: BBox { x: x0, y: y0, width: bw, height: bh },
        segmentation: seg,
        area,
    }
}

/// The square of a whole number of pixels, in square coordinate units.
fn square_units(size: u32) -> (sq: i128)
    ensures
        sq == units(size as int) * units(size as int),
        0 <= sq <= 0x1_0000_0000_0000_0000_0000_0000_0000,
{
    let side: i128 = size as i128 * 1_000_000;
    assert(0 <= side * side <= 0x1_0000_0000_0000_0000_0000_0000_0000) by (nonlinear_arith)
        requires
            0 <= side <= 0x1_0000_0000_0000_00,
    ;
    side * side
}

/// The triangle of the catalogue as a stored shape.
pub fn triangle_shape(category_id: i32, size: u32, cx: u32, cy: u32) -> (s: Shape)
    ensures
        s.realises(category_id, triangle_model(size as int, cx as int, cy as int)),
{
    let h: i64 = size as i64 * 500_000;
    let x: i64 = cx as i64 * UNITS_PER_PIXEL;
    let y: i64 = cy as i64 * UNITS_PER_PIXEL;
    let side: i64 = size as i64 * UNITS_PER_PIXEL;
    let mut seg: Vec<i64> = Vec::new();
    push_vertex(&mut seg, x, y - h);
    push_vertex(&mut seg, x - h, y + h);
    push_vertex(&mut seg, x + h, y + h);
    let area: i128 = square_units(size) / 2;
    Shape {
        category_id,
        bbox: BBox { x: x - h, y: y - h, width: side, height: side },
        segmentation: seg,
        area,
    }
}

/// The diamond of the catalogue as a stored shape.
pub fn diamond_shape(category_id: i32, size: u32, cx: u32, cy: u32) -> (s: Shape)
    ensures
        s.realises(category_id, diamond_model(size as int, cx as int, cy as int)),
{
    let h: i64 = size as i64 * 500_000;
    let x: i64 = cx as i64 * UNITS_PER_PIXEL;
    let y: i64 = cy as i64 * UNITS_PER_PIXEL;
    let side: i64 = size as i64 * UNITS_PER_PIXEL;
    let mut seg: Vec<i64> = Vec::new();
    push_vertex(&mut seg, x, y - h);
    push_vertex(&mut seg, x + h, y);
    push_vertex(&mut seg, x, y + h);
    push_vertex(&mut seg, x - h, y);
    let area: i128 = square_units(size) / 2;
    Shape {
        category_id,
        bbox: BBox { x: x - h, y: y - h, width: side, height: side },
        segmentation: seg,
        area,
    }
}

/// The cross of the catalogue as a stored shape.
pub fn cross_shape(category_id: i32, size: u32, cx: u32, cy: u32) -> (s: Shape)
    ensures
        s.realises(category_id, cross_model(size as int, cx as int, cy as int)),
{
    let h: i64 = size as i64 * 500_000;
    let x: i64 = cx as i64 * UNITS_PER_PIXEL;
    let y: i64 = cy as i64 * UNITS_PER_PIXEL;
    let side: i64 = size as i64 * UNITS_PER_PIXEL;
    let t: i64 = side / 6;
    let thickness: i64 = side / 3;
    let mut seg: Vec<i64> = Vec::new();
    push_vertex(&mut seg, x - t, y - h);
    push_vertex(&mut seg, x + t, y - h);
    push_vertex(&mut seg, x + t, y - t);
    push_vertex(&mut seg, x + h, y - t);
    push_vertex(&mut seg, x + h, y + t);
    push_vertex(&mut seg, x + t, y + t);
    push_vertex(&mut seg, x + t, y + h);
    push_vertex(&mut seg, x - t, y + h);
    push_vertex(&mut seg, x - t, y + t);
    push_vertex(&mut seg, x - h, y + t);
    push_vertex(&mut seg, x - h, y - t);
    push_vertex(&mut seg, x - t, y - t);
    assert(0 <= side * thickness <= 0x1_0000_0000_0000_0000_0000_0000_0000 && 0 <= thickness
        * thickness <= side * thickness) by (nonlinear_arith)
        requires
            0 <= side <= 0x1_0000_0000_0000_00,
            0 <= thickness <= side,
    ;
    let bars: i128 = side as i128 * thickness as i128 * 2;
    let shared: i128 = thickness as i128 * thickness as i128;
    Shape {
        category_id,
        bbox: BBox { x: x - h, y: y - h, width: side, height: side },
        segmentation: seg,
        area: bars - shared,
    }
}

/// The arrow of the catalogue as a stored shape.
pub fn arrow_shape(category_id: i32, length: u32, cx: u32, cy: u32) -> (s: Shape)
    ensures
        s.realises(category_id, arrow_model(length as int, cx as int, cy as int)),
{
    let half: i64 = length as i64 * 500_000;
    let head: i64 = length as i64 * 400_000;
    let half_width: i64 = length as i64 * 200_000;
    let quarter_width: i64 = length as i64 * 100_000;
    let x: i64 = cx as i64 * UNITS_PER_PIXEL;
    let y: i64 = cy as i64 * UNITS_PER_PIXEL;
    let span: i64 = length as i64 * UNITS_PER_PIXEL;
    let neck: i64 = x + half - head;
    let mut seg: Vec<i64> = Vec::new();
    push_vertex(&mut seg, x - half, y - quarter_width);
    push_vertex(&mut seg, neck, y - quarter_width);
    push_vertex(&mut seg, neck, y - half_width);
    push_vertex(&mut seg, x + half, y);
    push_vertex(&mut seg, neck, y + half_width);
    push_vertex(&mut seg, neck, y + quarter_width);
    push_vertex(&mut seg, x - half, y + quarter_width);
    assert(0 <= span * head <= 0x1_0000_0000_0000_0000_0000_0000_0000) by (nonlinear_arith)
        requires
            0 <= span <= 0x1_0000_0000_0000_00,
            0 <= head <= span,
    ;
    let area: i128 = span as i128 * head as i128 * 7 / 10;
    Shape {
        category_id,
        bbox: BBox { x: x - half, y: y - half_width, width: span, height: head },
        segmentation: seg,
        area,
    }
}

/// The house of the catalogue as a stored shape.
pub fn house_shape(category_id: i32, size: u32, cx: u32, cy: u32) -> (s: Shape)
    ensures
        s.realises(category_id, house_model(size as int, cx as int, cy as int)),
{
    let half: i64 = size as i64 * 500_000;
    let wall: i64 = size as i64 * 300_000;
    let roof: i64 = size as i64 * 400_000;
    let x: i64 = cx as i64 * UNITS_PER_PIXEL;
    let y: i64 = cy as i64 * UNITS_PER_PIXEL;
    let side: i64 = size as i64 * UNITS_PER_PIXEL;
    let mut seg: Vec<i64> = Vec::new();
    push_vertex(&mut seg, x - half, y);
    push_vertex(&mut seg, x - half, y + wall);
    push_vertex(&mut seg, x + half, y + wall);
    push_vertex(&mut seg, x + half, y);
    push_vertex(&mut seg, x, y - roof);
    let area: i128 = square_units(size) / 2;
    Shape {
        category_id,
        bbox: BBox { x: x - half, y: y - roof, width: side, height: wall + roof },
        segmentation: seg,
        area,
    }
}

/// A length of `r` pixels scaled by a spoke component stays within the
/// radius.
proof fn lemma_scaled_within(r: int, c: int)
    requires
        0 <= r,
        -1_000_000 <= c <= 1_000_000,
    ensures
        -units(r) <= r * c <= units(r),
{
    assert(-(r * 1_000_000) <= r * c <= r * 1_000_000) by (nonlinear_arith)
        requires
            0 <= r,
            -1_000_000 <= c <= 1_000_000,
    ;
}

/// The exec counterpart of `spoke_count`.
fn spoke_count_of(kind: ShapeKind) -> (n: usize)
    ensures
        n == spoke_count(kind),
{
    match kind {
        ShapeKind::Pentagon => 5,
        ShapeKind::Hexagon => 6,
        ShapeKind::Octagon => 8,
        ShapeKind::Star => 10,
        _ => 0,
    }
}

/// The exec counterpart of `area_factor`.
fn area_factor_of(kind: ShapeKind) -> (f: i128)
    ensures
        f == area_factor(kind),
        0 <= f <= 283,
{
    match kind {
        ShapeKind::Pentagon => 172,
        ShapeKind::Hexagon => 260,
        ShapeKind::Octagon => 283,
        ShapeKind::Star => 100,
        _ => 0,
    }
}

/// A radial shape of the catalogue (pentagon, hexagon, octagon or star) as a
/// stored shape.
pub fn radial_shape(kind: ShapeKind, category_id: i32, r: u32, cx: u32, cy: u32) -> (s: Shape)
    ensures
        s.realises(category_id, radial_model(kind, r as int, cx as int, cy as int)),
{
    let x: i64 = cx as i64 * UNITS_PER_PIXEL;
    let y: i64 = cy as i64 * UNITS_PER_PIXEL;
    let reach: i64 = r as i64 * UNITS_PER_PIXEL;
    let n: usize = spoke_count_of(kind);
    let ghost m = radial_model(kind, r as int, cx as int, cy as int);
    let mut seg: Vec<i64> = Vec::new();
    let mut i: usize = 0;
    while i < n
        invariant
            i <= n,
            n == spoke_count(kind),
            x == units(cx as int),
            y == units(cy as int),
            m == radial_model(kind, r as int, cx as int, cy as int),
            seg@.len() == 2 * i,
            forall|j: int| 0 <= j < 2 * i ==> (#[trigger] seg@[j]) as int == m.outline[j],
        decreases n - i,
    {
        let d = spoke_of(kind, i);
        proof {
            lemma_spoke_bounded(kind, i as int);
            lemma_scaled_within(r as int, d.0 as int);
            lemma_scaled_within(r as int, d.1 as int);
            assert((2 * i) / 2 == i && (2 * i + 1) / 2 == i);
        }
        let dx: i64 = r as i64 * d.0;
        let dy: i64 = r as i64 * d.1;
        push_vertex(&mut seg, x + dx, y + dy);
        i += 1;
    }
    let sq: i128 = square_units(r);
    let factor: i128 = area_factor_of(kind);
    assert(0 <= sq * factor <= 283 * 0x1_0000_0000_0000_0000_0000_0000_0000) by (nonlinear_arith)
        requires
            0 <= sq <= 0x1_0000_0000_0000_0000_0000_0000_0000,
            0 <= factor <= 283,
    ;
    let area: i128 = sq * factor / 100;
    Shape {
        category_id,
        bbox: BBox { x: x - reach, y: y - reach, width: 2 * reach, height: 2 * reach },
        segmentation: seg,
        area,
    }
}

/// The shape of `kind` with the given parameters as a stored shape.
pub fn build_shape(kind: ShapeKind, category_id: i32, a: u32, b: u32, px: u32, py: u32) -> (s:
    Shape)
    ensures
        s.realises(category_id, model(kind, a as int, b as int, px as int, py as int)),
{
    match kind {
        ShapeKind::Rectangle => rectangle_shape(category_id, a, b, px, py),
        ShapeKind::Triangle => triangle_shape(category_id, a, px, py),
        ShapeKind::Diamond => diamond_shape(category_id, a, px, py),
        ShapeKind::Cross => cross_shape(category_id, a, px, py),
        ShapeKind::Arrow => arrow_shape(category_id, a, px, py),
        ShapeKind::House => house_shape(category_id, a, px, py),
        _ => radial_shape(kind, category_id, a, px, py),
    }
}

/// For sizes that are not negative, the box of every catalogue shape
/// encloses its whole outline, and the outline is a list of at least three
/// whole vertices.
pub proof fn lemma_model_enclosed(kind: ShapeKind, a: int, b: int, px: int, py: int)
    requires
        0 <= a,
        0 <= b,
    ensures
        model(kind, a, b, px, py).enclosed(),
        model(kind, a, b, px, py).outline.len() >= 6,
        model(kind, a, b, px, py).outline.len() % 2 == 0,
{
    let m = model(kind, a, b, px, py);
    match kind {
        ShapeKind::Rectangle
        | ShapeKind::Triangle
        | ShapeKind::Diamond
        | ShapeKind::Cross
        | ShapeKind::Arrow
        | ShapeKind::House => {},
        _ => {
            assert forall|j: int| 0 <= j < m.outline.len() implies if j % 2 == 0 {
                m.x <= #[trigger] m.outline[j] <= m.x + m.width
            } else {
                m.y <= m.outline[j] <= m.y + m.height
            } by {
                lemma_spoke_bounded(kind, j / 2);
                lemma_scaled_within(a, spoke(kind, j / 2).0);
                lemma_scaled_within(a, spoke(kind, j / 2).1);
            }
        },
    }
}

/// Some x coordinate of the outline equals `v`.
pub open spec fn touches_x(outline: Seq<int>, v: int) -> bool {
    exists|i: int| 0 <= i < outline.len() && i % 2 == 0 && #[trigger] outline[i] == v
}

/// Some y coordinate of the outline equals `v`.
pub open spec fn touches_y(outline: Seq<int>, v: int) -> bool {
    exists|i: int| 0 <= i < outline.len() && i % 2 == 1 && #[trigger] outline[i] == v
}

/// The box of a shape with straight sides on the axes is tight: each of its
/// four sides passes through a vertex of the outline. (The box of a radial
/// kind is that of its circle, which the vertices need not reach.)
pub proof fn lemma_model_tight(kind: ShapeKind, a: int, b: int, px: int, py: int)
    requires
        0 <= a,
        0 <= b,
        spoke_count(kind) == 0,
    ensures
        ({
            let m = model(kind, a, b, px, py);
            &&& touches_x(m.outline, m.x)
            &&& touches_x(m.outline, m.x + m.width)
            &&& touches_y(m.outline, m.y)
            &&& touches_y(m.outline, m.y + m.height)
        }),
{
    let m = model(kind, a, b, px, py);
    match kind {
        ShapeKind::Rectangle => {
            assert(m.outline[0] == m.x && m.outline[2] == m.x + m.width);
            assert(m.outline[1] == m.y && m.outline[5] == m.y + m.height);
        },
        ShapeKind::Triangle => {
            assert(m.outline[2] == m.x && m.outline[4] == m.x + m.width);
            assert(m.outline[1] == m.y && m.outline[3] == m.y + m.height);
        },
        ShapeKind::Diamond => {
            assert(m.outline[6] == m.x && m.outline[2] == m.x + m.width);
            assert(m.outline[1] == m.y && m.outline[5] == m.y + m.height);
        },
        ShapeKind::Cross => {
            assert(m.outline[18] == m.x && m.outline[6] == m.x + m.width);
            assert(m.outline[1] == m.y && m.outline[13] == m.y + m.height);
        },
        ShapeKind::Arrow => {
            assert(m.outline[0] == m.x && m.outline[6] == m.x + m.width);
            assert(m.outline[5] == m.y && m.outline[9] == m.y + m.height);
        },
        ShapeKind::House => {
            assert(m.outline[0] == m.x && m.outline[4] == m.x + m.width);
            assert(m.outline[9] == m.y && m.outline[3] == m.y + m.height);
        },
        _ => {},
    }
}

} // verus!
