//! The rasteriser: one painting routine per shape kind, and the colour
//! policy that picks the colour a shape is painted in.

use crate::canvas::{Canvas, CanvasView, Color};
use crate::shape::{Shape, ShapeKind, ShapeView};
use vstd::prelude::*;

verus! {

/// How shapes are coloured: all in one neutral gray, or each category in a
/// hue of its own.
#[derive(Clone, Copy, Debug, PartialEq, Eq, Structural)]
pub enum ColorPolicy {
    Gray,
    PerCategory,
}

/// The neutral gray of `ColorPolicy::Gray`.
pub open spec fn gray() -> Color {
    Color { r: 128, g: 128, b: 128 }
}

/// Chroma of a colour of saturation `s` and lightness `l` (both in
/// thousandths), in millionths: `(1 - |2l - 1|) * s`.
pub open spec fn chroma(s: int, l: int) -> int {
    let d = 2 * l - 1000;
    (1000 - if d >= 0 {
        d
    } else {
        -d
    }) * s
}

/// The ramp `1 - |(h / 60) mod 2 - 1|` of a hue `h` given in thousandths of
/// a degree, in sixty-thousandths.
pub open spec fn hue_ramp(h: int) -> int {
    let t = h % 120_000 - 60_000;
    60_000 - if t >= 0 {
        t
    } else {
        -t
    }
}

/// The common denominator of the channel intensities of `channels`.
pub open spec fn intensity_scale() -> int {
    120_000_000_000
}

/// The red, green and blue intensities of the colour with hue `h`
/// (thousandths of a degree), saturation `s` and lightness `l`
/// (thousandths), as numerators over `intensity_scale()`.
pub open spec fn channels(h: int, s: int, l: int) -> (int, int, int) {
    let c = chroma(s, l) * 120_000;
    let x = chroma(s, l) * hue_ramp(h) * 2;
    let m = l * 120_000_000 - chroma(s, l) * 60_000;
    if h < 60_000 {
        (c + m, x + m, m)
    } else if h < 120_000 {
        (x + m, c + m, m)
    } else if h < 180_000 {
        (m, c + m, x + m)
    } else if h < 240_000 {
        (m, x + m, c + m)
    } else if h < 300_000 {
        (x + m, m, c + m)
    } else {
        (c + m, m, x + m)
    }
}

/// An intensity as a byte: 255 times the intensity, rounded down and kept
/// within the range of a byte.
pub open spec fn quantised(v: int) -> int {
    if v <= 0 {
        0
    } else if v * 255 / intensity_scale() > 255 {
        255
    } else {
        v * 255 / intensity_scale()
    }
}

/// The colour with hue `h`, saturation `s` and lightness `l`.
pub open spec fn hsl_color(h: int, s: int, l: int) -> Color {
    let (r, g, b) = channels(h, s, l);
    Color { r: quantised(r) as u8, g: quantised(g) as u8, b: quantised(b) as u8 }
}

/// The hue of a category among `num_classes`, in thousandths of a degree:
/// the categories are spread evenly over the colour circle.
pub open spec fn category_hue(category_id: int, num_classes: int) -> int {
    (category_id - 1) * 360_000 / num_classes
}

/// The colour a shape of `category_id` is painted in.
pub open spec fn policy_color(policy: ColorPolicy, category_id: int, num_classes: int) -> Color {
    match policy {
        ColorPolicy::Gray => gray(),
        ColorPolicy::PerCategory => if 1 <= category_id <= num_classes {
            hsl_color(category_hue(category_id, num_classes), 700, 600)
        } else {
            gray()
        },
    }
}

fn quantise(v: i128) -> (q: u8)
    requires
        -0x1_0000_0000_0000_0000_0000_0000 <= v <= 0x1_0000_0000_0000_0000_0000_0000,
    ensures
        q == quantised(v as int),
{
    if v <= 0 {
        0
    } else {
        let q: i128 = v * 255 / 120_000_000_000;
        if q > 255 {
            255
        } else {
            q as u8
        }
    }
}

/// Converts a colour from hue (thousandths of a degree), saturation and
/// lightness (thousandths) to red, green and blue bytes.
pub fn hsl_to_rgb(h: u32, s: u32, l: u32) -> (color: Color)
    ensures
        color == hsl_color(h as int, s as int, l as int),
{
    let d: i128 = 2 * (l as i128) - 1000;
    let spread: i128 = 1000 - if d >= 0 {
        d
    } else {
        -d
    };
    assert(-0x2_0000_0000_0000_0000 <= spread * s <= 0x2_0000_0000_0000_0000) by (nonlinear_arith)
        requires
            -0x2_0000_0000 <= spread <= 0x2_0000_0000,
            0 <= s <= 0xffff_ffff,
    ;
    let ch: i128 = spread * (s as i128);
    let t: i128 = (h % 120_000) as i128 - 60_000;
    let ramp: i128 = 60_000 - if t >= 0 {
        t
    } else {
        -t
    };
    assert(-0x2_0000_0000_0000_0000 * 60_000 <= ch * ramp <= 0x2_0000_0000_0000_0000 * 60_000)
        by (nonlinear_arith)
        requires
            -0x2_0000_0000_0000_0000 <= ch <= 0x2_0000_0000_0000_0000,
            0 <= ramp <= 60_000,
    ;
    let c: i128 = ch * 120_000;
    let x: i128 = ch * ramp * 2;
    let m: i128 = (l as i128) * 120_000_000 - ch * 60_000;
    let (r, g, b): (i128, i128, i128) = if h < 60_000 {
        (c + m, x + m, m)
    } else if h < 120_000 {
        (x + m, c + m, m)
    } else if h < 180_000 {
        (m, c + m, x + m)
    } else if h < 240_000 {
        (m, x + m, c + m)
    } else if h < 300_000 {
        (x + m, m, c + m)
    } else {
        (c + m, m, x + m)
    };
    Color { r: quantise(r), g: quantise(g), b: quantise(b) }
}

/// The colour a shape of `category_id` is painted in under `policy`, with
/// `num_classes` categories in use.
pub fn shape_color(policy: ColorPolicy, category_id: i32, num_classes: u32) -> (color: Color)
    ensures
        color == policy_color(policy, category_id as int, num_classes as int),
{
    match policy {
        ColorPolicy::Gray => Color { r: 128, g: 128, b: 128 },
        ColorPolicy::PerCategory => {
            if 1 <= category_id && category_id as i64 <= num_classes as i64 {
                let hue: u64 = (category_id as u64 - 1) * 360_000 / (num_classes as u64);
                assert(hue < 360_000) by (nonlinear_arith)
                    requires
                        hue == (category_id - 1) * 360_000 / (num_classes as int),
                        1 <= category_id <= num_classes,
                ;
                hsl_to_rgb(hue as u32, 700, 600)
            } else {
                Color { r: 128, g: 128, b: 128 }
            }
        },
    }
}

/// The canvas after `shape` has been painted in `color`: a filled rectangle
/// for the first category, the filled outline for every other.
pub open spec fn painted(canvas: CanvasView, shape: ShapeView, color: Color) -> CanvasView {
    if shape.category_id == 1 {
        canvas.with_rectangle(shape.bbox, color)
    } else {
        canvas.with_outline(shape.segmentation, color)
    }
}

/// Paints a rectangle shape: the filled rectangle covering its bounding box.
pub fn draw_rectangle(img: &mut Canvas, shape: &Shape, color: Color)
    requires
        old(img)@.wf(),
    ensures
        final(img)@ == old(img)@.with_rectangle(shape.bbox, color),
        final(img)@.wf(),
{
    img.paint_rectangle(&shape.bbox, color);
}

/// Paints a triangle shape: the filled polygon through its outline.
pub fn draw_triangle(img: &mut Canvas, shape: &Shape, color: Color)
    requires
        old(img)@.wf(),
    ensures
        final(img)@ == old(img)@.with_outline(shape.segmentation@, color),
        final(img)@.wf(),
{
    img.paint_outline(&shape.segmentation, color);
}

/// Paints a pentagon shape: the filled polygon through its outline.
pub fn draw_pentagon(img: &mut Canvas, shape: &Shape, color: Color)
    requires
        old(img)@.wf(),
    ensures
        final(img)@ == old(img)@.with_outline(shape.segmentation@, color),
        final(img)@.wf(),
{
    img.paint_outline(&shape.segmentation, color);
}

/// Paints a hexagon shape: the filled polygon through its outline.
pub fn draw_hexagon(img: &mut Canvas, shape: &Shape, color: Color)
    requires
        old(img)@.wf(),
    ensures
        final(img)@ == old(img)@.with_outline(shape.segmentation@, color),
        final(img)@.wf(),
{
    img.paint_outline(&shape.segmentation, color);
}

/// Paints an octagon shape: the filled polygon through its outline.
pub fn draw_octagon(img: &mut Canvas, shape: &Shape, color: Color)
    requires
        old(img)@.wf(),
    ensures
        final(img)@ == old(img)@.with_outline(shape.segmentation@, color),
        final(img)@.wf(),
{
    img.paint_outline(&shape.segmentation, color);
}

/// Paints a diamond shape: the filled polygon through its outline.
pub fn draw_diamond(img: &mut Canvas, shape: &Shape, color: Color)
    requires
        old(img)@.wf(),
    ensures
        final(img)@ == old(img)@.with_outline(shape.segmentation@, color),
        final(img)@.wf(),
{
    img.paint_outline(&shape.segmentation, color);
}

/// Paints a star shape: the filled polygon through its outline.
pub fn draw_star(img: &mut Canvas, shape: &Shape, color: Color)
    requires
        old(img)@.wf(),
    ensures
        final(img)@ == old(img)@.with_outline(shape.segmentation@, color),
        final(img)@.wf(),
{
    img.paint_outline(&shape.segmentation, color);
}

/// Paints a cross shape: the filled polygon through its outline.
pub fn draw_cross(img: &mut Canvas, shape: &Shape, color: Color)
    requires
        old(img)@.wf(),
    ensures
        final(img)@ == old(img)@.with_outline(shape.segmentation@, color),
        final(img)@.wf(),
{
    img.paint_outline(&shape.segmentation, color);
}

/// Paints an arrow shape: the filled polygon through its outline.
pub fn draw_arrow(img: &mut Canvas, shape: &Shape, color: Color)
    requires
        old(img)@.wf(),
    ensures
        final(img)@ == old(img)@.with_outline(shape.segmentation@, color),
        final(img)@.wf(),
{
    img.paint_outline(&shape.segmentation, color);
}

/// Paints a house shape: the filled polygon through its outline.
pub fn draw_house(img: &mut Canvas, shape: &Shape, color: Color)
    requires
        old(img)@.wf(),
    ensures
        final(img)@ == old(img)@.with_outline(shape.segmentation@, color),
        final(img)@.wf(),
{
    img.paint_outline(&shape.segmentation, color);
}

/// Paints `shape` with the routine of its kind. A shape whose category is
/// not in the catalogue leaves the canvas as it is.
pub fn draw_shape(img: &mut Canvas, shape: &Shape, color: Color)
    requires
        old(img)@.wf(),
    ensures
        final(img)@.wf(),
        ShapeKind::at(shape.category_id as int).is_some() ==> final(img)@ == painted(
            old(img)@,
            shape@,
            color,
        ),
        ShapeKind::at(shape.category_id as int).is_none() ==> final(img)@ == old(img)@,
{
    match ShapeKind::from_category(shape.category_id) {
        Some(ShapeKind::Rectangle) => draw_rectangle(img, shape, color),
        Some(ShapeKind::Triangle) => draw_triangle(img, shape, color),
        Some(ShapeKind::Pentagon) => draw_pentagon(img, shape, color),
        Some(ShapeKind::Hexagon) => draw_hexagon(img, shape, color),
        Some(ShapeKind::Octagon) => draw_octagon(img, shape, color),
        Some(ShapeKind::Diamond) => draw_diamond(img, shape, color),
        Some(ShapeKind::Star) => draw_star(img, shape, color),
        Some(ShapeKind::Cross) => draw_cross(img, shape, color),
        Some(ShapeKind::Arrow) => draw_arrow(img, shape, color),
        Some(ShapeKind::House) => draw_house(img, shape, color),
        None => {},
    }
}

} // verus!
