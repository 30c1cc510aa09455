//! The pixel canvas and the rasteriser that paints shapes onto it.
//!
//! A canvas is a row-major buffer of three bytes (red, green, blue) per
//! pixel. Rectangles are painted as filled rectangles, every other shape as
//! the filled polygon through the vertices of its outline.

use crate::geometry::{BBox, UNITS_PER_PIXEL};
use image::{Rgb, RgbImage};
use imageproc::drawing::{draw_filled_rect_mut, draw_polygon_mut};
use imageproc::point::Point;
use imageproc::rect::Rect;
use vstd::prelude::*;

verus! {

/// An opaque red-green-blue colour.
#[derive(Clone, Copy, Debug, PartialEq, Eq, Structural)]
pub struct Color {
    pub r: u8,
    pub g: u8,
    pub b: u8,
}

/// Pixel coordinates handed to the rasteriser are kept within this distance
/// of the origin, so that differences between them fit in 32 bits.
pub const PIXEL_LIMIT: i64 = 1_000_000_000;

/// The pixel a coordinate falls on: the coordinate in whole pixels, rounded
/// towards zero and kept within `PIXEL_LIMIT` of the origin.
pub open spec fn pixel_of(v: int) -> int {
    let p = if v >= 0 {
        v / 1_000_000
    } else {
        -((-v) / 1_000_000)
    };
    if p > 1_000_000_000 {
        1_000_000_000
    } else if p < -1_000_000_000 {
        -1_000_000_000
    } else {
        p
    }
}

/// The number of whole pixels an extent covers; none if it is negative.
pub open spec fn pixel_extent(v: int) -> int {
    if v <= 0 {
        0
    } else {
        pixel_of(v)
    }
}

/// The pixel vertices of an outline, as a flat list. A trailing coordinate
/// without a partner is dropped.
pub open spec fn outline_pixels(seg: Seq<i64>) -> Seq<i32> {
    Seq::new((seg.len() / 2 * 2) as nat, |i: int| pixel_of(seg[i] as int) as i32)
}

/// A flat list of pixel vertices that can be filled: there is a vertex, and
/// the first and the last vertex differ.
pub open spec fn fillable(points: Seq<i32>) -> bool {
    &&& points.len() >= 2
    &&& points.len() % 2 == 0
    &&& !(points[0] == points[points.len() - 2] && points[1] == points[points.len() - 1])
}

/// The buffer `bytes` of a `width` by `height` canvas after the pixels of
/// the rectangle with top-left pixel `(left, top)` and size `w` by `h` that
/// lie on the canvas have been set to `color`.
pub open spec fn rect_filled(
    bytes: Seq<u8>,
    width: u32,
    height: u32,
    left: i32,
    top: i32,
    w: u32,
    h: u32,
    color: Color,
) -> Seq<u8> {
    Seq::new(
        bytes.len(),
        |i: int|
            {
                let x = (i / 3) % (width as int);
                let y = (i / 3) / (width as int);
                if left <= x < left + w && top <= y < top + h {
                    if i % 3 == 0 {
                        color.r
                    } else if i % 3 == 1 {
                        color.g
                    } else {
                        color.b
                    }
                } else {
                    bytes[i]
                }
            },
    )
}

/// What `imageproc::drawing::draw_polygon_mut` makes of the buffer of a
/// `width` by `height` canvas: the buffer after the polygon through the flat
/// vertex list `points` has been filled with the colour `(r, g, b)` by
/// scan-line rasterisation and its edges drawn as line segments.
pub uninterp spec fn polygon_fill(
    bytes: Seq<u8>,
    width: u32,
    height: u32,
    points: Seq<i32>,
    r: u8,
    g: u8,
    b: u8,
) -> Seq<u8>;

/// `imageproc::drawing::draw_filled_rect_mut` on the buffer viewed as an RGB
/// image (`image::RgbImage::from_raw`), with the rectangle made by
/// `imageproc::rect::Rect::at(left, top).of_size(w, h)`: sets every canvas
/// pixel inside the rectangle to the colour and leaves the others as they
/// were. The rectangle and the canvas must not be empty (the calls panic
/// otherwise), and their sizes and far edges must fit in 32 signed bits.
#[verifier::external_body]
fn fill_rect(
    data: &mut Vec<u8>,
    width: u32,
    height: u32,
    left: i32,
    top: i32,
    w: u32,
    h: u32,
    color: Color,
)
    requires
        old(data)@.len() == 3 * width * height,
        1 <= width <= i32::MAX,
        1 <= height <= i32::MAX,
        1 <= w <= i32::MAX,
        1 <= h <= i32::MAX,
        left + w <= i32::MAX,
        top + h <= i32::MAX,
    ensures
        final(data)@ == rect_filled(old(data)@, width, height, left, top, w, h, color),
{
    let buffer = std::mem::take(data);
    let mut img = RgbImage::from_raw(width, height, buffer).unwrap();
    let rect = Rect::at(left, top).of_size(w, h);
    draw_filled_rect_mut(&mut img, rect, Rgb([color.r, color.g, color.b]));
    *data = img.into_raw();
}

/// `imageproc::drawing::draw_polygon_mut` on the buffer viewed as an RGB
/// image (`image::RgbImage::from_raw`). The result is named, not described;
/// the buffer keeps its length. The canvas must not be empty, the first and
/// last vertex must differ (the call panics otherwise), and all coordinates
/// must lie within `PIXEL_LIMIT` of the origin, so that no difference of two
/// of them overflows.
#[verifier::external_body]
fn fill_polygon(data: &mut Vec<u8>, width: u32, height: u32, points: &Vec<i32>, color: Color)
    requires
        old(data)@.len() == 3 * width * height,
        1 <= width <= i32::MAX,
        1 <= height <= i32::MAX,
        fillable(points@),
        forall|i: int|
            0 <= i < points@.len() ==> -PIXEL_LIMIT <= #[trigger] points@[i] <= PIXEL_LIMIT,
    ensures
        final(data)@ == polygon_fill(old(data)@, width, height, points@, color.r, color.g, color.b),
        final(data)@.len() == old(data)@.len(),
{
    let buffer = std::mem::take(data);
    let mut img = RgbImage::from_raw(width, height, buffer).unwrap();
    let poly: Vec<Point<i32>> = points.chunks_exact(2).map(|p| Point::new(p[0], p[1])).collect();
    draw_polygon_mut(&mut img, &poly, Rgb([color.r, color.g, color.b]));
    *data = img.into_raw();
}

/// The exec counterpart of `pixel_of`.
pub fn to_pixel(v: i64) -> (p: i32)
    ensures
        p == pixel_of(v as int),
        -PIXEL_LIMIT <= p <= PIXEL_LIMIT,
{
    let q: i64 = if v >= 0 {
        v / UNITS_PER_PIXEL
    } else if v == i64::MIN {
        -9_223_372_036_854
    } else {
        -((-v) / UNITS_PER_PIXEL)
    };
    if q > PIXEL_LIMIT {
        PIXEL_LIMIT as i32
    } else if q < -PIXEL_LIMIT {
        (-PIXEL_LIMIT) as i32
    } else {
        q as i32
    }
}

/// The exec counterpart of `pixel_extent`.
pub fn to_extent(v: i64) -> (p: u32)
    ensures
        p == pixel_extent(v as int),
        p <= PIXEL_LIMIT,
{
    if v <= 0 {
        0
    } else {
        to_pixel(v) as u32
    }
}

/// The exec counterpart of `outline_pixels`.
pub fn to_pixels(seg: &Vec<i64>) -> (points: Vec<i32>)
    ensures
        points@ == outline_pixels(seg@),
        points@.len() % 2 == 0,
        forall|i: int|
            0 <= i < points@.len() ==> -PIXEL_LIMIT <= #[trigger] points@[i] <= PIXEL_LIMIT,
{
    let n: usize = seg.len() / 2 * 2;
    let mut points: Vec<i32> = Vec::new();
    let mut i: usize = 0;
    while i < n
        invariant
            i <= n,
            n == seg@.len() / 2 * 2,
            points@.len() == i,
            forall|j: int| 0 <= j < i ==> #[trigger] points@[j] == pixel_of(seg@[j] as int) as i32,
            forall|j: int| 0 <= j < i ==> -PIXEL_LIMIT <= #[trigger] points@[j] <= PIXEL_LIMIT,
        decreases n - i,
    {
        points.push(to_pixel(seg[i]));
        i += 1;
    }
    assert(points@ =~= outline_pixels(seg@));
    points
}

/// The value of a canvas: its size in pixels and its buffer.
pub struct CanvasView {
    pub width: u32,
    pub height: u32,
    pub bytes: Seq<u8>,
}

/// A pixel canvas.
pub struct Canvas {
    width: u32,
    height: u32,
    data: Vec<u8>,
}

impl View for Canvas {
    type V = CanvasView;

    closed spec fn view(&self) -> CanvasView {
        CanvasView { width: self.width, height: self.height, bytes: self.data@ }
    }
}

impl CanvasView {
    /// The buffer holds exactly three bytes per pixel.
    pub open spec fn wf(self) -> bool {
        self.bytes.len() == 3 * self.width * self.height
    }

    /// Neither dimension is zero or beyond what the rasteriser addresses.
    pub open spec fn paintable(self) -> bool {
        &&& 1 <= self.width <= i32::MAX
        &&& 1 <= self.height <= i32::MAX
    }

    /// The canvas after a filled rectangle covering `bbox` has been painted.
    /// Nothing is painted on a canvas that is not paintable, nor for a box
    /// that covers no whole pixel.
    pub open spec fn with_rectangle(self, bbox: BBox, color: Color) -> CanvasView {
        let w = pixel_extent(bbox.width as int);
        let h = pixel_extent(bbox.height as int);
        if self.paintable() && w >= 1 && h >= 1 {
            CanvasView {
                bytes: rect_filled(
                    self.bytes,
                    self.width,
                    self.height,
                    pixel_of(bbox.x as int) as i32,
                    pixel_of(bbox.y as int) as i32,
                    w as u32,
                    h as u32,
                    color,
                ),
                ..self
            }
        } else {
            self
        }
    }

    /// The canvas after the polygon through the outline `seg` has been
    /// painted. Nothing is painted on a canvas that is not paintable, nor
    /// for an outline whose pixel vertices cannot be filled.
    pub open spec fn with_outline(self, seg: Seq<i64>, color: Color) -> CanvasView {
        let points = outline_pixels(seg);
        if self.paintable() && fillable(points) {
            CanvasView {
                bytes: polygon_fill(
                    self.bytes,
                    self.width,
                    self.height,
                    points,
                    color.r,
                    color.g,
                    color.b,
                ),
                ..self
            }
        } else {
            self
        }
    }
}

/// The white canvas of `width` by `height` pixels.
pub open spec fn blank_view(width: u32, height: u32) -> CanvasView {
    CanvasView { width, height, bytes: Seq::new((3 * width * height) as nat, |i: int| 255u8) }
}

impl Canvas {
    /// A white canvas of `width` by `height` pixels.
    pub fn blank(width: u32, height: u32) -> (c: Canvas)
        requires
            3 * width * height <= usize::MAX,
        ensures
            c@ == blank_view(width, height),
            c@.wf(),
    {
        assert(width * height <= usize::MAX && 3 * (width * height) == 3 * width * height)
            by (nonlinear_arith)
            requires
                3 * width * height <= usize::MAX,
        ;
        let n: usize = 3 * (width as usize * height as usize);
        let mut data: Vec<u8> = Vec::new();
        let mut i: usize = 0;
        while i < n
            invariant
                i <= n,
                data@.len() == i,
                forall|j: int| 0 <= j < i ==> data@[j] == 255,
            decreases n - i,
        {
            data.push(255);
            i += 1;
        }
        assert(data@ =~= blank_view(width, height).bytes);
        Canvas { width, height, data }
    }

    /// The width of the canvas in pixels.
    pub fn width(&self) -> (w: u32)
        ensures
            w == self@.width,
    {
        self.width
    }

    /// The height of the canvas in pixels.
    pub fn height(&self) -> (h: u32)
        ensures
            h == self@.height,
    {
        self.height
    }

    /// The colour of the pixel at `(x, y)`, if it is on the canvas.
    pub fn pixel(&self, x: u32, y: u32) -> (p: Option<Color>)
        requires
            self@.wf(),
        ensures
            p.is_some() <==> x < self@.width && y < self@.height,
            p matches Some(c) ==> {
                let at = 3 * (y * self@.width + x);
                &&& c.r == self@.bytes[at]
                &&& c.g == self@.bytes[at + 1]
                &&& c.b == self@.bytes[at + 2]
            },
    {
        if x >= self.width || y >= self.height {
            return None;
        }
        let len: usize = self.data.len();
        let ghost yw = y as int * self.width as int;
        assert(len == 3 * self.width * self.height);
        assert(0 <= yw && 3 * (yw + x) + 2 < len) by (nonlinear_arith)
            requires
                yw == y as int * self.width as int,
                len == 3 * self.width * self.height,
                0 <= x < self.width,
                0 <= y < self.height,
        ;
        let at: usize = 3 * (y as usize * self.width as usize + x as usize);
        Some(Color { r: self.data[at], g: self.data[at + 1], b: self.data[at + 2] })
    }

    /// Paints a filled rectangle covering `bbox`.
    pub fn paint_rectangle(&mut self, bbox: &BBox, color: Color)
        requires
            old(self)@.wf(),
        ensures
            final(self)@ == old(self)@.with_rectangle(*bbox, color),
            final(self)@.wf(),
    {
        let w: u32 = to_extent(bbox.width);
        let h: u32 = to_extent(bbox.height);
        let limit: u32 = 0x7fff_ffff;
        if 1 <= self.width && self.width <= limit && 1 <= self.height && self.height <= limit && w
            >= 1 && h >= 1 {
            let left: i32 = to_pixel(bbox.x);
            let top: i32 = to_pixel(bbox.y);
            fill_rect(&mut self.data, self.width, self.height, left, top, w, h, color);
        }
    }

    /// Paints the filled polygon through the vertices of the outline `seg`.
    pub fn paint_outline(&mut self, seg: &Vec<i64>, color: Color)
        requires
            old(self)@.wf(),
        ensures
            final(self)@ == old(self)@.with_outline(seg@, color),
            final(self)@.wf(),
    {
        let points: Vec<i32> = to_pixels(seg);
        let n: usize = points.len();
        let limit: u32 = 0x7fff_ffff;
        if 1 <= self.width && self.width <= limit && 1 <= self.height && self.height <= limit && n
            >= 2 && !(points[0] == points[n - 2] && points[1] == points[n - 1]) {
            fill_polygon(&mut self.data, self.width, self.height, &points, color);
        }
    }

    /// The buffer of the canvas, three bytes per pixel, row by row.
    pub fn into_bytes(self) -> (bytes: Vec<u8>)
        ensures
            bytes@ == self@.bytes,
    {
        self.data
    }
}

} // verus!
