//! Fixed-point coordinates, bounding boxes and flat vertex lists.

use vstd::prelude::*;

verus! {

/// Number of coordinate units in one pixel.
pub const UNITS_PER_PIXEL: i64 = 1_000_000;

/// Axis-aligned bounding box `[x, y, width, height]`, in coordinate units.
#[derive(Clone, Copy, Debug, PartialEq, Eq, Structural)]
pub struct BBox {
    pub x: i64,
    pub y: i64,
    pub width: i64,
    pub height: i64,
}

/// Two boxes overlap unless one lies strictly beyond the other on some axis.
/// Boxes that merely touch count as overlapping.
pub open spec fn overlap(a: BBox, b: BBox) -> bool {
    !(a.x + a.width < b.x || b.x + b.width < a.x || a.y + a.height < b.y || b.y + b.height
        < a.y)
}

/// `b` encloses every vertex of the flat list `seg` (x at even positions,
/// y at odd positions).
pub open spec fn encloses(b: BBox, seg: Seq<i64>) -> bool {
    forall|i: int|
        0 <= i < seg.len() ==> if i % 2 == 0 {
            b.x <= #[trigger] seg[i] <= b.x + b.width
        } else {
            b.y <= seg[i] <= b.y + b.height
        }
}

/// `b` has non-negative extent and lies inside a canvas of the given pixel size.
pub open spec fn inside_canvas(b: BBox, width: int, height: int) -> bool {
    &&& 0 <= b.x
    &&& 0 <= b.y
    &&& 0 <= b.width
    &&& 0 <= b.height
    &&& b.x + b.width <= width * UNITS_PER_PIXEL
    &&& b.y + b.height <= height * UNITS_PER_PIXEL
}

impl BBox {
    /// The box as the four-element list `[x, y, width, height]`.
    pub open spec fn to_seq(self) -> Seq<i64> {
        seq![self.x, self.y, self.width, self.height]
    }

    /// The box as the list `[x, y, width, height]`.
    pub fn to_vec(&self) -> (v: Vec<i64>)
        ensures
            v@ == self.to_seq(),
    {
        let mut v: Vec<i64> = Vec::new();
        v.push(self.x);
        v.push(self.y);
        v.push(self.width);
        v.push(self.height);
        assert(v@ =~= self.to_seq());
        v
    }
}

/// Axis-aligned overlap test between two bounding boxes.
pub fn boxes_overlap(a: &BBox, b: &BBox) -> (r: bool)
    ensures
        r == overlap(*a, *b),
{
    let ax: i128 = a.x as i128;
    let ay: i128 = a.y as i128;
    let bx: i128 = b.x as i128;
    let by: i128 = b.y as i128;
    !(ax + (a.width as i128) < bx || bx + (b.width as i128) < ax || ay + (a.height as i128) < by
        || by + (b.height as i128) < ay)
}

/// The value of a list of polygons.
pub open spec fn polygons_view(polygons: Seq<Vec<i64>>) -> Seq<Seq<i64>> {
    Seq::new(polygons.len(), |i: int| polygons[i]@)
}

/// A flat copy of a vertex list.
pub fn copy_outline(seg: &Vec<i64>) -> (r: Vec<i64>)
    ensures
        r@ == seg@,
{
    let mut r: Vec<i64> = Vec::new();
    let mut i: usize = 0;
    while i < seg.len()
        invariant
            i <= seg.len(),
            r@ == seg@.subrange(0, i as int),
        decreases seg.len() - i,
    {
        r.push(seg[i]);
        i += 1;
        assert(r@ =~= seg@.subrange(0, i as int));
    }
    assert(r@ =~= seg@);
    r
}

} // verus!
