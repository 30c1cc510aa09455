//! The shape record and the ten kinds of the catalogue.

use crate::geometry::{encloses, inside_canvas, BBox};
use vstd::prelude::*;

verus! {

/// The geometric categories, in catalogue order. A category id is the
/// 1-based position of a kind in this order.
#[derive(Clone, Copy, Debug, PartialEq, Eq, Structural)]
pub enum ShapeKind {
    Rectangle,
    Triangle,
    Pentagon,
    Hexagon,
    Octagon,
    Diamond,
    Star,
    Cross,
    Arrow,
    House,
}

/// Number of kinds in the catalogue.
pub const KIND_COUNT: u32 = 10;

impl ShapeKind {
    /// 1-based position of the kind in the catalogue.
    pub open spec fn ordinal(self) -> int {
        match self {
            ShapeKind::Rectangle => 1,
            ShapeKind::Triangle => 2,
            ShapeKind::Pentagon => 3,
            ShapeKind::Hexagon => 4,
            ShapeKind::Octagon => 5,
            ShapeKind::Diamond => 6,
            ShapeKind::Star => 7,
            ShapeKind::Cross => 8,
            ShapeKind::Arrow => 9,
            ShapeKind::House => 10,
        }
    }

    /// The kind at a 1-based catalogue position, if there is one.
    pub open spec fn at(id: int) -> Option<ShapeKind> {
        if id == 1 {
            Some(ShapeKind::Rectangle)
        } else if id == 2 {
            Some(ShapeKind::Triangle)
        } else if id == 3 {
            Some(ShapeKind::Pentagon)
        } else if id == 4 {
            Some(ShapeKind::Hexagon)
        } else if id == 5 {
            Some(ShapeKind::Octagon)
        } else if id == 6 {
            Some(ShapeKind::Diamond)
        } else if id == 7 {
            Some(ShapeKind::Star)
        } else if id == 8 {
            Some(ShapeKind::Cross)
        } else if id == 9 {
            Some(ShapeKind::Arrow)
        } else if id == 10 {
            Some(ShapeKind::House)
        } else {
            None
        }
    }

    /// The category id under which shapes of this kind are annotated.
    pub fn category_id(self) -> (id: i32)
        ensures
            id == self.ordinal(),
            1 <= id <= KIND_COUNT,
            ShapeKind::at(id as int) == Some(self),
    {
        match self {
            ShapeKind::Rectangle => 1,
            ShapeKind::Triangle => 2,
            ShapeKind::Pentagon => 3,
            ShapeKind::Hexagon => 4,
            ShapeKind::Octagon => 5,
            ShapeKind::Diamond => 6,
            ShapeKind::Star => 7,
            ShapeKind::Cross => 8,
            ShapeKind::Arrow => 9,
            ShapeKind::House => 10,
        }
    }

    /// The kind annotated under `category_id`; `None` outside `1..=10`.
    pub fn from_category(category_id: i32) -> (k: Option<ShapeKind>)
        ensures
            k == ShapeKind::at(category_id as int),
            k.is_some() <==> 1 <= category_id <= KIND_COUNT,
            k matches Some(kind) ==> kind.ordinal() == category_id,
    {
        match category_id {
            1 => Some(ShapeKind::Rectangle),
            2 => Some(ShapeKind::Triangle),
            3 => Some(ShapeKind::Pentagon),
            4 => Some(ShapeKind::Hexagon),
            5 => Some(ShapeKind::Octagon),
            6 => Some(ShapeKind::Diamond),
            7 => Some(ShapeKind::Star),
            8 => Some(ShapeKind::Cross),
            9 => Some(ShapeKind::Arrow),
            10 => Some(ShapeKind::House),
            _ => None,
        }
    }

    /// The category name of the kind.
    pub open spec fn label(self) -> Seq<char> {
        match self {
            ShapeKind::Rectangle => "rectangle"@,
            ShapeKind::Triangle => "triangle"@,
            ShapeKind::Pentagon => "pentagon"@,
            ShapeKind::Hexagon => "hexagon"@,
            ShapeKind::Octagon => "octagon"@,
            ShapeKind::Diamond => "diamond"@,
            ShapeKind::Star => "star"@,
            ShapeKind::Cross => "cross"@,
            ShapeKind::Arrow => "arrow"@,
            ShapeKind::House => "house"@,
        }
    }

    /// The category name of the kind.
    pub fn name(self) -> (s: &'static str)
        ensures
            s@ == self.label(),
    {
        match self {
            ShapeKind::Rectangle => "rectangle",
            ShapeKind::Triangle => "triangle",
            ShapeKind::Pentagon => "pentagon",
            ShapeKind::Hexagon => "hexagon",
            ShapeKind::Octagon => "octagon",
            ShapeKind::Diamond => "diamond",
            ShapeKind::Star => "star",
            ShapeKind::Cross => "cross",
            ShapeKind::Arrow => "arrow",
            ShapeKind::House => "house",
        }
    }
}

/// One generated primitive: its category, bounding box, outline and area.
///
/// `segmentation` is the flat vertex list of the outline (x at even
/// positions, y at odd positions) in coordinate units; `area` is in square
/// coordinate units.
#[derive(Debug)]
pub struct Shape {
    pub category_id: i32,
    pub bbox: BBox,
    pub segmentation: Vec<i64>,
    pub area: i128,
}

/// The value of a shape, with its outline as a sequence.
pub struct ShapeView {
    pub category_id: i32,
    pub bbox: BBox,
    pub segmentation: Seq<i64>,
    pub area: i128,
}

impl View for Shape {
    type V = ShapeView;

    open spec fn view(&self) -> ShapeView {
        ShapeView {
            category_id: self.category_id,
            bbox: self.bbox,
            segmentation: self.segmentation@,
            area: self.area,
        }
    }
}

/// The mathematical description of a shape: what a generator formula yields
/// before it is stored in machine integers.
pub struct ShapeModel {
    pub x: int,
    pub y: int,
    pub width: int,
    pub height: int,
    pub outline: Seq<int>,
    pub area: int,
}

impl ShapeModel {
    /// The box encloses every vertex of the outline.
    pub open spec fn enclosed(self) -> bool {
        forall|i: int|
            0 <= i < self.outline.len() ==> if i % 2 == 0 {
                self.x <= #[trigger] self.outline[i] <= self.x + self.width
            } else {
                self.y <= self.outline[i] <= self.y + self.height
            }
    }

    /// The box has non-negative extent and lies on a canvas of the given
    /// pixel size.
    pub open spec fn on_canvas(self, width: int, height: int) -> bool {
        &&& 0 <= self.x
        &&& 0 <= self.y
        &&& 0 <= self.width
        &&& 0 <= self.height
        &&& self.x + self.width <= width * 1_000_000
        &&& self.y + self.height <= height * 1_000_000
    }
}

impl Shape {
    /// The stored shape holds exactly the values of `m` under `category_id`.
    pub open spec fn realises(&self, category_id: i32, m: ShapeModel) -> bool {
        &&& self.category_id == category_id
        &&& self.bbox.x == m.x
        &&& self.bbox.y == m.y
        &&& self.bbox.width == m.width
        &&& self.bbox.height == m.height
        &&& self.area == m.area
        &&& self.segmentation@.len() == m.outline.len()
        &&& forall|i: int|
            0 <= i < m.outline.len() ==> (#[trigger] self.segmentation@[i]) as int == m.outline[i]
    }

    /// The outline is a list of at least three whole vertices and the box
    /// encloses it.
    pub open spec fn well_formed(&self) -> bool {
        &&& self.segmentation@.len() >= 6
        &&& self.segmentation@.len() % 2 == 0
        &&& encloses(self.bbox, self.segmentation@)
    }

    /// A field-for-field copy.
    pub fn duplicate(&self) -> (r: Shape)
        ensures
            r@ == self@,
    {
        let mut seg: Vec<i64> = Vec::new();
        let mut i: usize = 0;
        while i < self.segmentation.len()
            invariant
                i <= self.segmentation.len(),
                seg@ == self.segmentation@.subrange(0, i as int),
            decreases self.segmentation.len() - i,
        {
            seg.push(self.segmentation[i]);
            i += 1;
            assert(seg@ =~= self.segmentation@.subrange(0, i as int));
        }
        assert(seg@ =~= self.segmentation@);
        Shape { category_id: self.category_id, bbox: self.bbox, segmentation: seg, area: self.area }
    }
}

/// What holds of a model holds of the shape that realises it.
pub proof fn lemma_realised_properties(
    s: Shape,
    category_id: i32,
    m: ShapeModel,
    width: int,
    height: int,
)
    requires
        s.realises(category_id, m),
    ensures
        m.outline.len() >= 6 && m.outline.len() % 2 == 0 && m.enclosed() ==> s.well_formed(),
        m.on_canvas(width, height) ==> inside_canvas(s.bbox, width, height),
{
    if m.outline.len() >= 6 && m.outline.len() % 2 == 0 && m.enclosed() {
        assert forall|i: int| 0 <= i < s.segmentation@.len() implies if i % 2 == 0 {
            s.bbox.x <= #[trigger] s.segmentation@[i] <= s.bbox.x + s.bbox.width
        } else {
            s.bbox.y <= s.segmentation@[i] <= s.bbox.y + s.bbox.height
        } by {
            assert(s.segmentation@[i] as int == m.outline[i]);
        }
    }
}

} // verus!
