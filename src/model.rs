use vstd::prelude::*;

verus! {

/// One of the four midpoint sides of a rectangular node that an arrow can attach to.
#[derive(Clone, Copy, Debug, PartialEq, Eq, Structural, Hash)]
pub enum AnchorSide {
    Top,
    Bottom,
    Left,
    Right,
}

/// An anchor: the node it belongs to and the side of that node.
#[derive(Clone, Copy, Debug, PartialEq, Eq, Structural, Hash)]
pub struct ArrowConnect {
    pub id: u64,
    pub pos: AnchorSide,
}

/// How the heads of an arrow are drawn.
#[derive(Clone, Copy, Debug, PartialEq, Eq, Structural, Hash)]
pub enum ArrowType {
    Line,
    ArrowFromEnd,
    ArrowFromStart,
    DoubleArrow,
}

/// The identity of an arrow: its two anchors and its kind.
#[derive(Clone, Copy, Debug, PartialEq, Eq, Structural, Hash)]
pub struct ArrowMeta {
    pub start: ArrowConnect,
    pub end: ArrowConnect,
    pub arrow_type: ArrowType,
}

/// A request to build an arrow between two anchors.
#[derive(Clone, Copy, Debug, PartialEq, Eq, Structural, Hash)]
pub struct CreateArrow {
    pub start: ArrowConnect,
    pub end: ArrowConnect,
    pub arrow_type: ArrowType,
}

/// A drawing-space coordinate, in whole units.
#[derive(Clone, Copy, Debug, PartialEq, Eq, Structural, Hash)]
pub struct Point {
    pub x: i32,
    pub y: i32,
}

/// An anchor marker together with its projected drawing-space position,
/// or `None` when the projection found it outside the viewport.
#[derive(Clone, Copy, Debug, PartialEq, Eq, Structural, Hash)]
pub struct Marker {
    pub anchor: ArrowConnect,
    pub pos: Option<Point>,
}

impl CreateArrow {
    pub open spec fn meta(self) -> ArrowMeta {
        ArrowMeta { start: self.start, end: self.end, arrow_type: self.arrow_type }
    }
}

impl ArrowMeta {
    pub open spec fn request(self) -> CreateArrow {
        CreateArrow { start: self.start, end: self.end, arrow_type: self.arrow_type }
    }

    /// Whether the arrow has an end on the node `id`.
    pub open spec fn touches(self, id: u64) -> bool {
        self.start.id == id || self.end.id == id
    }
}

} // verus!
