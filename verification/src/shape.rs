//! What the instrument asks the display to draw.

use vstd::prelude::*;
use crate::color::ColorRGB;
use crate::literal::RealLiteral;

verus! {

/// The footprint of a rectangle, as fractions of the full extent of the
/// display.
#[derive(Debug, PartialEq, Eq)]
pub struct RectangleGeometry {
    pub width: RealLiteral,
    pub height: RealLiteral,
}

/// What a [`RectangleGeometry`] stands for: the two sizes in decimal
/// notation.
pub struct GeometryView {
    pub width: Seq<char>,
    pub height: Seq<char>,
}

impl View for RectangleGeometry {
    type V = GeometryView;

    open spec fn view(&self) -> GeometryView {
        GeometryView { width: self.width@, height: self.height@ }
    }
}

impl Clone for RectangleGeometry {
    fn clone(&self) -> (copy: Self)
        ensures
            copy@ == self@,
    {
        RectangleGeometry { width: self.width.clone(), height: self.height.clone() }
    }
}

impl DeepView for RectangleGeometry {
    type V = GeometryView;

    open spec fn deep_view(&self) -> GeometryView {
        self@
    }
}

/// A rectangle of one color.
#[derive(Debug, PartialEq, Eq)]
pub struct RectangleShape {
    pub color: ColorRGB,
    pub geometry: RectangleGeometry,
}

/// What a [`RectangleShape`] stands for.
pub struct RectangleView {
    pub color: ColorRGB,
    pub geometry: GeometryView,
}

impl View for RectangleShape {
    type V = RectangleView;

    open spec fn view(&self) -> RectangleView {
        RectangleView { color: self.color, geometry: self.geometry@ }
    }
}

impl Clone for RectangleShape {
    fn clone(&self) -> (copy: Self)
        ensures
            copy@ == self@,
    {
        RectangleShape { color: self.color, geometry: self.geometry.clone() }
    }
}

impl DeepView for RectangleShape {
    type V = RectangleView;

    open spec fn deep_view(&self) -> RectangleView {
        self@
    }
}

/// One drawing instruction.
#[derive(Debug, PartialEq, Eq)]
pub enum ShapeInstruction {
    Rectangle(RectangleShape),
}

/// What a [`ShapeInstruction`] stands for.
pub enum ShapeView {
    Rectangle(RectangleView),
}

impl ShapeView {
    /// The color that the shape is drawn in.
    pub open spec fn color(self) -> ColorRGB {
        match self {
            ShapeView::Rectangle(rectangle) => rectangle.color,
        }
    }
}

impl View for ShapeInstruction {
    type V = ShapeView;

    open spec fn view(&self) -> ShapeView {
        match self {
            ShapeInstruction::Rectangle(rectangle) => ShapeView::Rectangle(rectangle@),
        }
    }
}

impl Clone for ShapeInstruction {
    fn clone(&self) -> (copy: Self)
        ensures
            copy@ == self@,
    {
        match self {
            ShapeInstruction::Rectangle(rectangle) => ShapeInstruction::Rectangle(rectangle.clone()),
        }
    }
}

impl DeepView for ShapeInstruction {
    type V = ShapeView;

    open spec fn deep_view(&self) -> ShapeView {
        self@
    }
}

impl ShapeInstruction {
    /// The color that the shape is drawn in.
    pub fn color(&self) -> (color: ColorRGB)
        ensures
            color == self@.color(),
    {
        match self {
            ShapeInstruction::Rectangle(rectangle) => rectangle.color,
        }
    }
}

/// A copy of a list of shapes.
pub fn copy_shapes(shapes: &Vec<ShapeInstruction>) -> (copy: Vec<ShapeInstruction>)
    ensures
        copy.deep_view() == shapes.deep_view(),
{
    let mut copy: Vec<ShapeInstruction> = Vec::new();
    let mut i: usize = 0;
    while i < shapes.len()
        invariant
            i <= shapes.len(),
            copy.len() == i,
            forall|j: int| 0 <= j < i ==> copy@[j]@ == shapes@[j]@,
        decreases shapes.len() - i,
    {
        copy.push(shapes[i].clone());
        i = i + 1;
    }
    assert(copy.deep_view() =~= shapes.deep_view());
    copy
}

} // verus!
