//! Drawing primitives.
//!
//! Every position is a [`Vec2`] of fixed-point logical coordinates:
//! `LOGICAL_ONE` subunits stand for one logical unit, and the viewport spans
//! the square from `(-1, -1)` (bottom-left) to `(1, 1)` (top-right) in
//! logical units.

use vstd::prelude::*;

verus! {

/// Number of coordinate subunits in one logical unit.
pub const LOGICAL_ONE: i64 = 1_000_000;

/// A two-dimensional vector of fixed-point logical coordinates.
#[derive(Debug, Clone, Copy, PartialEq, Eq, Structural)]
pub struct Vec2 {
    /// Horizontal coordinate, growing to the right.
    pub x: i64,
    /// Vertical coordinate, growing upwards.
    pub y: i64,
}

impl Vec2 {
    /// The sum of two vectors, truncated into the machine range.
    ///
    /// Under [`Vec2::add_in_range`] the truncation changes nothing and this
    /// is the exact componentwise sum.
    pub open spec fn add_spec(self, other: Vec2) -> Vec2 {
        Vec2 { x: (self.x + other.x) as i64, y: (self.y + other.y) as i64 }
    }

    /// The difference of two vectors, truncated into the machine range.
    pub open spec fn sub_spec(self, other: Vec2) -> Vec2 {
        Vec2 { x: (self.x - other.x) as i64, y: (self.y - other.y) as i64 }
    }

    /// Whether the componentwise sum of `self` and `other` avoids overflow.
    pub open spec fn add_in_range(self, other: Vec2) -> bool {
        &&& i64::MIN <= self.x + other.x <= i64::MAX
        &&& i64::MIN <= self.y + other.y <= i64::MAX
    }

    /// Whether both coordinates lie within `bound` of the origin.
    pub open spec fn in_bounds(self, bound: int) -> bool {
        &&& -bound <= self.x <= bound
        &&& -bound <= self.y <= bound
    }

    /// Builds a vector from its two coordinates.
    pub fn new(x: i64, y: i64) -> (r: Vec2)
        ensures
            r == (Vec2 { x, y }),
    {
        Vec2 { x, y }
    }

    /// Componentwise addition.
    pub fn add(self, other: Vec2) -> (r: Vec2)
        requires
            self.add_in_range(other),
        ensures
            r == self.add_spec(other),
    {
        Vec2 { x: self.x + other.x, y: self.y + other.y }
    }
}

/// An RGB color; `u16::MAX` in a channel stands for full intensity.
#[derive(Debug, Clone, Copy, PartialEq, Eq, Structural)]
pub struct Color {
    /// Red channel.
    pub r: u16,
    /// Green channel.
    pub g: u16,
    /// Blue channel.
    pub b: u16,
}

/// All the possible images.
#[derive(Debug, Clone, PartialEq, Eq)]
pub enum Image {
    /// The image corresponding to a regular button.
    UnhoveredButton,
    /// The image corresponding to a button being hovered.
    HoveredButton,
    /// A custom image. Not used by this library's predefined components.
    Custom(String),
}

/// All the possible fonts.
#[derive(Debug, Clone, PartialEq, Eq)]
pub enum Font {
    /// The default font for regular text.
    Default,
    /// The font to use for the label over a button.
    Button,
    /// A custom font. Not used by this library's predefined components.
    Custom(String),
}

impl Image {
    /// Returns a copy of the image reference.
    pub fn duplicate(&self) -> (r: Image)
        ensures
            r == *self,
    {
        match self {
            Image::UnhoveredButton => Image::UnhoveredButton,
            Image::HoveredButton => Image::HoveredButton,
            Image::Custom(name) => Image::Custom(name.clone()),
        }
    }
}

impl Font {
    /// Returns a copy of the font reference.
    pub fn duplicate(&self) -> (r: Font)
        ensures
            r == *self,
    {
        match self {
            Font::Default => Font::Default,
            Font::Button => Font::Button,
            Font::Custom(name) => Font::Custom(name.clone()),
        }
    }
}

impl Default for Font {
    /// The default font is [`Font::Default`].
    fn default() -> (r: Font)
        ensures
            r == Font::Default,
    {
        Font::Default
    }
}

/// A shape that can be drawn on the screen.
///
/// Shapes are immutable value types; the only operation is
/// [`Shape::translate`], which returns a new shape with every positional
/// field shifted.
#[derive(Debug, Clone, PartialEq, Eq)]
pub enum Shape {
    /// A single point.
    Point {
        /// Position of the center of the point.
        location: Vec2,
        /// Color of the point.
        color: Color,
    },
    /// A single line.
    Line {
        /// Position of one extremity of the line.
        from: Vec2,
        /// Position of the other extremity of the line.
        to: Vec2,
        /// Color of the line.
        color: Color,
    },
    /// An axis-aligned rectangle.
    Rectangle {
        /// Position of one corner of the rectangle.
        from: Vec2,
        /// Position of the opposite corner of the rectangle.
        to: Vec2,
        /// Color of the rectangle.
        color: Color,
    },
    /// An axis-aligned image.
    Image {
        /// Position of one corner of the rectangle.
        from: Vec2,
        /// Position of the opposite corner of the rectangle.
        to: Vec2,
        /// Image to draw.
        image: Image,
    },
    /// A text.
    Text {
        /// The text to write.
        text: String,
        /// Font to use.
        font: Font,
        /// Position of the bottom-left corner of the first letter.
        bottom_left: Vec2,
        /// Size of one em of text, in coordinate subunits.
        em: i64,
    },
}

impl Shape {
    /// Moves the shape by the given offset.
    pub fn translate(self, vec: Vec2) -> (r: Shape)
        requires
            self@.translate_in_range(vec),
        ensures
            r@ == self@.translate_spec(vec),
    {
        match self {
            Shape::Point { location, color } => Shape::Point {
                location: location.add(vec),
                color,
            },
            Shape::Line { from, to, color } => Shape::Line {
                from: from.add(vec),
                to: to.add(vec),
                color,
            },
            Shape::Rectangle { from, to, color } => Shape::Rectangle {
                from: from.add(vec),
                to: to.add(vec),
                color,
            },
            Shape::Image { from, to, image } => Shape::Image {
                from: from.add(vec),
                to: to.add(vec),
                image,
            },
            Shape::Text { text, font, bottom_left, em } => Shape::Text {
                text,
                font,
                bottom_left: bottom_left.add(vec),
                em,
            },
        }
    }
}

/// The mathematical model of a [`Shape`]: the same drawing primitive
/// with its text as a sequence of characters.
pub enum ShapeModel {
    /// Model of [`Shape::Point`].
    Point {
        /// Position of the center of the point.
        location: Vec2,
        /// Color of the point.
        color: Color,
    },
    /// Model of [`Shape::Line`].
    Line {
        /// Position of one extremity of the line.
        from: Vec2,
        /// Position of the other extremity of the line.
        to: Vec2,
        /// Color of the line.
        color: Color,
    },
    /// Model of [`Shape::Rectangle`].
    Rectangle {
        /// Position of one corner of the rectangle.
        from: Vec2,
        /// Position of the opposite corner of the rectangle.
        to: Vec2,
        /// Color of the rectangle.
        color: Color,
    },
    /// Model of [`Shape::Image`].
    Image {
        /// Position of one corner of the rectangle.
        from: Vec2,
        /// Position of the opposite corner of the rectangle.
        to: Vec2,
        /// Image to draw.
        image: Image,
    },
    /// Model of [`Shape::Text`].
    Text {
        /// The characters to write.
        text: Seq<char>,
        /// Font to use.
        font: Font,
        /// Position of the bottom-left corner of the first letter.
        bottom_left: Vec2,
        /// Size of one em of text, in coordinate subunits.
        em: i64,
    },
}

impl View for Shape {
    type V = ShapeModel;

    open spec fn view(&self) -> ShapeModel {
        match self {
            Shape::Point { location, color } => ShapeModel::Point {
                location: *location,
                color: *color,
            },
            Shape::Line { from, to, color } => ShapeModel::Line {
                from: *from,
                to: *to,
                color: *color,
            },
            Shape::Rectangle { from, to, color } => ShapeModel::Rectangle {
                from: *from,
                to: *to,
                color: *color,
            },
            Shape::Image { from, to, image } => ShapeModel::Image {
                from: *from,
                to: *to,
                image: *image,
            },
            Shape::Text { text, font, bottom_left, em } => ShapeModel::Text {
                text: text@,
                font: *font,
                bottom_left: *bottom_left,
                em: *em,
            },
        }
    }
}

impl DeepView for Shape {
    type V = ShapeModel;

    open spec fn deep_view(&self) -> ShapeModel {
        self.view()
    }
}

impl ShapeModel {
    /// The shape moved by `vec`: rectangles, lines and images shift both
    /// corners, texts only their anchor point, points their single
    /// location.  Coordinates are truncated into the machine range;
    /// under [`ShapeModel::translate_in_range`] they are the exact sums.
    pub open spec fn translate_spec(self, vec: Vec2) -> ShapeModel {
        match self {
            ShapeModel::Point { location, color } => ShapeModel::Point {
                location: location.add_spec(vec),
                color,
            },
            ShapeModel::Line { from, to, color } => ShapeModel::Line {
                from: from.add_spec(vec),
                to: to.add_spec(vec),
                color,
            },
            ShapeModel::Rectangle { from, to, color } => ShapeModel::Rectangle {
                from: from.add_spec(vec),
                to: to.add_spec(vec),
                color,
            },
            ShapeModel::Image { from, to, image } => ShapeModel::Image {
                from: from.add_spec(vec),
                to: to.add_spec(vec),
                image,
            },
            ShapeModel::Text { text, font, bottom_left, em } => ShapeModel::Text {
                text,
                font,
                bottom_left: bottom_left.add_spec(vec),
                em,
            },
        }
    }

    /// Whether translating by `vec` keeps every positional field in the
    /// machine range.
    pub open spec fn translate_in_range(self, vec: Vec2) -> bool {
        match self {
            ShapeModel::Point { location, .. } => location.add_in_range(vec),
            ShapeModel::Line { from, to, .. } => from.add_in_range(vec) && to.add_in_range(vec),
            ShapeModel::Rectangle { from, to, .. } => from.add_in_range(vec) && to.add_in_range(
                vec,
            ),
            ShapeModel::Image { from, to, .. } => from.add_in_range(vec) && to.add_in_range(vec),
            ShapeModel::Text { bottom_left, .. } => bottom_left.add_in_range(vec),
        }
    }

    /// Whether every positional field of the shape lies within `bound`
    /// of the origin.
    pub open spec fn in_bounds(self, bound: int) -> bool {
        match self {
            ShapeModel::Point { location, .. } => location.in_bounds(bound),
            ShapeModel::Line { from, to, .. } => from.in_bounds(bound) && to.in_bounds(bound),
            ShapeModel::Rectangle { from, to, .. } => from.in_bounds(bound) && to.in_bounds(
                bound,
            ),
            ShapeModel::Image { from, to, .. } => from.in_bounds(bound) && to.in_bounds(bound),
            ShapeModel::Text { bottom_left, .. } => bottom_left.in_bounds(bound),
        }
    }
}

/// A shape within/// A shape within `b1` of the origin, translated by an offset within
/// `b2`, stays in the machine range and lands within `b1 + b2`.
pub proof fn lemma_translate_bounds(s: ShapeModel, off: Vec2, b1: int, b2: int)
    requires
        s.in_bounds(b1),
        off.in_bounds(b2),
        0 <= b1,
        0 <= b2,
        b1 + b2 <= i64::MAX,
    ensures
        s.translate_in_range(off),
        s.translate_spec(off).in_bounds(b1 + b2),
{
}

/// Law: translation composes.  Translating a shape by `a` and then by `b`
/// yields the same shape as translating it once by `a + b`, whenever the
/// intermediate and combined coordinates stay in the machine range.
pub proof fn lemma_translate_composes(s: ShapeModel, a: Vec2, b: Vec2)
    requires
        s.translate_in_range(a),
        s.translate_spec(a).translate_in_range(b),
        a.add_in_range(b),
    ensures
        s.translate_spec(a).translate_spec(b) == s.translate_spec(a.add_spec(b)),
{
}

} // verus!
