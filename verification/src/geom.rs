//! Geometry and color primitives: points, rectangles, RGB and CMYK colors.
//!
//! All coordinates are integers in PDF user-space units. Color channels are
//! integers in thousandths, from 0 to 1000 inclusive.

use vstd::prelude::*;

verus! {

/// A position in user space.
#[derive(Clone, Copy, Debug, Default, PartialEq, Eq, Structural)]
pub struct Point {
    /// Horizontal coordinate.
    pub x: i32,
    /// Vertical coordinate.
    pub y: i32,
}

impl Point {
    /// Replace both coordinates with those of `point`.
    pub fn set(&mut self, point: Point)
        ensures
            *final(self) == point,
    {
        self.x = point.x;
        self.y = point.y;
    }
}

impl From<(i32, i32)> for Point {
    /// Build a point from an `(x, y)` pair.
    fn from(v: (i32, i32)) -> (p: Point) {
        Point { x: v.0, y: v.1 }
    }
}

impl vstd::std_specs::convert::FromSpecImpl<(i32, i32)> for Point {
    open spec fn obeys_from_spec() -> bool {
        true
    }

    open spec fn from_spec(v: (i32, i32)) -> Point {
        Point { x: v.0, y: v.1 }
    }
}

/// An axis-aligned rectangle given by its four edges.
#[derive(Clone, Copy, Debug, PartialEq, Eq, Structural)]
pub struct Rect {
    /// Left edge.
    pub left: i32,
    /// Top edge.
    pub top: i32,
    /// Right edge.
    pub right: i32,
    /// Bottom edge.
    pub bottom: i32,
}

impl From<(i32, i32, i32, i32)> for Rect {
    /// Build a rectangle from a `(left, top, right, bottom)` tuple.
    fn from(v: (i32, i32, i32, i32)) -> (r: Rect) {
        Rect { left: v.0, top: v.1, right: v.2, bottom: v.3 }
    }
}

impl vstd::std_specs::convert::FromSpecImpl<(i32, i32, i32, i32)> for Rect {
    open spec fn obeys_from_spec() -> bool {
        true
    }

    open spec fn from_spec(v: (i32, i32, i32, i32)) -> Rect {
        Rect { left: v.0, top: v.1, right: v.2, bottom: v.3 }
    }
}

impl From<(i32, i32)> for Rect {
    /// Build a degenerate rectangle whose four edges meet in one point.
    fn from(v: (i32, i32)) -> (r: Rect) {
        Rect { left: v.0, top: v.1, right: v.0, bottom: v.1 }
    }
}

impl vstd::std_specs::convert::FromSpecImpl<(i32, i32)> for Rect {
    open spec fn obeys_from_spec() -> bool {
        true
    }

    open spec fn from_spec(v: (i32, i32)) -> Rect {
        Rect { left: v.0, top: v.1, right: v.0, bottom: v.1 }
    }
}

/// A rectangle given by two opposite corners.
///
/// Serialized as `/Rect [ llx lly urx ury ]`; annotation constructors
/// normalize it first, so the corners may be handed over in any order.
#[derive(Clone, Copy, Debug, Default, PartialEq, Eq, Structural)]
pub struct Rectangle {
    /// The nominal lower-left corner.
    pub lower_left: Point,
    /// The nominal upper-right corner.
    pub upper_right: Point,
}

/// The normalized form of `r`: the same extent, with the smaller coordinates
/// gathered in `lower_left` and the larger ones in `upper_right`.
pub open spec fn normalized_rectangle(r: Rectangle) -> Rectangle {
    Rectangle {
        lower_left: Point {
            x: if r.lower_left.x <= r.upper_right.x {
                r.lower_left.x
            } else {
                r.upper_right.x
            },
            y: if r.lower_left.y <= r.upper_right.y {
                r.lower_left.y
            } else {
                r.upper_right.y
            },
        },
        upper_right: Point {
            x: if r.lower_left.x <= r.upper_right.x {
                r.upper_right.x
            } else {
                r.lower_left.x
            },
            y: if r.lower_left.y <= r.upper_right.y {
                r.upper_right.y
            } else {
                r.lower_left.y
            },
        },
    }
}

impl Rectangle {
    /// True when the corners are already in normal order.
    pub open spec fn is_normalized(self) -> bool {
        self.lower_left.x <= self.upper_right.x && self.lower_left.y <= self.upper_right.y
    }

    /// Reorder the corners so that `lower_left` is at most `upper_right` on
    /// both axes.
    pub fn normalize(self) -> (r: Rectangle)
        ensures
            r == normalized_rectangle(self),
            r.is_normalized(),
    {
        let llx = if self.lower_left.x <= self.upper_right.x {
            self.lower_left.x
        } else {
            self.upper_right.x
        };
        let urx = if self.lower_left.x <= self.upper_right.x {
            self.upper_right.x
        } else {
            self.lower_left.x
        };
        let lly = if self.lower_left.y <= self.upper_right.y {
            self.lower_left.y
        } else {
            self.upper_right.y
        };
        let ury = if self.lower_left.y <= self.upper_right.y {
            self.upper_right.y
        } else {
            self.lower_left.y
        };
        Rectangle {
            lower_left: Point { x: llx, y: lly },
            upper_right: Point { x: urx, y: ury },
        }
    }
}

/// Normalization is insensitive to the order in which the two corners are
/// given: swapping them yields the same rectangle, and the result always has
/// `lower_left` at most `upper_right` on both axes.
pub proof fn lemma_normalize_corner_order(r: Rectangle)
    ensures
        normalized_rectangle(r).is_normalized(),
        normalized_rectangle(
            Rectangle { lower_left: r.upper_right, upper_right: r.lower_left },
        ) == normalized_rectangle(r),
{
}

/// The corner of a rectangle from which a builder measures its extent.
#[derive(Clone, Copy, Debug, PartialEq, Eq, Structural)]
pub enum Corner {
    /// Extend up and to the right of the given point.
    LowerLeft,
    /// Extend up and to the left.
    LowerRight,
    /// Extend down and to the right.
    UpperLeft,
    /// Extend down and to the left.
    UpperRight,
}

/// Builds a [`Rectangle`] from one corner point and an extent.
#[derive(Clone, Copy, Debug)]
pub struct RectangleBuilder {
    /// The corner point the rectangle is measured from.
    pub point: Point,
    /// The corner the extent is measured from.
    pub starting: Corner,
    /// The vertical extent.
    pub height: i32,
    /// The horizontal extent.
    pub width: i32,
}

/// The rectangle a builder produces: the given point is placed at the chosen
/// corner and the extent is laid out towards the opposite corner.
pub open spec fn built_rectangle(point: Point, starting: Corner, width: int, height: int) -> Rectangle {
    match starting {
        Corner::LowerLeft => Rectangle {
            lower_left: point,
            upper_right: Point { x: (point.x + width) as i32, y: (point.y + height) as i32 },
        },
        Corner::LowerRight => Rectangle {
            lower_left: Point { x: (point.x - width) as i32, y: point.y },
            upper_right: Point { x: point.x, y: (point.y + height) as i32 },
        },
        Corner::UpperLeft => Rectangle {
            lower_left: Point { x: point.x, y: (point.y - height) as i32 },
            upper_right: Point { x: (point.x + width) as i32, y: point.y },
        },
        Corner::UpperRight => Rectangle {
            lower_left: Point { x: (point.x - width) as i32, y: (point.y - height) as i32 },
            upper_right: point,
        },
    }
}

impl RectangleBuilder {
    /// Start a rectangle at `point`, measured from its lower-left corner,
    /// with an empty extent.
    pub fn new(point: Point) -> (b: RectangleBuilder)
        ensures
            b.point() == point,
            b.corner() == Corner::LowerLeft,
            b.extent_width() == 0,
            b.extent_height() == 0,
    {
        RectangleBuilder { point, starting: Corner::LowerLeft, height: 0, width: 0 }
    }

    /// The corner point the rectangle is measured from.
    pub open spec fn point(self) -> Point {
        self.point
    }

    /// The corner the extent is measured from.
    pub open spec fn corner(self) -> Corner {
        self.starting
    }

    /// The horizontal extent.
    pub open spec fn extent_width(self) -> int {
        self.width as int
    }

    /// The vertical extent.
    pub open spec fn extent_height(self) -> int {
        self.height as int
    }

    /// Designate the corner the extent is measured from.
    pub fn starting_corner(self, corner: Corner) -> (b: RectangleBuilder)
        ensures
            b == (RectangleBuilder { starting: corner, ..self }),
    {
        RectangleBuilder { starting: corner, ..self }
    }

    /// Set the horizontal extent.
    pub fn set_width(self, width: i32) -> (b: RectangleBuilder)
        ensures
            b == (RectangleBuilder { width, ..self }),
    {
        RectangleBuilder { width, ..self }
    }

    /// Set the vertical extent.
    pub fn set_height(self, height: i32) -> (b: RectangleBuilder)
        ensures
            b == (RectangleBuilder { height, ..self }),
    {
        RectangleBuilder { height, ..self }
    }

    /// Lay the extent out from the chosen corner and return the rectangle.
    ///
    /// The opposite corner must stay within the coordinate range.
    pub fn build(self) -> (r: Rectangle)
        requires
            i32::MIN <= self.point().x - self.extent_width(),
            i32::MIN <= self.point().x + self.extent_width(),
            self.point().x + self.extent_width() <= i32::MAX,
            self.point().x - self.extent_width() <= i32::MAX,
            i32::MIN <= self.point().y - self.extent_height(),
            i32::MIN <= self.point().y + self.extent_height(),
            self.point().y + self.extent_height() <= i32::MAX,
            self.point().y - self.extent_height() <= i32::MAX,
        ensures
            r == built_rectangle(self.point(), self.corner(), self.extent_width(), self.extent_height()),
    {
        match self.starting {
            Corner::LowerLeft => Rectangle {
                lower_left: self.point,
                upper_right: Point { x: self.point.x + self.width, y: self.point.y + self.height },
            },
            Corner::LowerRight => Rectangle {
                lower_left: Point { x: self.point.x - self.width, y: self.point.y },
                upper_right: Point { x: self.point.x, y: self.point.y + self.height },
            },
            Corner::UpperLeft => Rectangle {
                lower_left: Point { x: self.point.x, y: self.point.y - self.height },
                upper_right: Point { x: self.point.x + self.width, y: self.point.y },
            },
            Corner::UpperRight => Rectangle {
                lower_left: Point {
                    x: self.point.x - self.width,
                    y: self.point.y - self.height,
                },
                upper_right: self.point,
            },
        }
    }
}

/// Largest value of a color channel: channels run from 0 to 1000 thousandths.
pub const CHANNEL_MAX: u16 = 1000;

/// An RGB color with channels in thousandths (0 to 1000).
#[derive(Clone, Copy, Debug, PartialEq, Eq, Structural)]
pub struct Color {
    /// Red channel.
    pub red: u16,
    /// Green channel.
    pub green: u16,
    /// Blue channel.
    pub blue: u16,
}

impl Color {
    /// True when every channel is within range.
    pub open spec fn wf(self) -> bool {
        self.red <= CHANNEL_MAX && self.green <= CHANNEL_MAX && self.blue <= CHANNEL_MAX
    }

    /// Build a color, rejecting out-of-range channels.
    pub fn new(red: u16, green: u16, blue: u16) -> (r: Result<Color, crate::errors::ErrorKind>)
        ensures
            r is Ok <==> red <= CHANNEL_MAX && green <= CHANNEL_MAX && blue <= CHANNEL_MAX,
            r matches Ok(c) ==> c == (Color { red, green, blue }) && c.wf(),
            r matches Err(e) ==> e == crate::errors::ErrorKind::InvalidArgument,
    {
        if red <= CHANNEL_MAX && green <= CHANNEL_MAX && blue <= CHANNEL_MAX {
            Ok(Color { red, green, blue })
        } else {
            Err(crate::errors::ErrorKind::InvalidArgument)
        }
    }
}

impl Default for Color {
    /// Black.
    fn default() -> (c: Color)
        ensures
            c == (Color { red: 0u16, green: 0u16, blue: 0u16 }),
            c.wf(),
    {
        Color { red: 0, green: 0, blue: 0 }
    }
}

/// A CMYK color with channels in thousandths (0 to 1000).
#[derive(Clone, Copy, Debug, PartialEq, Eq, Structural)]
pub struct CmykColor {
    /// Cyan channel.
    pub cyan: u16,
    /// Magenta channel.
    pub magenta: u16,
    /// Yellow channel.
    pub yellow: u16,
    /// Key (black) channel.
    pub keyplate: u16,
}

impl CmykColor {
    /// True when every channel is within range.
    pub open spec fn wf(self) -> bool {
        self.cyan <= CHANNEL_MAX && self.magenta <= CHANNEL_MAX && self.yellow <= CHANNEL_MAX
            && self.keyplate <= CHANNEL_MAX
    }

    /// Build a CMYK color, rejecting out-of-range channels.
    pub fn new(cyan: u16, magenta: u16, yellow: u16, keyplate: u16) -> (r: Result<
        CmykColor,
        crate::errors::ErrorKind,
    >)
        ensures
            r is Ok <==> cyan <= CHANNEL_MAX && magenta <= CHANNEL_MAX && yellow <= CHANNEL_MAX
                && keyplate <= CHANNEL_MAX,
            r matches Ok(c) ==> c == (CmykColor { cyan, magenta, yellow, keyplate }) && c.wf(),
            r matches Err(e) ==> e == crate::errors::ErrorKind::InvalidArgument,
    {
        if cyan <= CHANNEL_MAX && magenta <= CHANNEL_MAX && yellow <= CHANNEL_MAX && keyplate
            <= CHANNEL_MAX {
            Ok(CmykColor { cyan, magenta, yellow, keyplate })
        } else {
            Err(crate::errors::ErrorKind::InvalidArgument)
        }
    }
}

} // verus!
