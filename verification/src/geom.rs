//! Axis-aligned rectangles on an integer canvas.
//!
//! Coordinates are whole canvas units, with `x` growing to the right and `y`
//! growing upwards. A rectangle is stored by its four edges, so that tiling,
//! merging and padding are exact. The centre of a rectangle may lie half a
//! unit off the grid; it is therefore reported doubled.
//!
//! A canvas is a [`Rect`], in whole units. The items of a layout are
//! [`GridRect`]s: their edges are fractions of a unit, `x` over the number of
//! columns and `y` over the number of rows, so that the cells of a grid are
//! all of one size and fill the region they are cut from.

use vstd::prelude::*;

verus! {

/// An axis-aligned rectangle, given by its edges.
#[derive(Clone, Copy, Debug, PartialEq, Eq, Structural)]
pub struct Rect {
    pub left: i32,
    pub right: i32,
    pub bottom: i32,
    pub top: i32,
}

/// A point with doubled coordinates: `x2` is twice its abscissa and `y2`
/// twice its ordinate, in the units of the rectangle it belongs to.
///
/// Midpoints of integer edges are exact in this form.
#[derive(Clone, Copy, Debug, PartialEq, Eq, Structural)]
pub struct HalfPoint {
    pub x2: i128,
    pub y2: i128,
}

/// An axis-aligned rectangle whose edges are fractions of a canvas unit:
/// `left` and `right` count `x_den`-ths of a unit, `bottom` and `top`
/// `y_den`-ths.
#[derive(Clone, Copy, Debug, PartialEq, Eq, Structural)]
pub struct GridRect {
    pub left: i64,
    pub right: i64,
    pub bottom: i64,
    pub top: i64,
    pub x_den: i32,
    pub y_den: i32,
}

impl Rect {
    /// A rectangle is well formed when it is not inverted on either axis.
    pub open spec fn wf(self) -> bool {
        self.left <= self.right && self.bottom <= self.top
    }

    /// Width, `right - left`.
    pub open spec fn spec_w(self) -> int {
        self.right - self.left
    }

    /// Height, `top - bottom`.
    pub open spec fn spec_h(self) -> int {
        self.top - self.bottom
    }

    /// Twice the abscissa of the centre.
    pub open spec fn spec_center_x2(self) -> int {
        self.left + self.right
    }

    /// Twice the ordinate of the centre.
    pub open spec fn spec_center_y2(self) -> int {
        self.bottom + self.top
    }

    /// Whether the four edges, moved inwards by `pad`, are still coordinates.
    pub open spec fn pad_fits(self, pad: int) -> bool {
        &&& i32::MIN <= self.left + pad <= i32::MAX
        &&& i32::MIN <= self.right - pad <= i32::MAX
        &&& i32::MIN <= self.bottom + pad <= i32::MAX
        &&& i32::MIN <= self.top - pad <= i32::MAX
    }

    /// The rectangle with every edge moved inwards by `pad` (outwards when
    /// `pad` is negative).
    pub open spec fn spec_pad(self, pad: int) -> Rect {
        Rect {
            left: (self.left + pad) as i32,
            right: (self.right - pad) as i32,
            bottom: (self.bottom + pad) as i32,
            top: (self.top - pad) as i32,
        }
    }

    /// The rectangle with its nearest edges moved out to the point `(x, y)`
    /// where the point lies beyond them.
    pub open spec fn spec_stretch_to_point(self, x: i32, y: i32) -> Rect {
        Rect {
            left: if x < self.left { x } else { self.left },
            right: if x > self.right { x } else { self.right },
            bottom: if y < self.bottom { y } else { self.bottom },
            top: if y > self.top { y } else { self.top },
        }
    }

    /// Width of the rectangle.
    pub fn w(self) -> (r: i64)
        ensures
            r == self.spec_w(),
    {
        self.right as i64 - self.left as i64
    }

    /// Height of the rectangle.
    pub fn h(self) -> (r: i64)
        ensures
            r == self.spec_h(),
    {
        self.top as i64 - self.bottom as i64
    }

    /// Twice the abscissa of the centre.
    pub fn center_x2(self) -> (r: i64)
        ensures
            r == self.spec_center_x2(),
    {
        self.left as i64 + self.right as i64
    }

    /// Twice the ordinate of the centre.
    pub fn center_y2(self) -> (r: i64)
        ensures
            r == self.spec_center_y2(),
    {
        self.bottom as i64 + self.top as i64
    }

    /// Shrinks the rectangle by a uniform margin: every edge moves inwards by
    /// `pad`. A negative `pad` grows it.
    ///
    /// The size changes by twice the margin on each axis and the centre stays
    /// where it was. The result is well formed exactly when the margin is at
    /// most half of either dimension.
    pub fn pad(self, pad: i32) -> (r: Rect)
        requires
            self.pad_fits(pad as int),
        ensures
            r == self.spec_pad(pad as int),
            r.left == self.left + pad,
            r.right == self.right - pad,
            r.bottom == self.bottom + pad,
            r.top == self.top - pad,
            r.spec_w() == self.spec_w() - 2 * pad,
            r.spec_h() == self.spec_h() - 2 * pad,
            r.spec_center_x2() == self.spec_center_x2(),
            r.spec_center_y2() == self.spec_center_y2(),
            r.wf() <==> 2 * pad <= self.spec_w() && 2 * pad <= self.spec_h(),
    {
        Rect {
            left: self.left + pad,
            right: self.right - pad,
            bottom: self.bottom + pad,
            top: self.top - pad,
        }
    }

    /// Stretches the rectangle so that it includes the point `(x, y)`: each
    /// edge that the point lies beyond moves out to the point, the others
    /// stay.
    pub fn stretch_to_point(self, x: i32, y: i32) -> (r: Rect)
        ensures
            r == self.spec_stretch_to_point(x, y),
            self.wf() ==> r.wf(),
    {
        Rect {
            left: if x < self.left { x } else { self.left },
            right: if x > self.right { x } else { self.right },
            bottom: if y < self.bottom { y } else { self.bottom },
            top: if y > self.top { y } else { self.top },
        }
    }
}

impl GridRect {
    /// A rectangle is well formed when its denominators are positive and it
    /// is not inverted on either axis.
    pub open spec fn wf(self) -> bool {
        self.x_den >= 1 && self.y_den >= 1 && self.left <= self.right && self.bottom <= self.top
    }

    /// Width in `x_den`-ths of a unit, `right - left`.
    pub open spec fn spec_w(self) -> int {
        self.right - self.left
    }

    /// Height in `y_den`-ths of a unit, `top - bottom`.
    pub open spec fn spec_h(self) -> int {
        self.top - self.bottom
    }

    /// Twice the abscissa of the centre, in `x_den`-ths of a unit.
    pub open spec fn spec_center_x2(self) -> int {
        self.left + self.right
    }

    /// Twice the ordinate of the centre, in `y_den`-ths of a unit.
    pub open spec fn spec_center_y2(self) -> int {
        self.bottom + self.top
    }

    /// Whether the four edges, moved inwards by `pad` units, are still
    /// coordinates.
    pub open spec fn pad_fits(self, pad: int) -> bool {
        &&& i64::MIN <= self.left + pad * self.x_den <= i64::MAX
        &&& i64::MIN <= self.right - pad * self.x_den <= i64::MAX
        &&& i64::MIN <= self.bottom + pad * self.y_den <= i64::MAX
        &&& i64::MIN <= self.top - pad * self.y_den <= i64::MAX
    }

    /// The rectangle with every edge moved inwards by `pad` units (outwards
    /// when `pad` is negative).
    pub open spec fn spec_pad(self, pad: int) -> GridRect {
        GridRect {
            left: (self.left + pad * self.x_den) as i64,
            right: (self.right - pad * self.x_den) as i64,
            bottom: (self.bottom + pad * self.y_den) as i64,
            top: (self.top - pad * self.y_den) as i64,
            x_den: self.x_den,
            y_den: self.y_den,
        }
    }

    /// The rectangle with its nearest edges moved out to the point `(x, y)`,
    /// given in the fractions of the rectangle, where the point lies beyond
    /// them.
    pub open spec fn spec_stretch_to_point(self, x: i64, y: i64) -> GridRect {
        GridRect {
            left: if x < self.left { x } else { self.left },
            right: if x > self.right { x } else { self.right },
            bottom: if y < self.bottom { y } else { self.bottom },
            top: if y > self.top { y } else { self.top },
            x_den: self.x_den,
            y_den: self.y_den,
        }
    }

    /// Width of the rectangle, in `x_den`-ths of a unit.
    pub fn w(self) -> (r: i128)
        ensures
            r == self.spec_w(),
    {
        self.right as i128 - self.left as i128
    }

    /// Height of the rectangle, in `y_den`-ths of a unit.
    pub fn h(self) -> (r: i128)
        ensures
            r == self.spec_h(),
    {
        self.top as i128 - self.bottom as i128
    }

    /// Twice the abscissa of the centre, in `x_den`-ths of a unit.
    pub fn center_x2(self) -> (r: i128)
        ensures
            r == self.spec_center_x2(),
    {
        self.left as i128 + self.right as i128
    }

    /// Twice the ordinate of the centre, in `y_den`-ths of a unit.
    pub fn center_y2(self) -> (r: i128)
        ensures
            r == self.spec_center_y2(),
    {
        self.bottom as i128 + self.top as i128
    }

    /// Shrinks the rectangle by a uniform margin of `pad` units: every edge
    /// moves inwards by `pad`. A negative `pad` grows it.
    ///
    /// The size changes by twice the margin on each axis and the centre stays
    /// where it was. The result is not inverted exactly when the margin is at
    /// most half of either dimension.
    pub fn pad(self, pad: i32) -> (r: GridRect)
        requires
            self.pad_fits(pad as int),
        ensures
            r == self.spec_pad(pad as int),
            r.left == self.left + pad * self.x_den,
            r.right == self.right - pad * self.x_den,
            r.bottom == self.bottom + pad * self.y_den,
            r.top == self.top - pad * self.y_den,
            r.x_den == self.x_den,
            r.y_den == self.y_den,
            r.spec_w() == self.spec_w() - 2 * (pad * self.x_den),
            r.spec_h() == self.spec_h() - 2 * (pad * self.y_den),
            r.spec_center_x2() == self.spec_center_x2(),
            r.spec_center_y2() == self.spec_center_y2(),
    {
        let dx: i128 = pad as i128 * self.x_den as i128;
        let dy: i128 = pad as i128 * self.y_den as i128;
        assert(dx == pad * self.x_den && dy == pad * self.y_den) by (nonlinear_arith)
            requires
                dx == (pad as i128) * (self.x_den as i128),
                dy == (pad as i128) * (self.y_den as i128),
        ;
        GridRect {
            left: (self.left as i128 + dx) as i64,
            right: (self.right as i128 - dx) as i64,
            bottom: (self.bottom as i128 + dy) as i64,
            top: (self.top as i128 - dy) as i64,
            x_den: self.x_den,
            y_den: self.y_den,
        }
    }

    /// Stretches the rectangle so that it includes the point `(x, y)`, given
    /// in the fractions of the rectangle: each edge that the point lies
    /// beyond moves out to the point, the others stay.
    pub fn stretch_to_point(self, x: i64, y: i64) -> (r: GridRect)
        ensures
            r == self.spec_stretch_to_point(x, y),
            self.wf() ==> r.wf(),
    {
        GridRect {
            left: if x < self.left { x } else { self.left },
            right: if x > self.right { x } else { self.right },
            bottom: if y < self.bottom { y } else { self.bottom },
            top: if y > self.top { y } else { self.top },
            x_den: self.x_den,
            y_den: self.y_den,
        }
    }
}

} // verus!
