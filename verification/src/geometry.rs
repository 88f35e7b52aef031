use vstd::prelude::*;

verus! {

/// A point on the display; `y` grows downwards.
#[derive(Clone, Copy, Debug, PartialEq, Eq, Structural)]
pub struct Point {
    pub x: i32,
    pub y: i32,
}

/// A width and a height in pixels.
#[derive(Clone, Copy, Debug, PartialEq, Eq, Structural)]
pub struct Size {
    pub width: u32,
    pub height: u32,
}

/// An axis-aligned rectangle given by its top left corner and its size.
#[derive(Clone, Copy, Debug, PartialEq, Eq, Structural)]
pub struct Rectangle {
    pub top_left: Point,
    pub size: Size,
}

/// Whether `v` is a value of `i32`.
pub open spec fn fits_i32(v: int) -> bool {
    i32::MIN <= v <= i32::MAX
}

pub open spec fn min_int(a: int, b: int) -> int {
    if a <= b {
        a
    } else {
        b
    }
}

impl Point {
    /// Builds a point from its coordinates.
    pub fn new(x: i32, y: i32) -> (p: Point)
        ensures
            p == (Point { x, y }),
    {
        Point { x, y }
    }

    /// Moves the point by the coordinates of `by`.
    pub fn translate(self, by: Point) -> (p: Point)
        requires
            fits_i32(self.x + by.x),
            fits_i32(self.y + by.y),
        ensures
            p.x == self.x + by.x,
            p.y == self.y + by.y,
    {
        Point { x: self.x + by.x, y: self.y + by.y }
    }

    /// Moves the point right by the width and down by the height of `size`.
    pub fn add_size(self, size: Size) -> (p: Point)
        requires
            size.width <= i32::MAX,
            size.height <= i32::MAX,
            fits_i32(self.x + size.width),
            fits_i32(self.y + size.height),
        ensures
            p.x == self.x + size.width,
            p.y == self.y + size.height,
    {
        Point { x: self.x + size.width as i32, y: self.y + size.height as i32 }
    }

    /// Moves the point left by the width and up by the height of `size`.
    pub fn sub_size(self, size: Size) -> (p: Point)
        requires
            size.width <= i32::MAX,
            size.height <= i32::MAX,
            fits_i32(self.x - size.width),
            fits_i32(self.y - size.height),
        ensures
            p.x == self.x - size.width,
            p.y == self.y - size.height,
    {
        Point { x: self.x - size.width as i32, y: self.y - size.height as i32 }
    }
}

impl Size {
    /// Builds a size from a width and a height.
    pub fn new(width: u32, height: u32) -> (s: Size)
        ensures
            s == (Size { width, height }),
    {
        Size { width, height }
    }
}

impl Rectangle {
    /// Builds a rectangle from its top left corner and its size.
    pub fn new(top_left: Point, size: Size) -> (r: Rectangle)
        ensures
            r == (Rectangle { top_left, size }),
    {
        Rectangle { top_left, size }
    }

    /// The number of columns the rectangle's points cover: its width, cut
    /// where the coordinates would pass `i32::MAX`.
    pub open spec fn column_count(self) -> int {
        if self.size.width == 0 || self.size.height == 0 {
            0
        } else {
            min_int(min_int(self.size.width as int, i32::MAX as int), i32::MAX - self.top_left.x)
        }
    }

    /// The number of rows the rectangle's points cover: its height, cut where
    /// the coordinates would pass `i32::MAX`.
    pub open spec fn row_count(self) -> int {
        if self.size.width == 0 || self.size.height == 0 {
            0
        } else {
            min_int(min_int(self.size.height as int, i32::MAX as int), i32::MAX - self.top_left.y)
        }
    }

    /// The number of points of the rectangle.
    pub open spec fn point_count(self) -> int {
        self.column_count() * self.row_count()
    }

    /// The `i`-th point of the rectangle, the points taken row by row from the
    /// top, each row from left to right.
    pub open spec fn point_at(self, i: int) -> Point {
        Point {
            x: (self.top_left.x + i % self.column_count()) as i32,
            y: (self.top_left.y + i / self.column_count()) as i32,
        }
    }

    /// Whether `p` lies inside the rectangle.
    pub open spec fn contains(self, p: Point) -> bool {
        &&& self.top_left.x <= p.x < self.top_left.x + self.size.width
        &&& self.top_left.y <= p.y < self.top_left.y + self.size.height
    }
}


/// A rectangle no wider or taller than `i32::MAX` that stays clear of the
/// coordinate limit covers exactly its width in columns and its height in rows; an empty one covers no point.
pub proof fn lemma_counts_of_unclipped_rectangle(r: Rectangle)
    ensures
        r.size.width == 0 || r.size.height == 0 ==> r.point_count() == 0,
        r.size.width > 0 && r.size.height > 0 && r.size.width <= i32::MAX && r.top_left.x
            + r.size.width <= i32::MAX
            ==> r.column_count() == r.size.width,
        r.size.width > 0 && r.size.height > 0 && r.size.height <= i32::MAX && r.top_left.y
            + r.size.height <= i32::MAX
            ==> r.row_count() == r.size.height,
{
}

} // verus!
