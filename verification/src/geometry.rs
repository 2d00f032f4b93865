//! Plane geometry for the host's candidate windows: points, sizes and
//! rectangles over integer screen coordinates.

use vstd::prelude::*;

verus! {

/// A point on the screen.
#[derive(Debug, Clone, Copy, PartialEq, Eq, Structural)]
pub struct Point {
    pub x: i32,
    pub y: i32,
}

/// A width and a height.
#[derive(Debug, Clone, Copy, PartialEq, Eq, Structural)]
pub struct Size {
    pub w: i32,
    pub h: i32,
}

/// A rectangle: its top-left origin, width and height.
#[derive(Debug, Clone, Copy, PartialEq, Eq, Structural)]
pub struct Rect {
    pub o: Point,
    pub w: i32,
    pub h: i32,
}

impl Rect {
    /// A rectangle fits the screen arithmetic when its width and height
    /// are non-negative and its far edges stay in range.
    pub open spec fn wf(&self) -> bool {
        &&& 0 <= self.w
        &&& 0 <= self.h
        &&& self.o.x + self.w <= i32::MAX
        &&& self.o.y + self.h <= i32::MAX
    }

    pub fn new(origin: Point, width: i32, height: i32) -> (r: Rect)
        ensures
            r == (Rect { o: origin, w: width, h: height }),
    {
        Rect { o: origin, w: width, h: height }
    }

    /// The west (left) edge.
    pub fn w(&self) -> (r: i32)
        ensures
            r == self.o.x,
    {
        self.o.x
    }

    /// The east (right) edge.
    pub fn e(&self) -> (r: i32)
        requires
            self.wf(),
        ensures
            r == self.o.x + self.w,
    {
        self.o.x + self.w
    }

    /// The north (top) edge.
    pub fn n(&self) -> (r: i32)
        ensures
            r == self.o.y,
    {
        self.o.y
    }

    /// The south (bottom) edge.
    pub fn s(&self) -> (r: i32)
        requires
            self.wf(),
        ensures
            r == self.o.y + self.h,
    {
        self.o.y + self.h
    }

    pub fn size(&self) -> (r: Size)
        ensures
            r == (Size { w: self.w, h: self.h }),
    {
        Size { w: self.w, h: self.h }
    }

    pub fn o(&self) -> (r: Point)
        ensures
            r == self.o,
    {
        self.o
    }

    /// The center, rounded toward the origin.
    pub fn center(&self) -> (r: Point)
        requires
            self.wf(),
        ensures
            r.x == self.o.x + self.w / 2,
            r.y == self.o.y + self.h / 2,
    {
        Point { x: self.o.x + self.w / 2, y: self.o.y + self.h / 2 }
    }
}

} // verus!
