use vstd::prelude::*;

verus! {

/// An axis-aligned box in pixel coordinates, used transiently to test
/// whether the ball's bounding box touches a paddle's bounding box.
#[derive(Clone, Copy)]
pub struct Rectangle {
    pub x: usize,
    pub y: usize,
    pub width: usize,
    pub height: usize,
}

impl Rectangle {
    /// The far edges can be computed without usize overflow.
    pub open spec fn fits(self) -> bool {
        self.x + self.width <= usize::MAX && self.y + self.height <= usize::MAX
    }
}

/// Two closed boxes overlap unless one lies strictly beyond the other
/// along one of the two axes (separating-axis test).
pub open spec fn overlapping(r1: Rectangle, r2: Rectangle) -> bool {
    r1.y <= r2.y + r2.height
        && r2.y <= r1.y + r1.height
        && r2.x <= r1.x + r1.width
        && r1.x <= r2.x + r2.width
}

pub fn rectangles_overlapping(rec1: Rectangle, rec2: Rectangle) -> (r: bool)
    requires
        rec1.fits(),
        rec2.fits(),
    ensures
        r == overlapping(rec1, rec2),
{
    !(rec1.y > rec2.y + rec2.height
        || rec2.y > rec1.y + rec1.height
        || rec1.x + rec1.width < rec2.x
        || rec2.x + rec2.width < rec1.x)
}

} // verus!
