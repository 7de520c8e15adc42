use vstd::prelude::*;

verus! {

/// An axis-aligned rectangle: the points `(px, py)` with
/// `x <= px < x + width` and `y <= py < y + height`, where the extent is the
/// width taken as an `i32`.
#[derive(Clone, Copy, Debug, PartialEq, Eq, Structural)]
pub struct Rect {
    pub x: i32,
    pub y: i32,
    pub width: u32,
    pub height: u32,
}

impl Rect {
    /// The right edge (exclusive): `x` plus the width taken as an `i32`.
    pub open spec fn right(self) -> int {
        self.x + (self.width as i32)
    }

    /// The bottom edge (exclusive).
    pub open spec fn bottom(self) -> int {
        self.y + (self.height as i32)
    }

    /// Both edges are representable as `i32` values.
    pub open spec fn fits(self) -> bool {
        &&& i32::MIN <= self.right() <= i32::MAX
        &&& i32::MIN <= self.bottom() <= i32::MAX
    }

    /// Point membership.
    pub open spec fn has(self, px: int, py: int) -> bool {
        &&& self.x <= px < self.right()
        &&& self.y <= py < self.bottom()
    }

    pub fn new(x: i32, y: i32, width: u32, height: u32) -> (r: Rect)
        ensures
            r == (Rect { x, y, width, height }),
    {
        Rect { x, y, width, height }
    }

    pub fn contains(&self, x: i32, y: i32) -> (b: bool)
        requires
            self.fits(),
        ensures
            b == self.has(x as int, y as int),
    {
        x >= self.x && x < self.x + self.width as i32 && y >= self.y && y < self.y
            + self.height as i32
    }

    pub fn intersects(&self, other: &Rect) -> (b: bool)
        requires
            self.fits(),
            other.fits(),
        ensures
            b == (self.x < other.right() && self.right() > other.x && self.y < other.bottom()
                && self.bottom() > other.y),
    {
        let self_max_x = self.x + self.width as i32;
        let self_max_y = self.y + self.height as i32;
        let other_max_x = other.x + other.width as i32;
        let other_max_y = other.y + other.height as i32;

        self.x < other_max_x && self_max_x > other.x && self.y < other_max_y && self_max_y > other.y
    }

    /// The overlap of two rectangles as computed by `intersection`: the
    /// corner is the larger of the corners and the far edges the smaller.
    pub open spec fn overlap(self, other: Rect) -> Option<Rect> {
        let x1 = if self.x >= other.x { self.x } else { other.x };
        let y1 = if self.y >= other.y { self.y } else { other.y };
        let x2 = if self.right() <= other.right() { self.right() } else { other.right() };
        let y2 = if self.bottom() <= other.bottom() { self.bottom() } else { other.bottom() };
        if x1 < x2 && y1 < y2 {
            Some(Rect { x: x1, y: y1, width: (x2 - x1) as u32, height: (y2 - y1) as u32 })
        } else {
            None
        }
    }

    pub fn intersection(&self, other: &Rect) -> (r: Option<Rect>)
        requires
            self.fits(),
            other.fits(),
        ensures
            r == self.overlap(*other),
    {
        let x1 = if self.x >= other.x { self.x } else { other.x };
        let y1 = if self.y >= other.y { self.y } else { other.y };
        let sx2 = self.x + self.width as i32;
        let ox2 = other.x + other.width as i32;
        let sy2 = self.y + self.height as i32;
        let oy2 = other.y + other.height as i32;
        let x2 = if sx2 <= ox2 { sx2 } else { ox2 };
        let y2 = if sy2 <= oy2 { sy2 } else { oy2 };

        if x1 < x2 && y1 < y2 {
            Some(Rect::new(x1, y1, (x2 - x1) as u32, (y2 - y1) as u32))
        } else {
            None
        }
    }
}

/// Two non-empty rectangles have an overlap exactly when they intersect, and a point
/// lies in the overlap exactly when it lies in both rectangles (where the
/// overlap's extent is representable as an `i32`).
pub proof fn lemma_overlap_is_common_part(a: Rect, b: Rect, px: int, py: int)
    requires
        a.fits(),
        b.fits(),
    ensures
        a.overlap(b) is Some <==> (a.x < b.right() && a.right() > b.x && a.y < b.bottom()
            && a.bottom() > b.y && a.x < a.right() && a.y < a.bottom() && b.x < b.right() && b.y
            < b.bottom()),
        a.overlap(b) matches Some(r) ==> (r.width <= i32::MAX && r.height <= i32::MAX ==> (
        r.has(px, py) <==> (a.has(px, py) && b.has(px, py)))),
        a.overlap(b) == b.overlap(a),
{
}

} // verus!
