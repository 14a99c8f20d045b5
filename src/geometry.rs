use vstd::prelude::*;

verus! {

/// An axis-aligned rectangle in whole pixels; `w` and `h` are its extent.
#[derive(Clone, Copy, Debug, PartialEq, Eq, Structural)]
pub struct Rect {
    pub x: i32,
    pub y: i32,
    pub w: i32,
    pub h: i32,
}

impl Rect {
    pub open spec fn right(&self) -> int {
        self.x + self.w
    }

    pub open spec fn bottom(&self) -> int {
        self.y + self.h
    }

    pub fn new(x: i32, y: i32, w: i32, h: i32) -> (r: Rect)
        ensures
            r == (Rect { x, y, w, h }),
    {
        Rect { x, y, w, h }
    }

    /// Whether the point lies inside the rectangle (left and top edges included).
    pub fn contains_point(&self, px: i32, py: i32) -> (r: bool)
        ensures
            r == (self.x <= px < self.right() && self.y <= py < self.bottom()),
    {
        let (x, y, w, h) = (self.x as i64, self.y as i64, self.w as i64, self.h as i64);
        x <= px as i64 && (px as i64) < x + w && y <= py as i64 && (py as i64) < y + h
    }
}

pub open spec fn max_int(a: int, b: int) -> int {
    if a >= b { a } else { b }
}

pub open spec fn min_int(a: int, b: int) -> int {
    if a <= b { a } else { b }
}

/// Two rectangles overlap when they share an area of positive size.
pub open spec fn overlaps(a: Rect, b: Rect) -> bool {
    max_int(a.x as int, b.x as int) < min_int(a.right(), b.right()) && max_int(
        a.y as int,
        b.y as int,
    ) < min_int(a.bottom(), b.bottom())
}

/// The common part of two overlapping rectangles.
pub open spec fn overlap_rect(a: Rect, b: Rect) -> Rect {
    let x = max_int(a.x as int, b.x as int);
    let y = max_int(a.y as int, b.y as int);
    Rect {
        x: x as i32,
        y: y as i32,
        w: (min_int(a.right(), b.right()) - x) as i32,
        h: (min_int(a.bottom(), b.bottom()) - y) as i32,
    }
}

/// The rectangle-intersection test that is the sole collision primitive.
pub fn check_collision(a: Rect, b: Rect) -> (r: bool)
    requires
        a.w >= 0,
        b.w >= 0,
        a.h >= 0,
        b.h >= 0,
    ensures
        r == overlaps(a, b),
{
    intersection(a, b).is_some()
}

/// The overlap of two rectangles, or `None` when they share no area.
pub fn intersection(a: Rect, b: Rect) -> (r: Option<Rect>)
    requires
        a.w >= 0,
        b.w >= 0,
        a.h >= 0,
        b.h >= 0,
    ensures
        r == (if overlaps(a, b) {
            Some(overlap_rect(a, b))
        } else {
            None::<Rect>
        }),
        r matches Some(o) ==> 0 < o.w <= a.w && o.w <= b.w && 0 < o.h <= a.h && o.h <= b.h,
{
    let x1: i64 = if a.x >= b.x { a.x as i64 } else { b.x as i64 };
    let y1: i64 = if a.y >= b.y { a.y as i64 } else { b.y as i64 };
    let ar: i64 = a.x as i64 + a.w as i64;
    let br: i64 = b.x as i64 + b.w as i64;
    let ab: i64 = a.y as i64 + a.h as i64;
    let bb: i64 = b.y as i64 + b.h as i64;
    let x2: i64 = if ar <= br { ar } else { br };
    let y2: i64 = if ab <= bb { ab } else { bb };
    if x1 < x2 && y1 < y2 {
        Some(
            Rect { x: x1 as i32, y: y1 as i32, w: (x2 - x1) as i32, h: (y2 - y1) as i32 },
        )
    } else {
        None
    }
}

} // verus!
