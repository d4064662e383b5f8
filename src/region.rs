use vstd::prelude::*;

verus! {

/// Rectangle of texture pixels between corners `(x1, y1)` and `(x2, y2)`.
#[derive(Clone, Copy, Debug, PartialEq, Eq, Structural)]
pub struct TextureRegion {
    pub x1: i32,
    pub y1: i32,
    pub x2: i32,
    pub y2: i32,
}

impl TextureRegion {
    pub fn new(x1: i32, y1: i32, x2: i32, y2: i32) -> (r: Self)
        ensures
            r == (TextureRegion { x1, y1, x2, y2 }),
    {
        TextureRegion { x1, y1, x2, y2 }
    }

    pub fn width(&self) -> (r: i32)
        requires
            i32::MIN <= self.x2 - self.x1 <= i32::MAX,
        ensures
            r == self.x2 - self.x1,
    {
        self.x2 - self.x1
    }

    pub fn height(&self) -> (r: i32)
        requires
            i32::MIN <= self.y2 - self.y1 <= i32::MAX,
        ensures
            r == self.y2 - self.y1,
    {
        self.y2 - self.y1
    }

    /// Swaps coordinates where needed so that `(x1, y1)` is the corner with
    /// the smaller coordinates.
    pub fn reorient(&mut self)
        ensures
            final(self).x1 == if old(self).x1 <= old(self).x2 { old(self).x1 } else { old(self).x2 },
            final(self).x2 == if old(self).x1 <= old(self).x2 { old(self).x2 } else { old(self).x1 },
            final(self).y1 == if old(self).y1 <= old(self).y2 { old(self).y1 } else { old(self).y2 },
            final(self).y2 == if old(self).y1 <= old(self).y2 { old(self).y2 } else { old(self).y1 },
    {
        if self.x1 > self.x2 {
            std::mem::swap(&mut self.x1, &mut self.x2);
        }
        if self.y1 > self.y2 {
            std::mem::swap(&mut self.y1, &mut self.y2);
        }
    }

    /// Moves the region by `(dx, dy)`.
    pub fn displace(&mut self, dx: i32, dy: i32)
        requires
            i32::MIN <= old(self).x1 + dx <= i32::MAX,
            i32::MIN <= old(self).x2 + dx <= i32::MAX,
            i32::MIN <= old(self).y1 + dy <= i32::MAX,
            i32::MIN <= old(self).y2 + dy <= i32::MAX,
        ensures
            *final(self) == (TextureRegion {
                x1: (old(self).x1 + dx) as i32,
                y1: (old(self).y1 + dy) as i32,
                x2: (old(self).x2 + dx) as i32,
                y2: (old(self).y2 + dy) as i32,
            }),
    {
        self.x1 = self.x1 + dx;
        self.x2 = self.x2 + dx;
        self.y1 = self.y1 + dy;
        self.y2 = self.y2 + dy;
    }
}

} // verus!
