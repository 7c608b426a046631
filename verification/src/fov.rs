//! The visibility oracle: which cells are in sight right now.
//!
//! The field of view itself is computed elsewhere; this is its result, held
//! cell by cell.

use vstd::prelude::*;

verus! {

/// The set of cells that are currently visible, over a grid of fixed size.
pub struct FovMap {
    width: i32,
    height: i32,
    visible: Vec<Vec<bool>>,
}

impl View for FovMap {
    type V = Seq<Seq<bool>>;

    /// The columns of the map: `self@[x][y]` tells whether `(x, y)` is in sight.
    closed spec fn view(&self) -> Seq<Seq<bool>> {
        Seq::new(self.visible@.len(), |x: int| self.visible@[x]@)
    }
}

impl FovMap {
    /// The number of columns.
    pub closed spec fn spec_width(&self) -> int {
        self.width as int
    }

    /// The number of rows.
    pub closed spec fn spec_height(&self) -> int {
        self.height as int
    }

    /// The map is rectangular and its size fits the coordinate type.
    pub open spec fn wf(&self) -> bool {
        &&& 0 <= self.spec_width() <= i32::MAX
        &&& 0 <= self.spec_height() <= i32::MAX
        &&& self@.len() == self.spec_width()
        &&& forall|x: int| 0 <= x < self@.len() ==> (#[trigger] self@[x]).len() == self.spec_height()
    }

    /// `(x, y)` names a cell of the map.
    pub open spec fn contains(&self, x: int, y: int) -> bool {
        0 <= x < self.spec_width() && 0 <= y < self.spec_height()
    }

    /// Whether the cell `(x, y)` is in sight.
    pub open spec fn sees(&self, x: int, y: int) -> bool
        recommends
            self.contains(x, y),
    {
        self@[x][y]
    }

    /// A map of the given size with nothing in sight.
    pub fn new(width: i32, height: i32) -> (fov: FovMap)
        requires
            0 <= width,
            0 <= height,
        ensures
            fov.wf(),
            fov.spec_width() == width,
            fov.spec_height() == height,
            forall|x: int, y: int| fov.contains(x, y) ==> !fov.sees(x, y),
    {
        let mut visible: Vec<Vec<bool>> = Vec::new();
        let mut x: i32 = 0;
        while x < width
            invariant
                0 <= x <= width,
                0 <= height,
                visible@.len() == x,
                forall|i: int| 0 <= i < x ==> (#[trigger] visible@[i])@.len() == height,
                forall|i: int, j: int| 0 <= i < x && 0 <= j < height ==> !(#[trigger] visible@[i]@[j]),
            decreases width - x,
        {
            let mut column: Vec<bool> = Vec::new();
            let mut y: i32 = 0;
            while y < height
                invariant
                    0 <= y <= height,
                    column@.len() == y,
                    forall|j: int| 0 <= j < y ==> !(#[trigger] column@[j]),
                decreases height - y,
            {
                column.push(false);
                y = y + 1;
            }
            visible.push(column);
            x = x + 1;
        }
        FovMap { width, height, visible }
    }

    /// The number of columns.
    pub fn width(&self) -> (w: i32)
        ensures
            w == self.spec_width(),
    {
        self.width
    }

    /// The number of rows.
    pub fn height(&self) -> (h: i32)
        ensures
            h == self.spec_height(),
    {
        self.height
    }

    /// Records whether the cell `(x, y)` is in sight.
    pub fn set(&mut self, x: i32, y: i32, in_sight: bool)
        requires
            old(self).wf(),
            old(self).contains(x as int, y as int),
        ensures
            final(self).wf(),
            final(self).spec_width() == old(self).spec_width(),
            final(self).spec_height() == old(self).spec_height(),
            final(self)@ == old(self)@.update(x as int, old(self)@[x as int].update(y as int, in_sight)),
    {
        assert(self@[x as int] == self.visible@[x as int]@);
        self.visible[x as usize][y as usize] = in_sight;
        proof {
            let updated = old(self)@.update(x as int, old(self)@[x as int].update(y as int, in_sight));
            assert forall|i: int| 0 <= i < self@.len() implies #[trigger] self@[i] == updated[i] by {}
        }
    }

    /// Whether the cell `(x, y)` is in sight.
    pub fn is_in_fov(&self, x: i32, y: i32) -> (b: bool)
        requires
            self.wf(),
            self.contains(x as int, y as int),
        ensures
            b == self.sees(x as int, y as int),
    {
        assert(self@[x as int] == self.visible@[x as int]@);
        self.visible[x as usize][y as usize]
    }
}

} // verus!
