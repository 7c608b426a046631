//! The tile grid: dense storage of the level's terrain.

use vstd::prelude::*;

verus! {

/// One cell of the level.
#[derive(Clone, Copy, Debug, PartialEq, Eq, Structural)]
pub struct Tile {
    /// Nothing can walk onto the tile.
    pub blocked: bool,
    /// The tile stops the line of sight.
    pub block_sight: bool,
    /// The tile has been seen at least once.
    pub explored: bool,
}

impl Tile {
    /// An unexplored floor tile.
    pub open spec fn spec_empty() -> Tile {
        Tile { blocked: false, block_sight: false, explored: false }
    }

    /// An unexplored wall tile.
    pub open spec fn spec_wall() -> Tile {
        Tile { blocked: true, block_sight: true, explored: false }
    }

    /// An unexplored floor tile.
    #[verifier::when_used_as_spec(spec_empty)]
    pub fn empty() -> (t: Tile)
        ensures
            t == Tile::spec_empty(),
    {
        Tile { blocked: false, block_sight: false, explored: false }
    }

    /// An unexplored wall tile.
    #[verifier::when_used_as_spec(spec_wall)]
    pub fn wall() -> (t: Tile)
        ensures
            t == Tile::spec_wall(),
    {
        Tile { blocked: true, block_sight: true, explored: false }
    }
}

/// A fixed-size grid of tiles, addressed by column `x` and row `y`.
pub struct TileGrid {
    width: i32,
    height: i32,
    tiles: Vec<Vec<Tile>>,
}

impl View for TileGrid {
    type V = Seq<Seq<Tile>>;

    /// The columns of the grid: `self@[x][y]` is the tile at `(x, y)`.
    closed spec fn view(&self) -> Seq<Seq<Tile>> {
        Seq::new(self.tiles@.len(), |x: int| self.tiles@[x]@)
    }
}

impl TileGrid {
    /// The number of columns.
    pub closed spec fn spec_width(&self) -> int {
        self.width as int
    }

    /// The number of rows.
    pub closed spec fn spec_height(&self) -> int {
        self.height as int
    }

    /// The grid is rectangular and its size fits the coordinate type.
    pub open spec fn wf(&self) -> bool {
        &&& 0 <= self.spec_width() <= i32::MAX
        &&& 0 <= self.spec_height() <= i32::MAX
        &&& self@.len() == self.spec_width()
        &&& forall|x: int| 0 <= x < self@.len() ==> (#[trigger] self@[x]).len() == self.spec_height()
    }

    /// `(x, y)` names a cell of the grid.
    pub open spec fn contains(&self, x: int, y: int) -> bool {
        0 <= x < self.spec_width() && 0 <= y < self.spec_height()
    }

    /// The tile at `(x, y)`.
    pub open spec fn tile_at(&self, x: int, y: int) -> Tile
        recommends
            self.contains(x, y),
    {
        self@[x][y]
    }

    /// A grid of the given size, all of it unexplored wall.
    pub fn new(width: i32, height: i32) -> (grid: TileGrid)
        requires
            0 <= width,
            0 <= height,
        ensures
            grid.wf(),
            grid.spec_width() == width,
            grid.spec_height() == height,
            forall|x: int, y: int| grid.contains(x, y) ==> grid.tile_at(x, y) == Tile::spec_wall(),
    {
        let mut tiles: Vec<Vec<Tile>> = Vec::new();
        let mut x: i32 = 0;
        while x < width
            invariant
                0 <= x <= width,
                0 <= height,
                tiles@.len() == x,
                forall|i: int| 0 <= i < x ==> (#[trigger] tiles@[i])@.len() == height,
                forall|i: int, j: int| 0 <= i < x && 0 <= j < height ==> (#[trigger] tiles@[i]@[j]) == Tile::spec_wall(),
            decreases width - x,
        {
            let mut column: Vec<Tile> = Vec::new();
            let mut y: i32 = 0;
            while y < height
                invariant
                    0 <= y <= height,
                    column@.len() == y,
                    forall|j: int| 0 <= j < y ==> (#[trigger] column@[j]) == Tile::spec_wall(),
                decreases height - y,
            {
                column.push(Tile::wall());
                y = y + 1;
            }
            tiles.push(column);
            x = x + 1;
        }
        TileGrid { width, height, tiles }
    }

    /// The number of columns.
    pub fn width(&self) -> (w: i32)
        ensures
            w == self.spec_width(),
    {
        self.width
    }

    /// The number of rows.
    pub fn height(&self) -> (h: i32)
        ensures
            h == self.spec_height(),
    {
        self.height
    }

    /// Whether `(x, y)` names a cell of the grid.
    pub fn in_bounds(&self, x: i32, y: i32) -> (b: bool)
        ensures
            b == self.contains(x as int, y as int),
    {
        0 <= x && x < self.width && 0 <= y && y < self.height
    }

    /// The tile at `(x, y)`.
    pub fn tile(&self, x: i32, y: i32) -> (t: Tile)
        requires
            self.wf(),
            self.contains(x as int, y as int),
        ensures
            t == self.tile_at(x as int, y as int),
    {
        assert(self@[x as int] == self.tiles@[x as int]@);
        self.tiles[x as usize][y as usize]
    }

    /// Replaces the tile at `(x, y)`.
    pub fn set_tile(&mut self, x: i32, y: i32, tile: Tile)
        requires
            old(self).wf(),
            old(self).contains(x as int, y as int),
        ensures
            final(self).wf(),
            final(self).spec_width() == old(self).spec_width(),
            final(self).spec_height() == old(self).spec_height(),
            final(self)@ == old(self)@.update(x as int, old(self)@[x as int].update(y as int, tile)),
    {
        assert(self@[x as int] == self.tiles@[x as int]@);
        self.tiles[x as usize][y as usize] = tile;
        proof {
            let updated = old(self)@.update(x as int, old(self)@[x as int].update(y as int, tile));
            assert forall|i: int| 0 <= i < self@.len() implies #[trigger] self@[i] == updated[i] by {}
        }
    }
}

} // verus!
