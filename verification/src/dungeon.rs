//! Procedural level generation: rooms placed by rejection sampling and joined
//! by L-shaped corridors.

use crate::grid::Tile;
use crate::grid::TileGrid;
use crate::random::RandomSource;
use crate::rect::Rect;
use vstd::prelude::*;

verus! {

/// Width of the standard level, in tiles.
pub const MAP_WIDTH: i32 = 80;

/// Height of the standard level, in tiles.
pub const MAP_HEIGHT: i32 = 45;

/// Largest side of a room of the standard level.
pub const ROOM_MAX_SIZE: i32 = 10;

/// Smallest side of a room of the standard level.
pub const ROOM_MIN_SIZE: i32 = 6;

/// Number of placement attempts for the standard level.
pub const MAX_ROOMS: i32 = 30;

/// `v` lies between `a` and `b`, whichever of the two is smaller.
pub open spec fn between(a: int, b: int, v: int) -> bool {
    (a <= v <= b) || (b <= v <= a)
}

/// `(x, y)` lies on the L-shaped corridor from `a` to `b`.
///
/// With `horizontal_first` the corridor leaves `a` along its row and reaches
/// `b` along `b`'s column; otherwise it leaves `a` along its column and
/// reaches `b` along `b`'s row.
pub open spec fn corridor(a: (int, int), b: (int, int), horizontal_first: bool, x: int, y: int) -> bool {
    if horizontal_first {
        (y == a.1 && between(a.0, b.0, x)) || (x == b.0 && between(a.1, b.1, y))
    } else {
        (x == a.0 && between(a.1, b.1, y)) || (y == b.1 && between(a.0, b.0, x))
    }
}

/// `candidate` intersects none of `rooms`.
pub open spec fn fits(rooms: Seq<Rect>, candidate: Rect) -> bool {
    forall|i: int| #![trigger rooms[i]] 0 <= i < rooms.len() ==> !candidate.spec_intersects_with(&rooms[i])
}

/// No two of `rooms` intersect.
pub open spec fn rooms_disjoint(rooms: Seq<Rect>) -> bool {
    forall|i: int, j: int|
        #![trigger rooms[i], rooms[j]]
        0 <= i < j < rooms.len() ==> !rooms[i].spec_intersects_with(&rooms[j])
}

/// `room` has a non-negative extent and lies inside the grid, clear of its
/// right and bottom edges.
pub open spec fn room_in_grid(grid: &TileGrid, room: Rect) -> bool {
    &&& room.wf()
    &&& 0 <= room.width
    &&& 0 <= room.height
    &&& 0 <= room.left
    &&& 0 <= room.top
    &&& room.right < grid.spec_width()
    &&& room.bottom < grid.spec_height()
}

/// The mathematical content of a level under construction: the rooms accepted
/// so far, in order, and the set of cells that have been carved out.
pub struct Layout {
    pub rooms: Seq<Rect>,
    pub floor: Set<(int, int)>,
}

impl Layout {
    /// The layout of a level that is all wall.
    pub open spec fn solid() -> Layout {
        Layout { rooms: Seq::empty(), floor: Set::empty() }
    }

    /// The cells carved when `room` is accepted: the cells it covers and, if
    /// there is a room before it, the corridor from that room's center to its
    /// own.
    pub open spec fn carving(self, room: Rect, horizontal_first: bool) -> Set<(int, int)> {
        Set::new(
            |c: (int, int)|
                room.covers(c.0, c.1) || (self.rooms.len() > 0 && corridor(
                    self.rooms.last().spec_center(),
                    room.spec_center(),
                    horizontal_first,
                    c.0,
                    c.1,
                )),
        )
    }

    /// Every cell that a room covers is carved.
    pub open spec fn rooms_carved(self) -> bool {
        forall|i: int, x: int, y: int|
            0 <= i < self.rooms.len() && #[trigger] self.rooms[i].covers(x, y) ==> self.floor.contains((x, y))
    }

    /// Every cell of the corridor from `a` to `b` is carved.
    pub open spec fn corridor_carved(self, a: (int, int), b: (int, int), horizontal_first: bool) -> bool {
        forall|x: int, y: int| #[trigger] corridor(a, b, horizontal_first, x, y) ==> self.floor.contains((x, y))
    }

    /// Room `i` is joined to the room before it: one of the two L-shaped
    /// corridors between their centers is carved from end to end.
    pub open spec fn joined_at(self, i: int) -> bool {
        let a = self.rooms[i - 1].spec_center();
        let b = self.rooms[i].spec_center();
        self.corridor_carved(a, b, true) || self.corridor_carved(a, b, false)
    }

    /// Every room but the first is joined to the room before it.
    pub open spec fn joined(self) -> bool {
        forall|i: int| 1 <= i < self.rooms.len() ==> #[trigger] self.joined_at(i)
    }

    /// One placement attempt: `room` is accepted iff it intersects no earlier
    /// room; a rejected room changes nothing.
    pub open spec fn place(self, room: Rect, horizontal_first: bool) -> Layout {
        if fits(self.rooms, room) {
            Layout {
                rooms: self.rooms.push(room),
                floor: self.floor.union(self.carving(room, horizontal_first)),
            }
        } else {
            self
        }
    }
}

impl TileGrid {
    /// The grid is made of pristine terrain: every tile is an unexplored wall
    /// or an unexplored floor.
    pub open spec fn pristine(&self) -> bool {
        forall|x: int, y: int|
            self.contains(x, y) ==> {
                let t = #[trigger] self.tile_at(x, y);
                t == Tile::spec_wall() || t == Tile::spec_empty()
            }
    }

    /// The cells of the grid that can be walked on.
    pub open spec fn floor(&self) -> Set<(int, int)> {
        Set::new(|c: (int, int)| self.contains(c.0, c.1) && !self.tile_at(c.0, c.1).blocked)
    }

    /// Carves out the cells that `room` covers, and no others.
    pub fn create_room(&mut self, room: Rect)
        requires
            old(self).wf(),
            forall|x: int, y: int| #[trigger] room.covers(x, y) ==> old(self).contains(x, y),
        ensures
            final(self).wf(),
            final(self).spec_width() == old(self).spec_width(),
            final(self).spec_height() == old(self).spec_height(),
            forall|x: int, y: int|
                old(self).contains(x, y) ==> #[trigger] final(self).tile_at(x, y) == if room.covers(x, y) {
                    Tile::spec_empty()
                } else {
                    old(self).tile_at(x, y)
                },
    {
        let mut j: i32 = 0;
        while j < room.height
            invariant
                0 <= j,
                j <= room.height || room.height < 0,
                self.wf(),
                forall|x: int, y: int| #[trigger] room.covers(x, y) ==> self.contains(x, y),
                self.spec_width() == old(self).spec_width(),
                self.spec_height() == old(self).spec_height(),
                forall|x: int, y: int|
                    old(self).contains(x, y) ==> #[trigger] self.tile_at(x, y) == if room.covers(x, y) && y
                        < room.top + j {
                        Tile::spec_empty()
                    } else {
                        old(self).tile_at(x, y)
                    },
            decreases room.height - j,
        {
            let mut i: i32 = 0;
            while i < room.width
                invariant
                    0 <= i,
                    i <= room.width || room.width < 0,
                    0 <= j < room.height,
                    self.wf(),
                    forall|x: int, y: int| #[trigger] room.covers(x, y) ==> self.contains(x, y),
                    self.spec_width() == old(self).spec_width(),
                    self.spec_height() == old(self).spec_height(),
                    forall|x: int, y: int|
                        old(self).contains(x, y) ==> #[trigger] self.tile_at(x, y) == if room.covers(x, y) && (y
                            < room.top + j || (y == room.top + j && x < room.left + i)) {
                            Tile::spec_empty()
                        } else {
                            old(self).tile_at(x, y)
                        },
                decreases room.width - i,
            {
                assert(room.covers(room.left + i, room.top + j));
                let ghost before = *self;
                self.set_tile(room.left + i, room.top + j, Tile::empty());
                assert forall|x: int, y: int| old(self).contains(x, y) implies #[trigger] self.tile_at(x, y)
                    == if x == room.left + i && y == room.top + j {
                    Tile::spec_empty()
                } else {
                    before.tile_at(x, y)
                } by {}
                i = i + 1;
            }
            j = j + 1;
        }
    }

    /// Carves the cells of row `y` from column `x1` to column `x2`, both included.
    pub fn create_h_tunnel(&mut self, x1: i32, x2: i32, y: i32)
        requires
            old(self).wf(),
            old(self).contains(x1 as int, y as int),
            old(self).contains(x2 as int, y as int),
        ensures
            final(self).wf(),
            final(self).spec_width() == old(self).spec_width(),
            final(self).spec_height() == old(self).spec_height(),
            forall|x: int, yy: int|
                old(self).contains(x, yy) ==> #[trigger] final(self).tile_at(x, yy) == if yy == y && between(
                    x1 as int,
                    x2 as int,
                    x,
                ) {
                    Tile::spec_empty()
                } else {
                    old(self).tile_at(x, yy)
                },
    {
        let left = if x1 <= x2 { x1 } else { x2 };
        let width = if x1 <= x2 { 1 + (x2 - x1) } else { 1 + (x1 - x2) };
        self.create_room(Rect::new(left, y, width, 1));
    }

    /// Carves the cells of column `x` from row `y1` to row `y2`, both included.
    pub fn create_v_tunnel(&mut self, x: i32, y1: i32, y2: i32)
        requires
            old(self).wf(),
            old(self).contains(x as int, y1 as int),
            old(self).contains(x as int, y2 as int),
        ensures
            final(self).wf(),
            final(self).spec_width() == old(self).spec_width(),
            final(self).spec_height() == old(self).spec_height(),
            forall|xx: int, y: int|
                old(self).contains(xx, y) ==> #[trigger] final(self).tile_at(xx, y) == if xx == x && between(
                    y1 as int,
                    y2 as int,
                    y,
                ) {
                    Tile::spec_empty()
                } else {
                    old(self).tile_at(xx, y)
                },
    {
        let top = if y1 <= y2 { y1 } else { y2 };
        let height = if y1 <= y2 { 1 + (y2 - y1) } else { 1 + (y1 - y2) };
        self.create_room(Rect::new(x, top, 1, height));
    }
}

/// The layout that a sequence of placement attempts leaves behind, starting
/// from solid rock. Each attempt is a candidate room and the coin that picks
/// the shape of its corridor.
pub open spec fn layout_of(attempts: Seq<(Rect, bool)>) -> Layout
    decreases attempts.len(),
{
    if attempts.len() == 0 {
        Layout::solid()
    } else {
        layout_of(attempts.drop_last()).place(attempts.last().0, attempts.last().1)
    }
}

/// Whatever is attempted, the rooms that are accepted never intersect, there
/// are no more of them than attempts, the first attempt is always accepted,
/// every accepted room is carved out, and every accepted room but the first is
/// joined to the one accepted before it.
pub proof fn lemma_layout_of(attempts: Seq<(Rect, bool)>)
    ensures
        rooms_disjoint(layout_of(attempts).rooms),
        layout_of(attempts).rooms.len() <= attempts.len(),
        attempts.len() > 0 ==> layout_of(attempts).rooms.len() > 0 && layout_of(attempts).rooms[0]
            == attempts[0].0,
        layout_of(attempts).rooms_carved(),
        layout_of(attempts).joined(),
    decreases attempts.len(),
{
    if attempts.len() > 0 {
        let earlier = attempts.drop_last();
        let before = layout_of(earlier);
        let room = attempts.last().0;
        let coin = attempts.last().1;
        let after = layout_of(attempts);
        lemma_layout_of(earlier);
        if fits(before.rooms, room) {
            assert forall|i: int| 1 <= i < after.rooms.len() implies #[trigger] after.joined_at(i) by {
                if i < before.rooms.len() {
                    assert(before.joined_at(i));
                } else {
                    assert(after.corridor_carved(
                        after.rooms[i - 1].spec_center(),
                        after.rooms[i].spec_center(),
                        coin,
                    ));
                }
            }
        }
    }
}

/// The parameters of level generation.
#[derive(Clone, Copy, Debug)]
pub struct GenerationConfig {
    /// Width of the grid.
    pub width: i32,
    /// Height of the grid.
    pub height: i32,
    /// Smallest side of a room.
    pub room_min_size: i32,
    /// Largest side of a room.
    pub room_max_size: i32,
    /// Number of placement attempts.
    pub max_rooms: i32,
}

impl GenerationConfig {
    /// The room sizes form a range, the largest room leaves a free column and a
    /// free row in the grid, and at least one placement is attempted.
    pub open spec fn valid(&self) -> bool {
        &&& 0 <= self.room_min_size <= self.room_max_size
        &&& self.room_max_size < self.width
        &&& self.room_max_size < self.height
        &&& 1 <= self.max_rooms
    }

    /// `room` is a candidate that generation may sample: its sides are within
    /// the size bounds and it lies in the grid, clear of the right and bottom
    /// edges.
    pub open spec fn admits(&self, room: Rect) -> bool {
        &&& room.wf()
        &&& self.room_min_size <= room.width <= self.room_max_size
        &&& self.room_min_size <= room.height <= self.room_max_size
        &&& 0 <= room.left < self.width - room.width
        &&& 0 <= room.top < self.height - room.height
    }

    /// `layout` is what generation with these parameters can leave behind:
    /// the layout of `max_rooms` placement attempts with admissible candidates.
    pub open spec fn yields(&self, layout: Layout) -> bool {
        exists|attempts: Seq<(Rect, bool)>|
            {
                &&& attempts.len() == self.max_rooms
                &&& forall|k: int| 0 <= k < attempts.len() ==> self.admits((#[trigger] attempts[k]).0)
                &&& layout == #[trigger] layout_of(attempts)
            }
    }

    /// The parameters of the standard level.
    pub fn standard() -> (config: GenerationConfig)
        ensures
            config.valid(),
            config == (GenerationConfig {
                width: MAP_WIDTH,
                height: MAP_HEIGHT,
                room_min_size: ROOM_MIN_SIZE,
                room_max_size: ROOM_MAX_SIZE,
                max_rooms: MAX_ROOMS,
            }),
    {
        GenerationConfig {
            width: MAP_WIDTH,
            height: MAP_HEIGHT,
            room_min_size: ROOM_MIN_SIZE,
            room_max_size: ROOM_MAX_SIZE,
            max_rooms: MAX_ROOMS,
        }
    }

    /// Whether the parameters can be used for generation.
    pub fn is_valid(&self) -> (b: bool)
        ensures
            b == self.valid(),
    {
        0 <= self.room_min_size && self.room_min_size <= self.room_max_size && self.room_max_size
            < self.width && self.room_max_size < self.height && 1 <= self.max_rooms
    }
}

/// The center of a room that lies in the grid is a cell of the grid, and a
/// cell of the room itself unless the room is empty.
pub proof fn lemma_center_in_grid(grid: &TileGrid, room: Rect)
    requires
        room_in_grid(grid, room),
    ensures
        grid.contains(room.spec_center().0, room.spec_center().1),
        i32::MIN <= room.spec_center().0 <= i32::MAX,
        i32::MIN <= room.spec_center().1 <= i32::MAX,
        room.width > 0 && room.height > 0 ==> room.covers(room.spec_center().0, room.spec_center().1),
{
}

/// A generated level: its terrain and the rooms that were accepted, in the
/// order in which they were placed.
pub struct Dungeon {
    pub grid: TileGrid,
    pub rooms: Vec<Rect>,
}

impl Dungeon {
    /// The rooms and the carved cells of the level.
    pub open spec fn layout(&self) -> Layout {
        Layout { rooms: self.rooms@, floor: self.grid.floor() }
    }

    /// The level is consistent: its terrain is pristine, its rooms lie in the
    /// grid, no two of them intersect, each is carved out, and each but the
    /// first is joined to the one before it.
    pub open spec fn wf(&self) -> bool {
        &&& self.grid.wf()
        &&& self.grid.pristine()
        &&& forall|i: int| 0 <= i < self.rooms@.len() ==> room_in_grid(&self.grid, #[trigger] self.rooms@[i])
        &&& rooms_disjoint(self.rooms@)
        &&& self.layout().rooms_carved()
        &&& self.layout().joined()
    }

    /// A level of the given size that is all wall and has no rooms.
    pub fn solid(width: i32, height: i32) -> (dungeon: Dungeon)
        requires
            0 <= width,
            0 <= height,
        ensures
            dungeon.wf(),
            dungeon.grid.spec_width() == width,
            dungeon.grid.spec_height() == height,
            dungeon.layout() == Layout::solid(),
    {
        let dungeon = Dungeon { grid: TileGrid::new(width, height), rooms: Vec::new() };
        assert(dungeon.grid.floor() =~= Set::empty());
        dungeon
    }

    /// Whether `candidate` intersects none of the rooms placed so far.
    pub fn fits(&self, candidate: &Rect) -> (b: bool)
        ensures
            b == fits(self.rooms@, *candidate),
    {
        let mut i: usize = 0;
        while i < self.rooms.len()
            invariant
                i <= self.rooms@.len(),
                forall|k: int| #![trigger self.rooms@[k]] 0 <= k < i ==> !candidate.spec_intersects_with(&self.rooms@[k]),
            decreases self.rooms@.len() - i,
        {
            if candidate.intersects_with(&self.rooms[i]) {
                return false;
            }
            i = i + 1;
        }
        true
    }

    /// Accepts `room`: carves it out, joins it to the room placed before it, if
    /// any, and appends it to the list of rooms.
    pub fn add_room(&mut self, room: Rect, horizontal_first: bool)
        requires
            old(self).wf(),
            room_in_grid(&old(self).grid, room),
            fits(old(self).rooms@, room),
        ensures
            final(self).wf(),
            final(self).grid.spec_width() == old(self).grid.spec_width(),
            final(self).grid.spec_height() == old(self).grid.spec_height(),
            final(self).layout() == old(self).layout().place(room, horizontal_first),
    {
        let ghost carving = old(self).layout().carving(room, horizontal_first);
        proof {
            lemma_center_in_grid(&self.grid, room);
            if self.rooms@.len() > 0 {
                lemma_center_in_grid(&self.grid, self.rooms@.last());
            }
        }
        self.grid.create_room(room);
        if self.rooms.len() > 0 {
            let (new_x, new_y) = room.center();
            let (prev_x, prev_y) = self.rooms[self.rooms.len() - 1].center();
            if horizontal_first {
                self.grid.create_h_tunnel(prev_x, new_x, prev_y);
                self.grid.create_v_tunnel(new_x, prev_y, new_y);
            } else {
                self.grid.create_v_tunnel(prev_x, prev_y, new_y);
                self.grid.create_h_tunnel(prev_x, new_x, new_y);
            }
        }
        assert forall|x: int, y: int| old(self).grid.contains(x, y) implies #[trigger] self.grid.tile_at(x, y)
            == if carving.contains((x, y)) {
            Tile::spec_empty()
        } else {
            old(self).grid.tile_at(x, y)
        } by {}
        self.rooms.push(room);
        proof {
            assert forall|c: (int, int)| carving.contains(c) implies old(self).grid.contains(c.0, c.1) by {}
            assert(self.grid.floor() =~= old(self).grid.floor().union(carving));
            let before = old(self).layout();
            let after = self.layout();
            assert forall|i: int| 1 <= i < after.rooms.len() implies #[trigger] after.joined_at(i) by {
                if i < before.rooms.len() {
                    assert(before.joined_at(i));
                } else {
                    assert(after.corridor_carved(
                        after.rooms[i - 1].spec_center(),
                        after.rooms[i].spec_center(),
                        horizontal_first,
                    ));
                }
            }
        }
    }

    /// Generates a level: `config.max_rooms` times, samples a room from the
    /// stream and places it unless it intersects a room placed before.
    ///
    /// Whatever the stream yields, the level is the layout of that many
    /// admissible attempts; the first attempt is always accepted, so there is
    /// at least one room.
    pub fn generate(config: &GenerationConfig, rng: &mut RandomSource) -> (dungeon: Dungeon)
        requires
            config.valid(),
        ensures
            dungeon.wf(),
            dungeon.grid.spec_width() == config.width,
            dungeon.grid.spec_height() == config.height,
            1 <= dungeon.rooms@.len() <= config.max_rooms,
            forall|i: int| 0 <= i < dungeon.rooms@.len() ==> config.admits(#[trigger] dungeon.rooms@[i]),
            rooms_disjoint(dungeon.rooms@),
            dungeon.layout().joined(),
            config.yields(dungeon.layout()),
    {
        let mut dungeon = Dungeon::solid(config.width, config.height);
        let ghost mut attempts: Seq<(Rect, bool)> = Seq::empty();
        let mut n: i32 = 0;
        while n < config.max_rooms
            invariant
                config.valid(),
                0 <= n <= config.max_rooms,
                dungeon.wf(),
                dungeon.grid.spec_width() == config.width,
                dungeon.grid.spec_height() == config.height,
                dungeon.rooms@.len() <= n,
                n > 0 ==> dungeon.rooms@.len() >= 1,
                forall|i: int| 0 <= i < dungeon.rooms@.len() ==> config.admits(#[trigger] dungeon.rooms@[i]),
                attempts.len() == n,
                forall|k: int| 0 <= k < attempts.len() ==> config.admits((#[trigger] attempts[k]).0),
                dungeon.layout() == layout_of(attempts),
            decreases config.max_rooms - n,
        {
            let width = rng.range(config.room_min_size, config.room_max_size + 1);
            let height = rng.range(config.room_min_size, config.room_max_size + 1);
            let left = rng.range(0, config.width - width);
            let top = rng.range(0, config.height - height);

            let new_room = Rect::new(left, top, width, height);
            let ghost mut coin = false;
            let ghost before = dungeon.layout();
            if dungeon.fits(&new_room) {
                let horizontal_first = if dungeon.rooms.len() > 0 {
                    rng.coin()
                } else {
                    false
                };
                proof {
                    coin = horizontal_first;
                }
                dungeon.add_room(new_room, horizontal_first);
            }
            proof {
                let longer = attempts.push((new_room, coin));
                assert(longer.drop_last() =~= attempts);
                attempts = longer;
            }
            n = n + 1;
        }
        dungeon
    }

    /// The cell where the player starts: the center of the first room.
    pub fn player_spawn(&self) -> (pos: (i32, i32))
        requires
            self.wf(),
            self.rooms@.len() >= 1,
        ensures
            pos.0 == self.rooms@[0].spec_center().0,
            pos.1 == self.rooms@[0].spec_center().1,
            self.grid.contains(pos.0 as int, pos.1 as int),
            self.rooms@[0].width > 0 && self.rooms@[0].height > 0 ==> !self.grid.tile_at(
                pos.0 as int,
                pos.1 as int,
            ).blocked,
    {
        proof {
            lemma_center_in_grid(&self.grid, self.rooms@[0]);
            let c = self.rooms@[0].spec_center();
            if self.rooms@[0].width > 0 && self.rooms@[0].height > 0 {
                assert(self.layout().rooms[0].covers(c.0, c.1));
            }
        }
        self.rooms[0].center()
    }

    /// One placement attempt: `room` is accepted iff it intersects none of the
    /// rooms placed so far; a rejected room changes nothing.
    pub fn place(&mut self, room: Rect, horizontal_first: bool) -> (accepted: bool)
        requires
            old(self).wf(),
            room_in_grid(&old(self).grid, room),
        ensures
            accepted == fits(old(self).rooms@, room),
            final(self).wf(),
            final(self).grid.spec_width() == old(self).grid.spec_width(),
            final(self).grid.spec_height() == old(self).grid.spec_height(),
            final(self).layout() == old(self).layout().place(room, horizontal_first),
            !accepted ==> final(self).grid@ == old(self).grid@,
    {
        if self.fits(&room) {
            self.add_room(room, horizontal_first);
            true
        } else {
            false
        }
    }
}

} // verus!
