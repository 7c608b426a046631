//! What to paint: the shade of each tile, the fog of war, and the order in
//! which entities are drawn. The painting itself is done elsewhere.

use crate::colors::Color;
use crate::entity::Object;
use crate::entity::ObjectView;
use crate::fov::FovMap;
use crate::grid::Tile;
use crate::grid::TileGrid;
use crate::registry::views;
use vstd::prelude::*;

verus! {

/// The background of a tile that is painted.
#[derive(Clone, Copy, Debug, PartialEq, Eq, Structural)]
pub enum Shade {
    /// A wall that was seen before and is out of sight now.
    DarkWall,
    /// A wall in sight.
    LightWall,
    /// A floor that was seen before and is out of sight now.
    DarkGround,
    /// A floor in sight.
    LightGround,
}

impl Shade {
    /// The shade of a tile by whether it is in sight and whether it is a wall.
    pub open spec fn spec_of(visible: bool, wall: bool) -> Shade {
        match (visible, wall) {
            (false, false) => Shade::DarkGround,
            (false, true) => Shade::DarkWall,
            (true, false) => Shade::LightGround,
            (true, true) => Shade::LightWall,
        }
    }

    /// The shade of a tile by whether it is in sight and whether it is a wall.
    #[verifier::when_used_as_spec(spec_of)]
    pub fn of(visible: bool, wall: bool) -> (shade: Shade)
        ensures
            shade == Shade::spec_of(visible, wall),
    {
        match (visible, wall) {
            (false, false) => Shade::DarkGround,
            (false, true) => Shade::DarkWall,
            (true, false) => Shade::LightGround,
            (true, true) => Shade::LightWall,
        }
    }

    /// The color of the shade.
    pub open spec fn spec_color(self) -> Color {
        match self {
            Shade::DarkWall => Color { r: 0, g: 0, b: 100 },
            Shade::LightWall => Color { r: 130, g: 110, b: 50 },
            Shade::DarkGround => Color { r: 50, g: 50, b: 150 },
            Shade::LightGround => Color { r: 200, g: 180, b: 50 },
        }
    }

    /// The color of the shade.
    #[verifier::when_used_as_spec(spec_color)]
    pub fn color(self) -> (c: Color)
        ensures
            c == self.spec_color(),
    {
        match self {
            Shade::DarkWall => Color { r: 0, g: 0, b: 100 },
            Shade::LightWall => Color { r: 130, g: 110, b: 50 },
            Shade::DarkGround => Color { r: 50, g: 50, b: 150 },
            Shade::LightGround => Color { r: 200, g: 180, b: 50 },
        }
    }
}

/// The background to paint on one cell.
#[derive(Clone, Copy, Debug, PartialEq, Eq, Structural)]
pub struct TilePaint {
    pub x: i32,
    pub y: i32,
    pub shade: Shade,
}

/// Cell `(x1, y1)` comes before cell `(x2, y2)` when the grid is read row by
/// row.
pub open spec fn precedes(x1: int, y1: int, x2: int, y2: int) -> bool {
    y1 < y2 || (y1 == y2 && x1 < x2)
}

/// Some entry of `paints` is for the cell `(x, y)`.
pub open spec fn painted(paints: Seq<TilePaint>, x: int, y: int) -> bool {
    exists|k: int| 0 <= k < paints.len() && (#[trigger] paints[k]).x == x && paints[k].y == y
}

/// The tile after the cell was looked at: once in sight it is explored for
/// good.
pub open spec fn looked_at(tile: Tile, visible: bool) -> Tile {
    Tile { explored: tile.explored || visible, ..tile }
}

/// `paints` lists the backgrounds of `map` under the visibility `fov`: one
/// entry for each explored cell and none for any other, row by row, each with
/// the shade that its tile has.
pub open spec fn paints_of(map: &TileGrid, fov: &FovMap, paints: Seq<TilePaint>) -> bool {
    &&& forall|k: int|
        0 <= k < paints.len() ==> {
            let p = #[trigger] paints[k];
            &&& map.contains(p.x as int, p.y as int)
            &&& map.tile_at(p.x as int, p.y as int).explored
            &&& p.shade == Shade::spec_of(
                fov.sees(p.x as int, p.y as int),
                map.tile_at(p.x as int, p.y as int).block_sight,
            )
        }
    &&& forall|j: int, k: int|
        #![trigger paints[j], paints[k]]
        0 <= j < k < paints.len() ==> precedes(
            paints[j].x as int,
            paints[j].y as int,
            paints[k].x as int,
            paints[k].y as int,
        )
    &&& forall|x: int, y: int|
        map.contains(x, y) && map.tile_at(x, y).explored ==> #[trigger] painted(paints, x, y)
}

/// Marks every cell in sight as explored and lists the backgrounds to paint.
///
/// A cell that is neither in sight nor was ever explored gets no paint.
pub fn render_tiles(map: &mut TileGrid, fov_map: &FovMap) -> (paints: Vec<TilePaint>)
    requires
        old(map).wf(),
        fov_map.wf(),
        fov_map.spec_width() == old(map).spec_width(),
        fov_map.spec_height() == old(map).spec_height(),
    ensures
        final(map).wf(),
        final(map).spec_width() == old(map).spec_width(),
        final(map).spec_height() == old(map).spec_height(),
        forall|x: int, y: int|
            old(map).contains(x, y) ==> #[trigger] final(map).tile_at(x, y) == looked_at(
                old(map).tile_at(x, y),
                fov_map.sees(x, y),
            ),
        paints_of(final(map), fov_map, paints@),
{
    let mut paints: Vec<TilePaint> = Vec::new();
    let width = map.width();
    let height = map.height();
    let mut y: i32 = 0;
    while y < height
        invariant
            0 <= y <= height,
            width == map.spec_width(),
            height == map.spec_height(),
            map.wf(),
            fov_map.wf(),
            fov_map.spec_width() == map.spec_width(),
            fov_map.spec_height() == map.spec_height(),
            map.spec_width() == old(map).spec_width(),
            map.spec_height() == old(map).spec_height(),
            forall|cx: int, cy: int|
                map.contains(cx, cy) ==> #[trigger] map.tile_at(cx, cy) == if cy < y {
                    looked_at(old(map).tile_at(cx, cy), fov_map.sees(cx, cy))
                } else {
                    old(map).tile_at(cx, cy)
                },
            forall|k: int|
                0 <= k < paints@.len() ==> {
                    let p = #[trigger] paints@[k];
                    &&& map.contains(p.x as int, p.y as int)
                    &&& p.y < y
                    &&& map.tile_at(p.x as int, p.y as int).explored
                    &&& p.shade == Shade::spec_of(
                        fov_map.sees(p.x as int, p.y as int),
                        map.tile_at(p.x as int, p.y as int).block_sight,
                    )
                },
            forall|j: int, k: int|
                #![trigger paints@[j], paints@[k]]
                0 <= j < k < paints@.len() ==> precedes(
                    paints@[j].x as int,
                    paints@[j].y as int,
                    paints@[k].x as int,
                    paints@[k].y as int,
                ),
            forall|cx: int, cy: int|
                map.contains(cx, cy) && cy < y && map.tile_at(cx, cy).explored ==> #[trigger] painted(
                    paints@,
                    cx,
                    cy,
                ),
        decreases height - y,
    {
        let mut x: i32 = 0;
        while x < width
            invariant
                0 <= x <= width,
                0 <= y < height,
                width == map.spec_width(),
                height == map.spec_height(),
                map.wf(),
                fov_map.wf(),
                fov_map.spec_width() == map.spec_width(),
                fov_map.spec_height() == map.spec_height(),
                map.spec_width() == old(map).spec_width(),
                map.spec_height() == old(map).spec_height(),
                forall|cx: int, cy: int|
                    map.contains(cx, cy) ==> #[trigger] map.tile_at(cx, cy) == if precedes(
                        cx,
                        cy,
                        x as int,
                        y as int,
                    ) {
                        looked_at(old(map).tile_at(cx, cy), fov_map.sees(cx, cy))
                    } else {
                        old(map).tile_at(cx, cy)
                    },
                forall|k: int|
                    0 <= k < paints@.len() ==> {
                        let p = #[trigger] paints@[k];
                        &&& map.contains(p.x as int, p.y as int)
                        &&& precedes(p.x as int, p.y as int, x as int, y as int)
                        &&& map.tile_at(p.x as int, p.y as int).explored
                        &&& p.shade == Shade::spec_of(
                            fov_map.sees(p.x as int, p.y as int),
                            map.tile_at(p.x as int, p.y as int).block_sight,
                        )
                    },
                forall|j: int, k: int|
                    #![trigger paints@[j], paints@[k]]
                    0 <= j < k < paints@.len() ==> precedes(
                        paints@[j].x as int,
                        paints@[j].y as int,
                        paints@[k].x as int,
                        paints@[k].y as int,
                    ),
                forall|cx: int, cy: int|
                    map.contains(cx, cy) && precedes(cx, cy, x as int, y as int) && map.tile_at(
                        cx,
                        cy,
                    ).explored ==> #[trigger] painted(paints@, cx, cy),
            decreases width - x,
        {
            let visible = fov_map.is_in_fov(x, y);
            let tile = map.tile(x, y);
            let wall = tile.block_sight;
            let explored = tile.explored || visible;
            let ghost before_map = *map;
            let ghost before_paints = paints@;
            if visible {
                map.set_tile(x, y, Tile { blocked: tile.blocked, block_sight: tile.block_sight, explored: true });
            }
            assert forall|cx: int, cy: int| map.contains(cx, cy) implies #[trigger] map.tile_at(cx, cy) == if cx
                == x && cy == y {
                looked_at(before_map.tile_at(cx, cy), visible)
            } else {
                before_map.tile_at(cx, cy)
            } by {}
            if explored {
                paints.push(TilePaint { x: x, y: y, shade: Shade::of(visible, wall) });
                proof {
                    assert(paints@[before_paints.len() as int].x == x);
                }
            }
            proof {
                assert forall|cx: int, cy: int|
                    map.contains(cx, cy) && precedes(cx, cy, x + 1, y as int) && map.tile_at(
                        cx,
                        cy,
                    ).explored implies #[trigger] painted(paints@, cx, cy) by {
                    if cx != x || cy != y {
                        assert(painted(before_paints, cx, cy));
                        let k = choose|k: int|
                            0 <= k < before_paints.len() && (#[trigger] before_paints[k]).x == cx
                                && before_paints[k].y == cy;
                        assert(paints@[k] == before_paints[k]);
                    }
                }
            }
            x = x + 1;
        }
        y = y + 1;
    }
    paints
}

/// The entities to draw, by registry index, in two layers: those that do not
/// block movement are drawn first, those that do are drawn over them.
pub struct DrawLayers {
    pub under: Vec<usize>,
    pub over: Vec<usize>,
}

/// `layer` lists, in registry order, exactly the entities that are in sight
/// and whose `blocks` flag is `blocking`.
pub open spec fn layer_of(objects: Seq<ObjectView>, fov: &FovMap, blocking: bool, layer: Seq<usize>) -> bool {
    &&& forall|k: int|
        0 <= k < layer.len() ==> {
            let i = #[trigger] layer[k];
            &&& i < objects.len()
            &&& objects[i as int].blocks == blocking
            &&& fov.sees(objects[i as int].position.0 as int, objects[i as int].position.1 as int)
        }
    &&& forall|j: int, k: int| #![trigger layer[j], layer[k]] 0 <= j < k < layer.len() ==> layer[j] < layer[k]
    &&& forall|i: int|
        0 <= i < objects.len() && objects[i].blocks == blocking && fov.sees(
            objects[i].position.0 as int,
            objects[i].position.1 as int,
        ) ==> #[trigger] layer.contains(i as usize)
}

/// Picks the entities that are in sight and sorts them into the two layers.
pub fn draw_order(objects: &[Object], fov_map: &FovMap) -> (layers: DrawLayers)
    requires
        fov_map.wf(),
        forall|i: int|
            0 <= i < objects@.len() ==> fov_map.contains(
                (#[trigger] objects@[i]).position.0 as int,
                objects@[i].position.1 as int,
            ),
    ensures
        layer_of(views(objects@), fov_map, false, layers.under@),
        layer_of(views(objects@), fov_map, true, layers.over@),
{
    let mut under: Vec<usize> = Vec::new();
    let mut over: Vec<usize> = Vec::new();
    let ghost all = views(objects@);
    let mut i: usize = 0;
    while i < objects.len()
        invariant
            i <= objects@.len(),
            all == views(objects@),
            fov_map.wf(),
            forall|i: int|
                0 <= i < objects@.len() ==> fov_map.contains(
                    (#[trigger] objects@[i]).position.0 as int,
                    objects@[i].position.1 as int,
                ),
            layer_of(all.subrange(0, i as int), fov_map, false, under@),
            layer_of(all.subrange(0, i as int), fov_map, true, over@),
        decreases objects@.len() - i,
    {
        let ghost seen = all.subrange(0, i as int);
        let ghost next = all.subrange(0, i + 1);
        let ghost under_before = under@;
        let ghost over_before = over@;
        let pos = objects[i].position;
        let visible = fov_map.is_in_fov(pos.0, pos.1);
        if visible {
            if objects[i].blocks {
                over.push(i);
            } else {
                under.push(i);
            }
        }
        proof {
            assert forall|m: int| 0 <= m < seen.len() implies seen[m] == #[trigger] next[m] by {}
            assert forall|m: int|
                0 <= m < next.len() && next[m].blocks == false && fov_map.sees(
                    next[m].position.0 as int,
                    next[m].position.1 as int,
                ) implies #[trigger] under@.contains(m as usize) by {
                if m < i {
                    assert(under_before.contains(m as usize));
                    let k = choose|k: int| 0 <= k < under_before.len() && under_before[k] == m as usize;
                    assert(under@[k] == m as usize);
                } else {
                    assert(under@[under_before.len() as int] == i);
                }
            }
            assert forall|m: int|
                0 <= m < next.len() && next[m].blocks == true && fov_map.sees(
                    next[m].position.0 as int,
                    next[m].position.1 as int,
                ) implies #[trigger] over@.contains(m as usize) by {
                if m < i {
                    assert(over_before.contains(m as usize));
                    let k = choose|k: int| 0 <= k < over_before.len() && over_before[k] == m as usize;
                    assert(over@[k] == m as usize);
                } else {
                    assert(over@[over_before.len() as int] == i);
                }
            }
        }
        i = i + 1;
    }
    DrawLayers { under, over }
}

} // verus!
