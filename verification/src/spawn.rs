//! Populating the level: the player and the monsters of each room.

use crate::colors::darker_green;
use crate::colors::desaturated_green;
use crate::colors::white;
use crate::entity::Ai;
use crate::entity::DeathCallback;
use crate::entity::Fighter;
use crate::entity::Object;
use crate::entity::ObjectView;
use crate::grid::TileGrid;
use crate::random::RandomSource;
use crate::rect::Rect;
use crate::registry::is_blocked;
use crate::registry::occupied;
use crate::registry::reach;
use crate::registry::registry_wf;
use crate::registry::views;
use vstd::prelude::*;

verus! {

/// The most monsters that are put in one room.
pub const MAX_ROOM_MONSTERS: i32 = 3;

/// The player as it enters the level at `pos`.
pub open spec fn player_at(pos: (i32, i32)) -> ObjectView {
    ObjectView {
        name: "Player"@,
        glyph: '@',
        color: white(),
        position: pos,
        blocks: true,
        alive: true,
        fighter: Some(Fighter { max_hp: 30, hp: 30, defense: 2, power: 5, on_death: DeathCallback::Player }),
        ai: None,
    }
}

/// A fresh orc at `pos`.
pub open spec fn orc_at(pos: (i32, i32)) -> ObjectView {
    ObjectView {
        name: "Orc"@,
        glyph: 'o',
        color: desaturated_green(),
        position: pos,
        blocks: true,
        alive: true,
        fighter: Some(Fighter { max_hp: 10, hp: 10, defense: 0, power: 3, on_death: DeathCallback::Monster }),
        ai: Some(Ai),
    }
}

/// A fresh troll at `pos`.
pub open spec fn troll_at(pos: (i32, i32)) -> ObjectView {
    ObjectView {
        name: "Troll"@,
        glyph: 'T',
        color: darker_green(),
        position: pos,
        blocks: true,
        alive: true,
        fighter: Some(Fighter { max_hp: 16, hp: 16, defense: 1, power: 4, on_death: DeathCallback::Monster }),
        ai: Some(Ai),
    }
}

/// `pos` lies in `room` and not on its left or top edge.
pub open spec fn inside(room: Rect, pos: (i32, i32)) -> bool {
    room.left < pos.0 < room.right && room.top < pos.1 < room.bottom
}

/// The player as it enters the level at `pos`.
pub fn new_player(pos: (i32, i32)) -> (player: Object)
    ensures
        player@ == player_at(pos),
{
    let mut player = Object::new("Player", '@', white(), pos);
    player.fighter = Some(
        Fighter { max_hp: 30, hp: 30, defense: 2, power: 5, on_death: DeathCallback::Player },
    );
    player
}

/// A fresh orc at `pos`.
pub fn new_orc(pos: (i32, i32)) -> (orc: Object)
    ensures
        orc@ == orc_at(pos),
{
    let mut orc = Object::new("Orc", 'o', desaturated_green(), pos);
    orc.fighter = Some(
        Fighter { max_hp: 10, hp: 10, defense: 0, power: 3, on_death: DeathCallback::Monster },
    );
    orc.ai = Some(Ai);
    orc
}

/// A fresh troll at `pos`.
pub fn new_troll(pos: (i32, i32)) -> (troll: Object)
    ensures
        troll@ == troll_at(pos),
{
    let mut troll = Object::new("Troll", 'T', darker_green(), pos);
    troll.fighter = Some(
        Fighter { max_hp: 16, hp: 16, defense: 1, power: 4, on_death: DeathCallback::Monster },
    );
    troll.ai = Some(Ai);
    troll
}

/// The registry `after` is `before` with monsters of `room` appended: each new
/// entity is a fresh orc or troll that stands inside the room, on a cell that
/// was not occupied when it was put there.
pub open spec fn populated(map: &TileGrid, room: Rect, before: Seq<ObjectView>, after: Seq<ObjectView>) -> bool {
    &&& before.len() <= after.len() <= before.len() + MAX_ROOM_MONSTERS
    &&& after.subrange(0, before.len() as int) == before
    &&& forall|k: int|
        before.len() <= k < after.len() ==> {
            let monster = #[trigger] after[k];
            &&& monster == orc_at(monster.position) || monster == troll_at(monster.position)
            &&& inside(room, monster.position)
            &&& !occupied(map, after.subrange(0, k), monster.position)
        }
}

/// A troll could join `objects` and every blow among them would still fit.
pub open spec fn admits_monsters(objects: Seq<ObjectView>) -> bool {
    forall|j: int|
        0 <= j < objects.len() ==> #[trigger] reach(troll_at((0, 0)), objects[j]) <= i32::MAX
}

/// The registry after a monster was to be put on `pos`: if the cell is
/// occupied nothing changes, otherwise a fresh monster is appended there, an
/// orc if `orc` is set and a troll if not.
pub open spec fn monster_put(map: &TileGrid, objects: Seq<ObjectView>, pos: (i32, i32), orc: bool) -> Seq<
    ObjectView,
> {
    if occupied(map, objects, pos) {
        objects
    } else {
        objects.push(
            if orc {
                orc_at(pos)
            } else {
                troll_at(pos)
            },
        )
    }
}

/// The registry after each of `draws`, a cell and a kind, was put in turn.
pub open spec fn monsters_put(map: &TileGrid, objects: Seq<ObjectView>, draws: Seq<((i32, i32), bool)>) -> Seq<
    ObjectView,
>
    decreases draws.len(),
{
    if draws.len() == 0 {
        objects
    } else {
        monster_put(map, monsters_put(map, objects, draws.drop_last()), draws.last().0, draws.last().1)
    }
}

/// `draws` is what populating `room` may draw: at most `MAX_ROOM_MONSTERS`
/// cells, each inside the room.
pub open spec fn draws_for(room: Rect, draws: Seq<((i32, i32), bool)>) -> bool {
    &&& draws.len() <= MAX_ROOM_MONSTERS
    &&& forall|k: int| 0 <= k < draws.len() ==> inside(room, (#[trigger] draws[k]).0)
}

/// `after` is what populating `room` can make of `before`: the registry after
/// some draws for the room were put in turn.
pub open spec fn room_yields(map: &TileGrid, room: Rect, before: Seq<ObjectView>, after: Seq<ObjectView>) -> bool {
    exists|draws: Seq<((i32, i32), bool)>|
        draws_for(room, draws) && after == #[trigger] monsters_put(map, before, draws)
}

/// Puts a monster on `pos` unless the cell is occupied: an orc if `orc` is
/// set, a troll if not. Tells whether the monster was put.
pub fn place_monster(pos: (i32, i32), orc: bool, map: &TileGrid, objects: &mut Vec<Object>) -> (placed: bool)
    requires
        map.wf(),
        map.contains(pos.0 as int, pos.1 as int),
    ensures
        placed == !occupied(map, views(old(objects)@), pos),
        views(final(objects)@) == monster_put(map, views(old(objects)@), pos, orc),
        placed ==> final(objects)@.len() == old(objects)@.len() + 1 && final(objects)@.subrange(
            0,
            old(objects)@.len() as int,
        ) == old(objects)@,
        !placed ==> final(objects)@ == old(objects)@,
{
    if is_blocked(pos, map, objects.as_slice()) {
        false
    } else {
        let monster = if orc {
            new_orc(pos)
        } else {
            new_troll(pos)
        };
        objects.push(monster);
        assert(views(objects@) =~= views(old(objects)@).push(monster@));
        assert(objects@.subrange(0, old(objects)@.len() as int) =~= old(objects)@);
        true
    }
}

/// Puts up to `MAX_ROOM_MONSTERS` monsters into `room`: for each, a cell
/// inside the room and a kind are drawn, an orc four times out of five and a
/// troll otherwise, and the monster is put there unless the cell is occupied.
pub fn place_objects(room: Rect, map: &TileGrid, objects: &mut Vec<Object>, rng: &mut RandomSource)
    requires
        map.wf(),
        room.left + 1 < room.right,
        room.top + 1 < room.bottom,
        0 <= room.left,
        0 <= room.top,
        room.right <= map.spec_width(),
        room.bottom <= map.spec_height(),
    ensures
        room_yields(map, room, views(old(objects)@), views(final(objects)@)),
        populated(map, room, views(old(objects)@), views(final(objects)@)),
        final(objects)@.subrange(0, old(objects)@.len() as int) == old(objects)@,
        registry_wf(map, views(old(objects)@)) && admits_monsters(views(old(objects)@)) ==> registry_wf(
            map,
            views(final(objects)@),
        ) && admits_monsters(views(final(objects)@)),
{
    let num_monsters = rng.range(0, MAX_ROOM_MONSTERS + 1);
    let ghost before = views(objects@);
    let ghost mut draws: Seq<((i32, i32), bool)> = Seq::empty();
    assert(before.subrange(0, before.len() as int) =~= before);
    assert(objects@.subrange(0, objects@.len() as int) =~= objects@);

    let mut n: i32 = 0;
    while n < num_monsters
        invariant
            0 <= n <= num_monsters <= MAX_ROOM_MONSTERS,
            map.wf(),
            room.left + 1 < room.right,
            room.top + 1 < room.bottom,
            0 <= room.left,
            0 <= room.top,
            room.right <= map.spec_width(),
            room.bottom <= map.spec_height(),
            before == views(old(objects)@),
            before.len() <= objects@.len() <= before.len() + n,
            objects@.subrange(0, old(objects)@.len() as int) == old(objects)@,
            draws.len() == n,
            draws_for(room, draws),
            views(objects@) == monsters_put(map, before, draws),
            populated(map, room, before, views(objects@)),
            registry_wf(map, before) && admits_monsters(before) ==> registry_wf(map, views(objects@))
                && admits_monsters(views(objects@)),
        decreases num_monsters - n,
    {
        let pos = (rng.range(room.left + 1, room.right), rng.range(room.top + 1, room.bottom));
        let orc = rng.chance(4, 5);
        let ghost earlier = views(objects@);
        let ghost earlier_objects = objects@;
        let placed = place_monster(pos, orc, map, objects);
        proof {
            let longer = draws.push((pos, orc));
            assert(longer.drop_last() =~= draws);
            draws = longer;
            let now = views(objects@);
            if placed {
                assert(objects@.subrange(0, old(objects)@.len() as int) =~= earlier_objects.subrange(
                    0,
                    old(objects)@.len() as int,
                ));
                assert(now.subrange(0, before.len() as int) =~= earlier.subrange(0, before.len() as int));
                assert forall|k: int| before.len() <= k < now.len() implies {
                    let m = #[trigger] now[k];
                    &&& m == orc_at(m.position) || m == troll_at(m.position)
                    &&& inside(room, m.position)
                    &&& !occupied(map, now.subrange(0, k), m.position)
                } by {
                    if k < earlier.len() {
                        assert(now.subrange(0, k) =~= earlier.subrange(0, k));
                    } else {
                        assert(now.subrange(0, k) =~= earlier);
                    }
                }
                if registry_wf(map, before) && admits_monsters(before) {
                    assert forall|i: int, j: int| 0 <= i < now.len() && 0 <= j < now.len() implies #[trigger] reach(
                        now[i],
                        now[j],
                    ) <= i32::MAX by {
                        if i >= earlier.len() && j < earlier.len() {
                            assert(reach(troll_at((0, 0)), earlier[j]) <= i32::MAX);
                        }
                    }
                }
            }
        }
        n = n + 1;
    }
}

} // verus!
