//! Monster behaviour: a monster that is in sight walks up to the player and
//! attacks it.

use crate::dungeon::between;
use crate::entity::Object;
use crate::entity::ObjectView;
use crate::fov::FovMap;
use crate::grid::TileGrid;
use crate::registry::attack;
use crate::registry::attack_event;
use crate::registry::is_blocked;
use crate::registry::lemma_damage_keeps_registry;
use crate::registry::lemma_move_keeps_registry;
use crate::registry::move_event;
use crate::registry::occupied;
use crate::registry::on_grid;
use crate::registry::reach;
use crate::registry::registry_wf;
use crate::registry::views;
use crate::registry::Event;
use crate::registry::PLAYER;
use vstd::prelude::*;

verus! {

/// The square of the Euclidean distance between two cells.
pub open spec fn spec_distance_squared(here: (i32, i32), there: (i32, i32)) -> int {
    let dx = here.0 - there.0;
    let dy = here.1 - there.1;
    dx * dx + dy * dy
}

/// The square of the Euclidean distance between two cells.
pub fn distance_squared(here: (i32, i32), there: (i32, i32)) -> (d: i128)
    ensures
        d == spec_distance_squared(here, there),
{
    let dx: i128 = here.0 as i128 - there.0 as i128;
    let dy: i128 = here.1 as i128 - there.1 as i128;
    assert(0 <= dx * dx <= 0x1_0000_0000 * 0x1_0000_0000) by (nonlinear_arith)
        requires
            -0x1_0000_0000 <= dx <= 0x1_0000_0000,
    ;
    assert(0 <= dy * dy <= 0x1_0000_0000 * 0x1_0000_0000) by (nonlinear_arith)
        requires
            -0x1_0000_0000 <= dy <= 0x1_0000_0000,
    ;
    dx * dx + dy * dy
}

/// One component of the unit step along the direction `(d, other)`: the
/// integer nearest to `d` divided by the length of the direction.
///
/// That quotient lies between -1 and 1; it is at least one half in size, and so
/// rounds away from zero, exactly when twice `d` is at least the length, which
/// is to say when four times its square is at least the squared length.
pub open spec fn unit_step(d: int, other: int) -> int {
    if d != 0 && 4 * (d * d) >= d * d + other * other {
        if d > 0 {
            1
        } else {
            -1
        }
    } else {
        0
    }
}

/// The cell one unit step from `from` in the direction of `target`.
pub open spec fn step_towards(from: (i32, i32), target: (i32, i32)) -> (int, int) {
    let dx = target.0 - from.0;
    let dy = target.1 - from.1;
    (from.0 + unit_step(dx, dy), from.1 + unit_step(dy, dx))
}

/// A unit step never overshoots: the cell it leads to lies, on each axis,
/// between the cell it leaves and the target.
pub proof fn lemma_step_between(from: (i32, i32), target: (i32, i32))
    ensures
        between(from.0 as int, target.0 as int, step_towards(from, target).0),
        between(from.1 as int, target.1 as int, step_towards(from, target).1),
{
}

/// Toward a target on the same column and at least one row away, the unit
/// step goes one row closer and keeps the column; likewise along a row.
pub proof fn lemma_step_along_axis(from: (i32, i32), target: (i32, i32))
    ensures
        from.0 == target.0 && from.1 < target.1 ==> step_towards(from, target) == (from.0 as int, from.1 + 1),
        from.0 == target.0 && from.1 > target.1 ==> step_towards(from, target) == (from.0 as int, from.1 - 1),
        from.1 == target.1 && from.0 < target.0 ==> step_towards(from, target) == (from.0 + 1, from.1 as int),
        from.1 == target.1 && from.0 > target.0 ==> step_towards(from, target) == (from.0 - 1, from.1 as int),
{
    let dx = target.0 - from.0;
    let dy = target.1 - from.1;
    assert(dx != 0 ==> dx * dx > 0) by (nonlinear_arith);
    assert(dy != 0 ==> dy * dy > 0) by (nonlinear_arith);
}

fn axis_step(d: i128, other: i128) -> (s: i32)
    requires
        -0x1_0000_0000 <= d <= 0x1_0000_0000,
        -0x1_0000_0000 <= other <= 0x1_0000_0000,
    ensures
        s == unit_step(d as int, other as int),
{
    assert(0 <= d * d <= 0x1_0000_0000 * 0x1_0000_0000) by (nonlinear_arith)
        requires
            -0x1_0000_0000 <= d <= 0x1_0000_0000,
    ;
    assert(0 <= other * other <= 0x1_0000_0000 * 0x1_0000_0000) by (nonlinear_arith)
        requires
            -0x1_0000_0000 <= other <= 0x1_0000_0000,
    ;
    if d != 0 && 4 * (d * d) >= d * d + other * other {
        if d > 0 {
            1
        } else {
            -1
        }
    } else {
        0
    }
}

/// The cell one unit step from `from` in the direction of `target`.
pub fn next_step(from: (i32, i32), target: (i32, i32)) -> (dest: (i32, i32))
    ensures
        dest.0 == step_towards(from, target).0,
        dest.1 == step_towards(from, target).1,
{
    let dx: i128 = target.0 as i128 - from.0 as i128;
    let dy: i128 = target.1 as i128 - from.1 as i128;
    (from.0 + axis_step(dx, dy), from.1 + axis_step(dy, dx))
}

/// The cell that `step_towards` names, in the coordinate type.
pub open spec fn step_cell(from: (i32, i32), target: (i32, i32)) -> (i32, i32) {
    (step_towards(from, target).0 as i32, step_towards(from, target).1 as i32)
}

/// Moves entity `id` one unit step toward `target`, unless the cell it would
/// step on is occupied; then nothing changes. Reports the step, if it was
/// made.
pub fn move_towards(id: usize, target: (i32, i32), map: &TileGrid, objects: &mut [Object]) -> (event: Option<
    Event,
>)
    requires
        id < old(objects)@.len(),
        map.wf(),
        map.contains(old(objects)@[id as int].position.0 as int, old(objects)@[id as int].position.1 as int),
        map.contains(target.0 as int, target.1 as int),
    ensures
        final(objects)@.len() == old(objects)@.len(),
        views(final(objects)@) == ({
            let before = views(old(objects)@);
            let dest = step_cell(before[id as int].position, target);
            if occupied(map, before, dest) {
                before
            } else {
                before.update(id as int, ObjectView { position: dest, ..before[id as int] })
            }
        }),
        event == ({
            let before = views(old(objects)@);
            let dest = step_cell(before[id as int].position, target);
            if occupied(map, before, dest) {
                None
            } else {
                Some(move_event(before, id as int, dest))
            }
        }),
{
    let from = objects[id].position;
    let new_pos = next_step(from, target);
    proof {
        lemma_step_between(objects@[id as int].position, target);
    }
    if !is_blocked(new_pos, map, objects) {
        objects[id].move_to(new_pos);
        assert(views(objects@) =~= views(old(objects)@).update(
            id as int,
            ObjectView { position: new_pos, ..old(objects)@[id as int]@ },
        ));
        Some(Event::Moved { id: id, from: from, to: new_pos })
    } else {
        None
    }
}

/// What a monster does with its turn.
#[derive(Clone, Copy, Debug, PartialEq, Eq)]
pub enum AiDecision {
    /// Nothing.
    Idle,
    /// Step onto the given cell.
    MoveTo((i32, i32)),
    /// Attack the entity at the given index.
    Attack(usize),
}

/// The turn of monster `monster_id`.
///
/// A monster whose cell is out of sight stays idle. One in sight that is two
/// cells or more from the player steps toward it if the cell in that
/// direction is free, and otherwise stays where it is. One that is closer
/// attacks the player if the player is alive.
pub open spec fn decision(monster_id: int, map: &TileGrid, objects: Seq<ObjectView>, fov: &FovMap) -> AiDecision {
    let pos = objects[monster_id].position;
    let player = objects[PLAYER as int];
    if !fov.sees(pos.0 as int, pos.1 as int) {
        AiDecision::Idle
    } else if spec_distance_squared(pos, player.position) >= 4 {
        let dest = step_cell(pos, player.position);
        if occupied(map, objects, dest) {
            AiDecision::Idle
        } else {
            AiDecision::MoveTo(dest)
        }
    } else if player.alive {
        AiDecision::Attack(PLAYER)
    } else {
        AiDecision::Idle
    }
}

/// A monster in sight that stands on the player's column, two rows or more
/// away, steps one row closer if that cell is free; it does not attack.
pub proof fn lemma_far_monster_steps_closer(monster_id: int, map: &TileGrid, objects: Seq<ObjectView>, fov: &FovMap)
    requires
        0 <= monster_id < objects.len(),
        PLAYER < objects.len(),
        fov.sees(objects[monster_id].position.0 as int, objects[monster_id].position.1 as int),
        objects[monster_id].position.0 == objects[PLAYER as int].position.0,
        objects[monster_id].position.1 >= objects[PLAYER as int].position.1 + 2,
        !occupied(
            map,
            objects,
            (objects[monster_id].position.0, (objects[monster_id].position.1 - 1) as i32),
        ),
    ensures
        decision(monster_id, map, objects, fov) == AiDecision::MoveTo(
            (objects[monster_id].position.0, (objects[monster_id].position.1 - 1) as i32),
        ),
{
    let pos = objects[monster_id].position;
    let target = objects[PLAYER as int].position;
    lemma_step_along_axis(pos, target);
    let dy = pos.1 - target.1;
    assert(dy * dy >= 4) by (nonlinear_arith)
        requires
            dy >= 2,
    ;
}

/// The registry after entity `id` has carried out `decision`.
pub open spec fn carried_out(objects: Seq<ObjectView>, id: int, decision: AiDecision) -> Seq<ObjectView> {
    match decision {
        AiDecision::Idle => objects,
        AiDecision::MoveTo(dest) => objects.update(id, ObjectView { position: dest, ..objects[id] }),
        AiDecision::Attack(target) => objects.update(
            target as int,
            objects[target as int].damaged(objects[id].damage_to(objects[target as int])),
        ),
    }
}

/// What is to report when entity `id` carries out `decision`.
pub open spec fn decision_event(objects: Seq<ObjectView>, id: int, decision: AiDecision) -> Option<Event> {
    match decision {
        AiDecision::Idle => None,
        AiDecision::MoveTo(dest) => Some(move_event(objects, id, dest)),
        AiDecision::Attack(target) => Some(attack_event(objects, id, target as int)),
    }
}

/// Decides the turn of monster `monster_id` without carrying it out.
pub fn ai_decide(monster_id: usize, map: &TileGrid, objects: &[Object], fov_map: &FovMap) -> (d: AiDecision)
    requires
        monster_id < objects@.len(),
        map.wf(),
        fov_map.wf(),
        fov_map.spec_width() == map.spec_width(),
        fov_map.spec_height() == map.spec_height(),
        on_grid(map, views(objects@)),
    ensures
        d == decision(monster_id as int, map, views(objects@), fov_map),
{
    let pos = objects[monster_id].position;
    if fov_map.is_in_fov(pos.0, pos.1) {
        let target = objects[PLAYER].position;
        if distance_squared(pos, target) >= 4 {
            proof {
                lemma_step_between(pos, target);
            }
            let new_pos = next_step(pos, target);
            if is_blocked(new_pos, map, objects) {
                AiDecision::Idle
            } else {
                AiDecision::MoveTo(new_pos)
            }
        } else if objects[PLAYER].alive {
            AiDecision::Attack(PLAYER)
        } else {
            AiDecision::Idle
        }
    } else {
        AiDecision::Idle
    }
}

/// Takes the turn of monster `monster_id`: decides and acts at once.
///
/// A monster whose cell is out of sight does nothing at all. Reports what the
/// monster did, if anything.
pub fn ai_take_turn(monster_id: usize, map: &TileGrid, objects: &mut [Object], fov_map: &FovMap) -> (event:
    Option<Event>)
    requires
        monster_id < old(objects)@.len(),
        monster_id != PLAYER,
        map.wf(),
        fov_map.wf(),
        fov_map.spec_width() == map.spec_width(),
        fov_map.spec_height() == map.spec_height(),
        registry_wf(map, views(old(objects)@)),
    ensures
        final(objects)@.len() == old(objects)@.len(),
        views(final(objects)@) == carried_out(
            views(old(objects)@),
            monster_id as int,
            decision(monster_id as int, map, views(old(objects)@), fov_map),
        ),
        registry_wf(map, views(final(objects)@)),
        !fov_map.sees(
            old(objects)@[monster_id as int].position.0 as int,
            old(objects)@[monster_id as int].position.1 as int,
        ) ==> views(final(objects)@) == views(old(objects)@) && event is None,
        event == decision_event(
            views(old(objects)@),
            monster_id as int,
            decision(monster_id as int, map, views(old(objects)@), fov_map),
        ),
{
    let pos = objects[monster_id].position;
    let ghost before = views(objects@);
    if fov_map.is_in_fov(pos.0, pos.1) {
        let target = objects[PLAYER].position;
        if distance_squared(pos, target) >= 4 {
            proof {
                lemma_step_between(pos, target);
                lemma_move_keeps_registry(map, before, monster_id as int, step_cell(pos, target));
            }
            move_towards(monster_id, target, map, objects)
        } else if objects[PLAYER].alive {
            proof {
                assert(reach(before[monster_id as int], before[PLAYER as int]) <= i32::MAX);
                lemma_damage_keeps_registry(
                    map,
                    before,
                    PLAYER as int,
                    before[monster_id as int].damage_to(before[PLAYER as int]),
                );
            }
            Some(attack(monster_id, PLAYER, objects))
        } else {
            None
        }
    } else {
        None
    }
}

} // verus!
