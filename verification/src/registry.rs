//! The entity registry: all entities of a session in one index-addressed
//! store, the player first.

use crate::entity::DeathCallback;
use crate::entity::Object;
use crate::entity::ObjectView;
use crate::grid::TileGrid;
use vstd::prelude::*;

verus! {

/// The index of the player in the registry.
pub const PLAYER: usize = 0;

/// Something that happened to the entities, by registry index.
#[derive(Clone, Copy, Debug, PartialEq, Eq)]
pub enum Event {
    /// Entity `id` stepped from one cell onto another.
    Moved { id: usize, from: (i32, i32), to: (i32, i32) },
    /// `attacker` struck `target` and took `damage` hit points from it; a
    /// damage of zero is a blow without effect. `death` is the kind of the
    /// target's death if the blow killed it.
    Attacked { attacker: usize, target: usize, damage: i32, death: Option<DeathCallback> },
}

/// What is to report when entity `attacker` attacks entity `target`.
pub open spec fn attack_event(objects: Seq<ObjectView>, attacker: int, target: int) -> Event {
    let damage = objects[attacker].damage_to(objects[target]);
    Event::Attacked {
        attacker: attacker as usize,
        target: target as usize,
        damage: damage as i32,
        death: objects[target].death_by(damage),
    }
}

/// What is to report when entity `id` steps onto `dest`.
pub open spec fn move_event(objects: Seq<ObjectView>, id: int, dest: (i32, i32)) -> Event {
    Event::Moved { id: id as usize, from: objects[id].position, to: dest }
}

/// The entities of a registry as mathematical values, in registry order.
pub open spec fn views(objects: Seq<Object>) -> Seq<ObjectView> {
    objects.map_values(|o: Object| o@)
}

/// The most that a blow of `attacker` could take from `target`, now or after
/// the attacker has lost its combat statistics.
pub open spec fn reach(attacker: ObjectView, target: ObjectView) -> int {
    (if attacker.power() > 0 {
        attacker.power()
    } else {
        0
    }) - target.defense()
}

/// Every blow that one entity of the registry can deal to another fits the
/// integer type of the hit points.
pub open spec fn blows_fit(objects: Seq<ObjectView>) -> bool {
    forall|i: int, j: int|
        0 <= i < objects.len() && 0 <= j < objects.len() ==> #[trigger] reach(objects[i], objects[j])
            <= i32::MAX
}

/// Every entity stands on a cell of the grid.
pub open spec fn on_grid(grid: &TileGrid, objects: Seq<ObjectView>) -> bool {
    forall|i: int|
        0 <= i < objects.len() ==> grid.contains(
            (#[trigger] objects[i]).position.0 as int,
            objects[i].position.1 as int,
        )
}

/// The registry is consistent with the grid: every entity is consistent, stands
/// on a cell of the grid, and every blow fits.
pub open spec fn registry_wf(grid: &TileGrid, objects: Seq<ObjectView>) -> bool {
    &&& forall|i: int| 0 <= i < objects.len() ==> (#[trigger] objects[i]).wf()
    &&& on_grid(grid, objects)
    &&& blows_fit(objects)
}

/// Dealing damage to one entity of a consistent registry leaves the registry
/// consistent.
pub proof fn lemma_damage_keeps_registry(grid: &TileGrid, objects: Seq<ObjectView>, target: int, damage: int)
    requires
        registry_wf(grid, objects),
        0 <= target < objects.len(),
        damage <= i32::MAX,
    ensures
        registry_wf(grid, objects.update(target, objects[target].damaged(damage))),
{
    let after = objects.update(target, objects[target].damaged(damage));
    assert forall|i: int, j: int| 0 <= i < after.len() && 0 <= j < after.len() implies #[trigger] reach(
        after[i],
        after[j],
    ) <= i32::MAX by {
        assert(reach(objects[i], objects[j]) <= i32::MAX);
    }
}

/// Putting one entity of a consistent registry on another cell of the grid
/// leaves the registry consistent.
pub proof fn lemma_move_keeps_registry(grid: &TileGrid, objects: Seq<ObjectView>, mover: int, pos: (i32, i32))
    requires
        registry_wf(grid, objects),
        0 <= mover < objects.len(),
        grid.contains(pos.0 as int, pos.1 as int),
    ensures
        registry_wf(grid, objects.update(mover, ObjectView { position: pos, ..objects[mover] })),
{
    let after = objects.update(mover, ObjectView { position: pos, ..objects[mover] });
    assert forall|i: int, j: int| 0 <= i < after.len() && 0 <= j < after.len() implies #[trigger] reach(
        after[i],
        after[j],
    ) <= i32::MAX by {
        assert(reach(objects[i], objects[j]) <= i32::MAX);
    }
}

/// Whether the registry is consistent with the grid.
pub fn check_registry(map: &TileGrid, objects: &[Object]) -> (b: bool)
    ensures
        b == registry_wf(map, views(objects@)),
{
    let ghost all = views(objects@);
    let mut i: usize = 0;
    while i < objects.len()
        invariant
            i <= objects@.len(),
            all == views(objects@),
            forall|k: int| 0 <= k < i ==> (#[trigger] all[k]).wf(),
            forall|k: int|
                0 <= k < i ==> map.contains((#[trigger] all[k]).position.0 as int, all[k].position.1 as int),
            forall|k: int, j: int| 0 <= k < i && 0 <= j < all.len() ==> #[trigger] reach(all[k], all[j]) <= i32::MAX,
        decreases objects@.len() - i,
    {
        assert(all[i as int] == objects@[i as int]@);
        let object = &objects[i];
        if !map.in_bounds(object.position.0, object.position.1) {
            return false;
        }
        let power: i64 = match object.fighter {
            Some(fighter) => {
                if object.alive && !(0 < fighter.hp && fighter.hp <= fighter.max_hp) {
                    return false;
                }
                if fighter.power > 0 {
                    fighter.power as i64
                } else {
                    0
                }
            },
            None => 0,
        };
        let mut j: usize = 0;
        while j < objects.len()
            invariant
                j <= objects@.len(),
                i < objects@.len(),
                all == views(objects@),
                power == (if all[i as int].power() > 0 {
                    all[i as int].power()
                } else {
                    0
                }),
                forall|m: int| 0 <= m < j ==> #[trigger] reach(all[i as int], all[m]) <= i32::MAX,
            decreases objects@.len() - j,
        {
            let defense: i64 = match objects[j].fighter {
                Some(fighter) => fighter.defense as i64,
                None => 0,
            };
            if power - defense > i32::MAX as i64 {
                assert(reach(all[i as int], all[j as int]) > i32::MAX);
                return false;
            }
            j = j + 1;
        }
        i = i + 1;
    }
    true
}

/// Some entity that blocks movement stands on `pos`.
pub open spec fn blocker_at(objects: Seq<ObjectView>, pos: (i32, i32)) -> bool {
    exists|i: int| 0 <= i < objects.len() && (#[trigger] objects[i]).blocks && objects[i].position == pos
}

/// The cell `pos` is occupied: its tile is blocked, or an entity that blocks
/// movement stands on it.
pub open spec fn occupied(grid: &TileGrid, objects: Seq<ObjectView>, pos: (i32, i32)) -> bool {
    grid.tile_at(pos.0 as int, pos.1 as int).blocked || blocker_at(objects, pos)
}

/// Whether the cell `pos` is occupied.
pub fn is_blocked(pos: (i32, i32), map: &TileGrid, objects: &[Object]) -> (b: bool)
    requires
        map.wf(),
        map.contains(pos.0 as int, pos.1 as int),
    ensures
        b == occupied(map, views(objects@), pos),
{
    if map.tile(pos.0, pos.1).blocked {
        return true;
    }
    let ghost all = views(objects@);
    let mut i: usize = 0;
    while i < objects.len()
        invariant
            i <= objects@.len(),
            all == views(objects@),
            forall|k: int| 0 <= k < i ==> !((#[trigger] all[k]).blocks && all[k].position == pos),
        decreases objects@.len() - i,
    {
        if objects[i].blocks && objects[i].position.0 == pos.0 && objects[i].position.1 == pos.1 {
            assert(all[i as int].blocks && all[i as int].position == pos);
            return true;
        }
        i = i + 1;
    }
    false
}

/// Borrows two different elements of `items` mutably at once.
pub fn mut_two<T>(first_index: usize, second_index: usize, items: &mut [T]) -> (pair: (&mut T, &mut T))
    requires
        first_index != second_index,
        first_index < old(items)@.len(),
        second_index < old(items)@.len(),
    ensures
        *pair.0 == old(items)@[first_index as int],
        *pair.1 == old(items)@[second_index as int],
        final(items)@ == old(items)@.update(first_index as int, *final(pair.0)).update(
            second_index as int,
            *final(pair.1),
        ),
{
    let split_at_index = if first_index < second_index {
        second_index
    } else {
        first_index
    };
    let (first_slice, second_slice) = items.split_at_mut(split_at_index);
    if first_index < second_index {
        (&mut first_slice[first_index], &mut second_slice[0])
    } else {
        (&mut second_slice[0], &mut first_slice[second_index])
    }
}

/// Entity `attacker_id` attacks entity `target_id`: the target is dealt the
/// damage that the attacker's power does against its defense, and nothing else
/// in the registry changes. Reports the blow.
pub fn attack(attacker_id: usize, target_id: usize, objects: &mut [Object]) -> (event: Event)
    requires
        attacker_id != target_id,
        attacker_id < old(objects)@.len(),
        target_id < old(objects)@.len(),
        old(objects)@[target_id as int]@.wf(),
        old(objects)@[attacker_id as int]@.damage_to(old(objects)@[target_id as int]@) <= i32::MAX,
    ensures
        final(objects)@.len() == old(objects)@.len(),
        views(final(objects)@) == ({
            let before = views(old(objects)@);
            before.update(
                target_id as int,
                before[target_id as int].damaged(before[attacker_id as int].damage_to(before[target_id as int])),
            )
        }),
        event == attack_event(views(old(objects)@), attacker_id as int, target_id as int),
{
    let ghost before = views(objects@);
    let damage = objects[attacker_id].damage_to(&objects[target_id]);
    let death = objects[target_id].death_by(damage);
    let (attacker, target) = mut_two(attacker_id, target_id, objects);
    attacker.attack(target);
    assert(views(objects@) =~= before.update(
        target_id as int,
        before[target_id as int].damaged(before[attacker_id as int].damage_to(before[target_id as int])),
    ));
    Event::Attacked { attacker: attacker_id, target: target_id, damage, death }
}

} // verus!
