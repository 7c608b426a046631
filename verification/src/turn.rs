//! The player's turn: from a key press to a move or an attack.

use crate::entity::Object;
use crate::entity::ObjectView;
use crate::grid::TileGrid;
use crate::registry::attack;
use crate::registry::attack_event;
use crate::registry::is_blocked;
use crate::registry::lemma_damage_keeps_registry;
use crate::registry::lemma_move_keeps_registry;
use crate::registry::move_event;
use crate::registry::occupied;
use crate::registry::reach;
use crate::registry::registry_wf;
use crate::registry::views;
use crate::registry::Event;
use crate::registry::PLAYER;
use vstd::prelude::*;

verus! {

/// What the keyboard reports of a key press, as far as the game reads it.
#[derive(Clone, Copy, Debug, PartialEq, Eq, Structural)]
pub enum KeyCode {
    Up,
    Down,
    Left,
    Right,
    Escape,
    Enter,
    /// A printable character; which one is reported beside the code.
    Char,
    /// Any other key.
    Other,
}

/// An input event.
#[derive(Clone, Copy, Debug, PartialEq, Eq, Structural)]
pub enum Key {
    Up,
    Down,
    Left,
    Right,
    Quit,
    Escape,
    ToggleFullscreen,
    Other,
}

/// What the player asks for.
#[derive(Clone, Copy, Debug, PartialEq, Eq, Structural)]
pub enum PlayerAction {
    /// Step by the given offset, or attack what stands there.
    Move(i32, i32),
    /// Switch between windowed and fullscreen display.
    ToggleFullscreen,
    /// Leave the game.
    Exit,
    /// Nothing.
    Idle,
}

/// How the player's action ended.
#[derive(Clone, Copy, Debug, PartialEq, Eq, Structural)]
pub enum TurnResult {
    /// The player moved or attacked: the monsters are next.
    TookTurn,
    /// Nothing happened that costs a turn.
    DidntTakeTurn,
    /// The session is over.
    Exit,
}

impl Key {
    /// The input event that a key press stands for: the arrow keys, `q` to
    /// quit, Escape, and Enter held with Alt to toggle fullscreen display.
    pub open spec fn spec_read(code: KeyCode, printable: char, alt: bool) -> Key {
        match code {
            KeyCode::Up => Key::Up,
            KeyCode::Down => Key::Down,
            KeyCode::Left => Key::Left,
            KeyCode::Right => Key::Right,
            KeyCode::Char => if printable == 'q' {
                Key::Quit
            } else {
                Key::Other
            },
            KeyCode::Escape => Key::Escape,
            KeyCode::Enter => if alt {
                Key::ToggleFullscreen
            } else {
                Key::Other
            },
            KeyCode::Other => Key::Other,
        }
    }

    /// The input event that a key press stands for.
    #[verifier::when_used_as_spec(spec_read)]
    pub fn read(code: KeyCode, printable: char, alt: bool) -> (key: Key)
        ensures
            key == Key::spec_read(code, printable, alt),
    {
        match code {
            KeyCode::Up => Key::Up,
            KeyCode::Down => Key::Down,
            KeyCode::Left => Key::Left,
            KeyCode::Right => Key::Right,
            KeyCode::Char => if printable == 'q' {
                Key::Quit
            } else {
                Key::Other
            },
            KeyCode::Escape => Key::Escape,
            KeyCode::Enter => if alt {
                Key::ToggleFullscreen
            } else {
                Key::Other
            },
            KeyCode::Other => Key::Other,
        }
    }

    /// The action that the event asks for.
    pub open spec fn spec_action(self) -> PlayerAction {
        match self {
            Key::Up => PlayerAction::Move(0, (-1) as i32),
            Key::Down => PlayerAction::Move(0, 1),
            Key::Left => PlayerAction::Move((-1) as i32, 0),
            Key::Right => PlayerAction::Move(1, 0),
            Key::Quit => PlayerAction::Exit,
            Key::Escape => PlayerAction::Exit,
            Key::ToggleFullscreen => PlayerAction::ToggleFullscreen,
            Key::Other => PlayerAction::Idle,
        }
    }

    /// The action that the event asks for.
    #[verifier::when_used_as_spec(spec_action)]
    pub fn action(self) -> (action: PlayerAction)
        ensures
            action == self.spec_action(),
    {
        match self {
            Key::Up => PlayerAction::Move(0, -1),
            Key::Down => PlayerAction::Move(0, 1),
            Key::Left => PlayerAction::Move(-1, 0),
            Key::Right => PlayerAction::Move(1, 0),
            Key::Quit => PlayerAction::Exit,
            Key::Escape => PlayerAction::Exit,
            Key::ToggleFullscreen => PlayerAction::ToggleFullscreen,
            Key::Other => PlayerAction::Idle,
        }
    }
}

/// Entity `i` can be attacked and stands on `pos`.
pub open spec fn fighter_at(objects: Seq<ObjectView>, pos: (i32, i32), i: int) -> bool {
    0 <= i < objects.len() && objects[i].fighter is Some && objects[i].position == pos
}

/// Entity `t` is the one that a blow aimed at `pos` hits: the first entity of
/// the registry that can be attacked and stands there.
pub open spec fn is_target(objects: Seq<ObjectView>, pos: (i32, i32), t: int) -> bool {
    fighter_at(objects, pos, t) && forall|k: int| 0 <= k < t ==> !fighter_at(objects, pos, k)
}

/// Nothing that stands on `pos` can be attacked.
pub open spec fn no_target(objects: Seq<ObjectView>, pos: (i32, i32)) -> bool {
    forall|k: int| !fighter_at(objects, pos, k)
}

/// The cell at `delta` from the cell of entity `id`.
pub open spec fn destination(objects: Seq<ObjectView>, id: int, delta: (i32, i32)) -> (int, int) {
    (objects[id].position.0 + delta.0, objects[id].position.1 + delta.1)
}

/// The first entity that can be attacked and stands on `pos`, if there is one.
pub fn find_target(pos: (i32, i32), objects: &[Object]) -> (found: Option<usize>)
    ensures
        match found {
            Some(t) => is_target(views(objects@), pos, t as int),
            None => no_target(views(objects@), pos),
        },
{
    let ghost all = views(objects@);
    let mut i: usize = 0;
    while i < objects.len()
        invariant
            i <= objects@.len(),
            all == views(objects@),
            forall|k: int| 0 <= k < i ==> !fighter_at(all, pos, k),
        decreases objects@.len() - i,
    {
        if objects[i].fighter.is_some() && objects[i].position.0 == pos.0 && objects[i].position.1 == pos.1 {
            return Some(i);
        }
        i = i + 1;
    }
    None
}

/// At most one entity is the target of a blow aimed at `pos`.
pub proof fn lemma_target_unique(objects: Seq<ObjectView>, pos: (i32, i32), s: int, t: int)
    requires
        is_target(objects, pos, s),
        is_target(objects, pos, t),
    ensures
        s == t,
{
}

/// The entity that a blow aimed at `pos` hits, if any.
pub open spec fn target_of(objects: Seq<ObjectView>, pos: (i32, i32)) -> Option<int> {
    if exists|t: int| is_target(objects, pos, t) {
        Some(choose|t: int| is_target(objects, pos, t))
    } else {
        None
    }
}

/// How the turn ends, and the registry after it, when entity `id` acts toward
/// the cell at `delta` from its own.
///
/// If an entity that can be attacked stands there, `id` attacks the first
/// such entity, whether or not it blocks the way, and the turn is taken.
/// Otherwise `id` steps onto the cell if it is not occupied, and the turn is
/// taken. Otherwise nothing changes and no turn is taken.
pub open spec fn moved_or_attacked(id: int, delta: (i32, i32), map: &TileGrid, objects: Seq<ObjectView>) -> (
    TurnResult,
    Seq<ObjectView>,
) {
    let dest = (destination(objects, id, delta).0 as i32, destination(objects, id, delta).1 as i32);
    match target_of(objects, dest) {
        Some(t) => (
            TurnResult::TookTurn,
            objects.update(t, objects[t].damaged(objects[id].damage_to(objects[t]))),
        ),
        None => if occupied(map, objects, dest) {
            (TurnResult::DidntTakeTurn, objects)
        } else {
            (TurnResult::TookTurn, objects.update(id, ObjectView { position: dest, ..objects[id] }))
        },
    }
}

/// What is to report when entity `id` acts toward the cell at `delta` from
/// its own: the blow, the step, or nothing if the way is blocked.
pub open spec fn act_event(id: int, delta: (i32, i32), map: &TileGrid, objects: Seq<ObjectView>) -> Option<
    Event,
> {
    let dest = (destination(objects, id, delta).0 as i32, destination(objects, id, delta).1 as i32);
    match target_of(objects, dest) {
        Some(t) => Some(attack_event(objects, id, t)),
        None => if occupied(map, objects, dest) {
            None
        } else {
            Some(move_event(objects, id, dest))
        },
    }
}

/// Entity `id` acts toward the cell at `delta` from its own: it attacks what
/// can be attacked there, or else steps onto the cell if it is free.
///
/// A step onto an occupied cell is not made: the registry stays as it is and
/// no turn is taken. Returns how the turn ends and what is to report.
pub fn move_or_attack(id: usize, delta: (i32, i32), map: &TileGrid, objects: &mut [Object]) -> (outcome: (
    TurnResult,
    Option<Event>,
))
    requires
        id < old(objects)@.len(),
        map.wf(),
        registry_wf(map, views(old(objects)@)),
        map.contains(
            destination(views(old(objects)@), id as int, delta).0,
            destination(views(old(objects)@), id as int, delta).1,
        ),
        !is_target(
            views(old(objects)@),
            (
                destination(views(old(objects)@), id as int, delta).0 as i32,
                destination(views(old(objects)@), id as int, delta).1 as i32,
            ),
            id as int,
        ),
    ensures
        final(objects)@.len() == old(objects)@.len(),
        registry_wf(map, views(final(objects)@)),
        (outcome.0, views(final(objects)@)) == moved_or_attacked(id as int, delta, map, views(old(objects)@)),
        outcome.1 == act_event(id as int, delta, map, views(old(objects)@)),
        ({
            let before = views(old(objects)@);
            let dest = (
                destination(before, id as int, delta).0 as i32,
                destination(before, id as int, delta).1 as i32,
            );
            no_target(before, dest) && occupied(map, before, dest) ==> {
                &&& outcome.0 == TurnResult::DidntTakeTurn
                &&& outcome.1 is None
                &&& views(final(objects)@) == before
            }
        }),
{
    let ghost before = views(objects@);
    let from = objects[id].position;
    let new_pos = (from.0 + delta.0, from.1 + delta.1);
    let target_id = find_target(new_pos, objects);

    match target_id {
        Some(target_id) => {
            proof {
                assert(reach(before[id as int], before[target_id as int]) <= i32::MAX);
                lemma_damage_keeps_registry(
                    map,
                    before,
                    target_id as int,
                    before[id as int].damage_to(before[target_id as int]),
                );
                let t = choose|t: int| is_target(before, new_pos, t);
                lemma_target_unique(before, new_pos, t, target_id as int);
            }
            let event = attack(id, target_id, objects);
            (TurnResult::TookTurn, Some(event))
        },
        None => {
            if !is_blocked(new_pos, map, objects) {
                proof {
                    lemma_move_keeps_registry(map, before, id as int, new_pos);
                }
                objects[id].move_to(new_pos);
                assert(views(objects@) =~= before.update(
                    id as int,
                    ObjectView { position: new_pos, ..before[id as int] },
                ));
                (TurnResult::TookTurn, Some(Event::Moved { id: id, from: from, to: new_pos }))
            } else {
                (TurnResult::DidntTakeTurn, None)
            }
        },
    }
}

/// How the turn ends, and the registry after it, when the player's input is
/// `key`: a direction key moves or attacks, a quit key ends the session, and
/// any other key costs no turn and changes nothing.
pub open spec fn key_handled(map: &TileGrid, objects: Seq<ObjectView>, key: Key) -> (TurnResult, Seq<ObjectView>) {
    match key.spec_action() {
        PlayerAction::Move(dx, dy) => moved_or_attacked(PLAYER as int, (dx, dy), map, objects),
        PlayerAction::Exit => (TurnResult::Exit, objects),
        PlayerAction::ToggleFullscreen => (TurnResult::DidntTakeTurn, objects),
        PlayerAction::Idle => (TurnResult::DidntTakeTurn, objects),
    }
}

/// What is to report when the player's input is `key`.
pub open spec fn key_event(map: &TileGrid, objects: Seq<ObjectView>, key: Key) -> Option<Event> {
    match key.spec_action() {
        PlayerAction::Move(dx, dy) => act_event(PLAYER as int, (dx, dy), map, objects),
        _ => None,
    }
}

/// The player's destination for `key` is a cell of the grid, if `key` is a
/// direction key.
pub open spec fn key_in_bounds(map: &TileGrid, objects: Seq<ObjectView>, key: Key) -> bool {
    key.spec_action() matches PlayerAction::Move(dx, dy) ==> map.contains(
        destination(objects, PLAYER as int, (dx, dy)).0,
        destination(objects, PLAYER as int, (dx, dy)).1,
    )
}

/// Resolves an input event for the player. Returns how the turn ends and
/// what is to report.
pub fn handle_keys(map: &TileGrid, objects: &mut [Object], key: Key) -> (outcome: (TurnResult, Option<Event>))
    requires
        PLAYER < old(objects)@.len(),
        map.wf(),
        registry_wf(map, views(old(objects)@)),
        key_in_bounds(map, views(old(objects)@), key),
    ensures
        final(objects)@.len() == old(objects)@.len(),
        registry_wf(map, views(final(objects)@)),
        (outcome.0, views(final(objects)@)) == key_handled(map, views(old(objects)@), key),
        outcome.1 == key_event(map, views(old(objects)@), key),
{
    match key.action() {
        PlayerAction::Move(dx, dy) => {
            move_or_attack(PLAYER, (dx, dy), map, objects)
        },
        PlayerAction::Exit => (TurnResult::Exit, None),
        PlayerAction::ToggleFullscreen => (TurnResult::DidntTakeTurn, None),
        PlayerAction::Idle => (TurnResult::DidntTakeTurn, None),
    }
}

} // verus!
