//! The session: the level, the entities on it, and the order of play.

use crate::ai::ai_take_turn;
use crate::ai::carried_out;
use crate::ai::decision;
use crate::ai::decision_event;
use crate::dungeon::Dungeon;
use crate::dungeon::GenerationConfig;
use crate::entity::Object;
use crate::entity::ObjectView;
use crate::fov::FovMap;
use crate::grid::TileGrid;
use crate::random::RandomSource;
use crate::rect::Rect;
use crate::registry::check_registry;
use crate::registry::occupied;
use crate::registry::registry_wf;
use crate::registry::views;
use crate::registry::Event;
use crate::registry::PLAYER;
use crate::spawn::admits_monsters;
use crate::spawn::draws_for;
use crate::spawn::inside;
use crate::spawn::monsters_put;
use crate::spawn::new_player;
use crate::spawn::orc_at;
use crate::spawn::place_objects;
use crate::spawn::player_at;
use crate::spawn::troll_at;
use crate::spawn::MAX_ROOM_MONSTERS;
use crate::turn::handle_keys;
use crate::turn::key_event;
use crate::turn::key_handled;
use crate::turn::key_in_bounds;
use crate::turn::Key;
use crate::turn::PlayerAction;
use crate::turn::TurnResult;
use vstd::prelude::*;

verus! {

/// The registry after the first `upto` entities have had their turn as
/// monsters: in registry order, each entity that has a behaviour decides on
/// what the ones before it have left, and acts at once.
pub open spec fn ai_phase(map: &TileGrid, objects: Seq<ObjectView>, fov: &FovMap, upto: int) -> Seq<ObjectView>
    decreases upto,
{
    if upto <= 0 {
        objects
    } else {
        let earlier = ai_phase(map, objects, fov, upto - 1);
        if earlier[upto - 1].ai is Some {
            carried_out(earlier, upto - 1, decision(upto - 1, map, earlier, fov))
        } else {
            earlier
        }
    }
}

/// What is to report of the turns of the first `upto` entities as monsters,
/// in the order in which it happened.
pub open spec fn ai_events(map: &TileGrid, objects: Seq<ObjectView>, fov: &FovMap, upto: int) -> Seq<Event>
    decreases upto,
{
    if upto <= 0 {
        Seq::empty()
    } else {
        let earlier = ai_phase(map, objects, fov, upto - 1);
        let reported = ai_events(map, objects, fov, upto - 1);
        if earlier[upto - 1].ai is Some {
            match decision_event(earlier, upto - 1, decision(upto - 1, map, earlier, fov)) {
                Some(event) => reported.push(event),
                None => reported,
            }
        } else {
            reported
        }
    }
}

/// Monsters that are out of sight do nothing: if the cell of every entity
/// that has a behaviour is out of sight, the round of the monsters leaves the
/// registry as it was.
pub proof fn lemma_unseen_monsters_do_nothing(map: &TileGrid, objects: Seq<ObjectView>, fov: &FovMap, upto: int)
    requires
        upto <= objects.len(),
        forall|i: int|
            0 <= i < upto && (#[trigger] objects[i]).ai is Some ==> !fov.sees(
                objects[i].position.0 as int,
                objects[i].position.1 as int,
            ),
    ensures
        ai_phase(map, objects, fov, upto) == objects,
        ai_events(map, objects, fov, upto) == Seq::<Event>::empty(),
    decreases upto,
{
    if upto > 0 {
        lemma_unseen_monsters_do_nothing(map, objects, fov, upto - 1);
    }
}

/// Gives every entity that has a behaviour its turn, in registry order.
/// Reports what the monsters did.
pub fn run_ai(map: &TileGrid, objects: &mut [Object], fov_map: &FovMap) -> (events: Vec<Event>)
    requires
        PLAYER < old(objects)@.len(),
        map.wf(),
        fov_map.wf(),
        fov_map.spec_width() == map.spec_width(),
        fov_map.spec_height() == map.spec_height(),
        registry_wf(map, views(old(objects)@)),
        old(objects)@[PLAYER as int].ai is None,
    ensures
        final(objects)@.len() == old(objects)@.len(),
        registry_wf(map, views(final(objects)@)),
        final(objects)@[PLAYER as int].ai is None,
        views(final(objects)@) == ai_phase(map, views(old(objects)@), fov_map, old(objects)@.len() as int),
        events@ == ai_events(map, views(old(objects)@), fov_map, old(objects)@.len() as int),
{
    let ghost before = views(objects@);
    let mut events: Vec<Event> = Vec::new();
    let mut id: usize = 0;
    while id < objects.len()
        invariant
            id <= objects@.len(),
            objects@.len() == old(objects)@.len(),
            PLAYER < objects@.len(),
            before == views(old(objects)@),
            map.wf(),
            fov_map.wf(),
            fov_map.spec_width() == map.spec_width(),
            fov_map.spec_height() == map.spec_height(),
            registry_wf(map, views(objects@)),
            objects@[PLAYER as int].ai is None,
            views(objects@) == ai_phase(map, before, fov_map, id as int),
            events@ == ai_events(map, before, fov_map, id as int),
        decreases objects@.len() - id,
    {
        if objects[id].ai.is_some() {
            match ai_take_turn(id, map, objects, fov_map) {
                Some(event) => {
                    events.push(event);
                },
                None => {},
            }
            assert(views(objects@)[PLAYER as int] == objects@[PLAYER as int]@);
        }
        id = id + 1;
    }
    events
}

/// How the turn ends, and the registry after it, when the player's input is
/// `key`: the player acts, and if that took a turn and the player is alive,
/// the monsters act.
pub open spec fn turn_taken(map: &TileGrid, objects: Seq<ObjectView>, key: Key, fov: &FovMap) -> (
    TurnResult,
    Seq<ObjectView>,
) {
    let (result, after_player) = key_handled(map, objects, key);
    if result == TurnResult::TookTurn && after_player[PLAYER as int].alive {
        (result, ai_phase(map, after_player, fov, after_player.len() as int))
    } else {
        (result, after_player)
    }
}

/// What is to report of the turn on the input `key`: what the player did,
/// then what the monsters did if they acted.
pub open spec fn turn_events(map: &TileGrid, objects: Seq<ObjectView>, key: Key, fov: &FovMap) -> Seq<Event> {
    let (result, after_player) = key_handled(map, objects, key);
    let reported = match key_event(map, objects, key) {
        Some(event) => seq![event],
        None => Seq::empty(),
    };
    if result == TurnResult::TookTurn && after_player[PLAYER as int].alive {
        reported + ai_events(map, after_player, fov, after_player.len() as int)
    } else {
        reported
    }
}

/// Every entity but the player is a fresh monster that stands inside one of
/// `rooms`, on a cell that was occupied by nothing before it in the registry.
pub open spec fn monsters_placed(map: &TileGrid, rooms: Seq<Rect>, objects: Seq<ObjectView>) -> bool {
    forall|k: int|
        1 <= k < objects.len() ==> {
            let monster = #[trigger] objects[k];
            &&& monster == orc_at(monster.position) || monster == troll_at(monster.position)
            &&& exists|r: int| 0 <= r < rooms.len() && inside(#[trigger] rooms[r], monster.position)
            &&& !occupied(map, objects.subrange(0, k), monster.position)
        }
}

/// The registry after the rooms were populated in order, room `r` with the
/// draws `draws[r]`, starting from `start`.
pub open spec fn rooms_populated(
    map: &TileGrid,
    start: Seq<ObjectView>,
    draws: Seq<Seq<((i32, i32), bool)>>,
) -> Seq<ObjectView>
    decreases draws.len(),
{
    if draws.len() == 0 {
        start
    } else {
        monsters_put(map, rooms_populated(map, start, draws.drop_last()), draws.last())
    }
}

/// `after` is what populating `rooms` in order can make of `start`: the
/// registry after some draws for each room were put in turn.
pub open spec fn level_yields(map: &TileGrid, rooms: Seq<Rect>, start: Seq<ObjectView>, after: Seq<ObjectView>) -> bool {
    exists|draws: Seq<Seq<((i32, i32), bool)>>|
        {
            &&& draws.len() == rooms.len()
            &&& forall|r: int| 0 <= r < draws.len() ==> draws_for(rooms[r], #[trigger] draws[r])
            &&& after == #[trigger] rooms_populated(map, start, draws)
        }
}

/// The state of one game: the level, its rooms, the entities, and where the
/// player stood when the field of view was last brought up to date.
pub struct Session {
    pub map: TileGrid,
    pub rooms: Vec<Rect>,
    pub objects: Vec<Object>,
    pub previous_player_position: (i32, i32),
}

impl Session {
    /// The session is consistent: the registry holds the player, who has no
    /// behaviour of its own, and is consistent with the grid.
    pub open spec fn wf(&self) -> bool {
        &&& self.map.wf()
        &&& PLAYER < self.objects@.len()
        &&& registry_wf(&self.map, views(self.objects@))
        &&& self.objects@[PLAYER as int].ai is None
    }

    /// Starts a session: generates the level, puts the player on the center
    /// of the first room and monsters into every room, in room order.
    pub fn new(config: &GenerationConfig, rng: &mut RandomSource) -> (session: Session)
        requires
            config.valid(),
            2 <= config.room_min_size,
        ensures
            session.wf(),
            (Dungeon { grid: session.map, rooms: session.rooms }).wf(),
            config.yields((Dungeon { grid: session.map, rooms: session.rooms }).layout()),
            session.map.spec_width() == config.width,
            session.map.spec_height() == config.height,
            1 <= session.rooms@.len() <= config.max_rooms,
            forall|i: int| 0 <= i < session.rooms@.len() ==> config.admits(#[trigger] session.rooms@[i]),
            views(session.objects@)[PLAYER as int] == player_at(
                (session.rooms@[0].spec_center().0 as i32, session.rooms@[0].spec_center().1 as i32),
            ),
            !session.map.tile_at(
                session.rooms@[0].spec_center().0,
                session.rooms@[0].spec_center().1,
            ).blocked,
            session.objects@.len() <= 1 + MAX_ROOM_MONSTERS * session.rooms@.len(),
            level_yields(
                &session.map,
                session.rooms@,
                seq![
                    player_at(
                        (session.rooms@[0].spec_center().0 as i32, session.rooms@[0].spec_center().1 as i32),
                    ),
                ],
                views(session.objects@),
            ),
            monsters_placed(&session.map, session.rooms@, views(session.objects@)),
            session.previous_player_position == ((-1) as i32, (-1) as i32),
    {
        let dungeon = Dungeon::generate(config, rng);
        let player = new_player(dungeon.player_spawn());
        let mut objects: Vec<Object> = Vec::new();
        objects.push(player);
        let ghost start = views(objects@);
        let ghost mut draws: Seq<Seq<((i32, i32), bool)>> = Seq::empty();
        assert(start =~= seq![player@]);

        let mut r: usize = 0;
        while r < dungeon.rooms.len()
            invariant
                r <= dungeon.rooms@.len(),
                config.valid(),
                2 <= config.room_min_size,
                dungeon.wf(),
                config.yields(dungeon.layout()),
                dungeon.grid.spec_width() == config.width,
                dungeon.grid.spec_height() == config.height,
                forall|i: int| 0 <= i < dungeon.rooms@.len() ==> config.admits(#[trigger] dungeon.rooms@[i]),
                1 <= objects@.len() <= 1 + MAX_ROOM_MONSTERS * r,
                objects@[0] == player,
                registry_wf(&dungeon.grid, views(objects@)),
                admits_monsters(views(objects@)),
                monsters_placed(&dungeon.grid, dungeon.rooms@.subrange(0, r as int), views(objects@)),
                draws.len() == r,
                forall|q: int| 0 <= q < draws.len() ==> draws_for(dungeon.rooms@[q], #[trigger] draws[q]),
                views(objects@) == rooms_populated(&dungeon.grid, start, draws),
            decreases dungeon.rooms@.len() - r,
        {
            let room = dungeon.rooms[r];
            let ghost before = views(objects@);
            let ghost rooms_before = dungeon.rooms@.subrange(0, r as int);
            let ghost rooms_now = dungeon.rooms@.subrange(0, r + 1);
            place_objects(room, &dungeon.grid, &mut objects, rng);
            proof {
                let now = views(objects@);
                let drawn = choose|drawn: Seq<((i32, i32), bool)>|
                    draws_for(room, drawn) && now == #[trigger] monsters_put(&dungeon.grid, before, drawn);
                let longer = draws.push(drawn);
                assert(longer.drop_last() =~= draws);
                draws = longer;
                assert forall|k: int| 1 <= k < now.len() implies {
                    let monster = #[trigger] now[k];
                    &&& monster == orc_at(monster.position) || monster == troll_at(monster.position)
                    &&& exists|q: int| 0 <= q < rooms_now.len() && inside(#[trigger] rooms_now[q], monster.position)
                    &&& !occupied(&dungeon.grid, now.subrange(0, k), monster.position)
                } by {
                    if k < before.len() {
                        assert(now.subrange(0, k) =~= before.subrange(0, k));
                        let q = choose|q: int|
                            0 <= q < rooms_before.len() && inside(#[trigger] rooms_before[q], before[k].position);
                        assert(inside(rooms_now[q], now[k].position));
                    } else {
                        assert(inside(rooms_now[r as int], now[k].position));
                    }
                }
            }
            r = r + 1;
        }
        proof {
            assert(dungeon.layout().rooms[0].covers(
                dungeon.rooms@[0].spec_center().0,
                dungeon.rooms@[0].spec_center().1,
            ));
        }
        Session { map: dungeon.grid, rooms: dungeon.rooms, objects: objects, previous_player_position: (-1, -1) }
    }

    /// Whether the player has moved since the field of view was last brought
    /// up to date, so that it has to be computed again.
    pub fn fov_is_stale(&self) -> (stale: bool)
        requires
            PLAYER < self.objects@.len(),
        ensures
            stale == (self.previous_player_position != self.objects@[PLAYER as int].position),
    {
        let position = self.objects[PLAYER].position;
        self.previous_player_position.0 != position.0 || self.previous_player_position.1 != position.1
    }

    /// Whether the session is consistent, given that its grid is.
    pub fn check(&self) -> (b: bool)
        requires
            self.map.wf(),
        ensures
            b == self.wf(),
    {
        if self.objects.len() == 0 {
            return false;
        }
        if self.objects[PLAYER].ai.is_some() {
            return false;
        }
        check_registry(&self.map, self.objects.as_slice())
    }

    /// Whether `key` can be played: a direction key must not lead the player
    /// off the grid.
    pub fn accepts(&self, key: Key) -> (b: bool)
        requires
            self.wf(),
        ensures
            b == key_in_bounds(&self.map, views(self.objects@), key),
    {
        match key.action() {
            PlayerAction::Move(dx, dy) => {
                let position = self.objects[PLAYER].position;
                let x = position.0 as i64 + dx as i64;
                let y = position.1 as i64 + dy as i64;
                0 <= x && x < self.map.width() as i64 && 0 <= y && y < self.map.height() as i64
            },
            _ => true,
        }
    }

    /// Plays one turn on the input `key`, under the visibility `fov_map`.
    ///
    /// The player's position is remembered, then the player acts. Unless the
    /// session ends there, the monsters act if the player took a turn and is
    /// alive.
    pub fn take_turn(&mut self, key: Key, fov_map: &FovMap) -> (outcome: (TurnResult, Vec<Event>))
        requires
            old(self).wf(),
            fov_map.wf(),
            fov_map.spec_width() == old(self).map.spec_width(),
            fov_map.spec_height() == old(self).map.spec_height(),
            key_in_bounds(&old(self).map, views(old(self).objects@), key),
        ensures
            final(self).wf(),
            final(self).map == old(self).map,
            final(self).rooms == old(self).rooms,
            final(self).objects@.len() == old(self).objects@.len(),
            final(self).previous_player_position == old(self).objects@[PLAYER as int].position,
            (outcome.0, views(final(self).objects@)) == turn_taken(
                &old(self).map,
                views(old(self).objects@),
                key,
                fov_map,
            ),
            outcome.1@ == turn_events(&old(self).map, views(old(self).objects@), key, fov_map),
    {
        self.previous_player_position = self.objects[PLAYER].position;
        let (result, event) = handle_keys(&self.map, self.objects.as_mut_slice(), key);
        let mut events: Vec<Event> = Vec::new();
        match event {
            Some(event) => {
                events.push(event);
            },
            None => {},
        }
        match result {
            TurnResult::TookTurn => {
                assert(views(self.objects@)[PLAYER as int] == self.objects@[PLAYER as int]@);
                if self.objects[PLAYER].alive {
                    let mut later = run_ai(&self.map, self.objects.as_mut_slice(), fov_map);
                    events.append(&mut later);
                }
            },
            _ => {},
        }
        (result, events)
    }
}

} // verus!
