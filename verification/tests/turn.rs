use roguelike::colors::white;
use roguelike::entity::Ai;
use roguelike::entity::DeathCallback;
use roguelike::entity::Fighter;
use roguelike::entity::Object;
use roguelike::grid::Tile;
use roguelike::grid::TileGrid;
use roguelike::registry::Event;
use roguelike::registry::PLAYER;
use roguelike::turn::find_target;
use roguelike::turn::handle_keys;
use roguelike::turn::move_or_attack;
use roguelike::turn::Key;
use roguelike::turn::KeyCode;
use roguelike::turn::PlayerAction;
use roguelike::turn::TurnResult;

fn open_grid(width: i32, height: i32) -> TileGrid {
    let mut grid = TileGrid::new(width, height);
    for x in 0..width {
        for y in 0..height {
            grid.set_tile(x, y, Tile::empty());
        }
    }
    grid
}

fn player_at(pos: (i32, i32)) -> Object {
    let mut p = Object::new("Player", '@', white(), pos);
    p.fighter = Some(Fighter { max_hp: 30, hp: 30, defense: 2, power: 5, on_death: DeathCallback::Player });
    p
}

fn orc_at(pos: (i32, i32)) -> Object {
    let mut o = Object::new("Orc", 'o', white(), pos);
    o.fighter = Some(Fighter { max_hp: 10, hp: 10, defense: 0, power: 3, on_death: DeathCallback::Monster });
    o.ai = Some(Ai);
    o
}

fn snapshot(objects: &[Object]) -> Vec<(String, char, (i32, i32), bool, bool, Option<Fighter>, Option<Ai>)> {
    objects.iter().map(|o| (o.name.clone(), o.glyph, o.position, o.blocks, o.alive, o.fighter, o.ai)).collect()
}

#[test]
fn key_presses_are_read_as_events() {
    assert_eq!(Key::read(KeyCode::Up, '\0', false), Key::Up);
    assert_eq!(Key::read(KeyCode::Down, '\0', false), Key::Down);
    assert_eq!(Key::read(KeyCode::Left, '\0', true), Key::Left);
    assert_eq!(Key::read(KeyCode::Right, 'q', false), Key::Right);
    assert_eq!(Key::read(KeyCode::Escape, '\0', false), Key::Escape);
    assert_eq!(Key::read(KeyCode::Char, 'q', false), Key::Quit);
    assert_eq!(Key::read(KeyCode::Char, 'Q', false), Key::Other);
    assert_eq!(Key::read(KeyCode::Char, 'x', false), Key::Other);
    assert_eq!(Key::read(KeyCode::Enter, '\0', true), Key::ToggleFullscreen);
    assert_eq!(Key::read(KeyCode::Enter, '\0', false), Key::Other);
    assert_eq!(Key::read(KeyCode::Other, 'q', true), Key::Other);
}

#[test]
fn events_ask_for_actions() {
    assert_eq!(Key::Up.action(), PlayerAction::Move(0, -1));
    assert_eq!(Key::Down.action(), PlayerAction::Move(0, 1));
    assert_eq!(Key::Left.action(), PlayerAction::Move(-1, 0));
    assert_eq!(Key::Right.action(), PlayerAction::Move(1, 0));
    assert_eq!(Key::Quit.action(), PlayerAction::Exit);
    assert_eq!(Key::Escape.action(), PlayerAction::Exit);
    assert_eq!(Key::ToggleFullscreen.action(), PlayerAction::ToggleFullscreen);
    assert_eq!(Key::Other.action(), PlayerAction::Idle);
}

#[test]
fn find_target_takes_the_first_fighter_on_the_cell() {
    let mut door = Object::new("Door", '+', white(), (3, 3));
    door.blocks = false;
    let objects = vec![player_at((1, 1)), door, orc_at((3, 3)), orc_at((3, 3)), orc_at((4, 3))];
    assert_eq!(find_target((3, 3), &objects), Some(2));
    assert_eq!(find_target((4, 3), &objects), Some(4));
    assert_eq!(find_target((1, 1), &objects), Some(0));
    assert_eq!(find_target((2, 2), &objects), None);
    assert_eq!(find_target((3, 4), &objects), None);
    assert_eq!(find_target((3, 3), &[]), None);
}

#[test]
fn move_onto_a_free_cell_takes_a_turn() {
    let grid = open_grid(10, 10);
    let mut objects = vec![player_at((5, 5)), orc_at((8, 8))];
    assert_eq!(move_or_attack(PLAYER, (1, 0), &grid, &mut objects).0, TurnResult::TookTurn);
    assert_eq!(objects[0].position, (6, 5));
    assert_eq!(move_or_attack(PLAYER, (0, -1), &grid, &mut objects).0, TurnResult::TookTurn);
    assert_eq!(objects[0].position, (6, 4));
    assert_eq!(objects[1].position, (8, 8));
    assert_eq!(objects[1].fighter.unwrap().hp, 10);
}

#[test]
fn move_into_a_wall_takes_no_turn() {
    let mut grid = open_grid(10, 10);
    grid.set_tile(5, 4, Tile::wall());
    let mut objects = vec![player_at((5, 5)), orc_at((8, 8))];
    let before = snapshot(&objects);
    assert_eq!(move_or_attack(PLAYER, (0, -1), &grid, &mut objects).0, TurnResult::DidntTakeTurn);
    assert_eq!(snapshot(&objects), before);
}

#[test]
fn move_onto_a_blocking_entity_takes_no_turn() {
    let grid = open_grid(10, 10);
    let boulder = Object::new("Boulder", '0', white(), (4, 5));
    let mut objects = vec![player_at((5, 5)), boulder];
    let before = snapshot(&objects);
    assert_eq!(move_or_attack(PLAYER, (-1, 0), &grid, &mut objects).0, TurnResult::DidntTakeTurn);
    assert_eq!(snapshot(&objects), before);
}

#[test]
fn move_onto_remains_is_a_step() {
    let grid = open_grid(10, 10);
    let mut orc = orc_at((5, 6));
    orc.take_damage(10);
    assert!(!orc.blocks);
    let mut objects = vec![player_at((5, 5)), orc];
    assert_eq!(move_or_attack(PLAYER, (0, 1), &grid, &mut objects).0, TurnResult::TookTurn);
    assert_eq!(objects[0].position, (5, 6));
    assert_eq!(objects[1].name, "remains of Orc");
}

#[test]
fn move_toward_a_monster_attacks_it() {
    let grid = open_grid(10, 10);
    let mut objects = vec![player_at((5, 5)), orc_at((5, 6))];
    assert_eq!(move_or_attack(PLAYER, (0, 1), &grid, &mut objects).0, TurnResult::TookTurn);
    assert_eq!(objects[0].position, (5, 5));
    assert_eq!(objects[1].fighter.unwrap().hp, 5);
    assert_eq!(objects[0].fighter.unwrap().hp, 30);
    assert_eq!(move_or_attack(PLAYER, (0, 1), &grid, &mut objects).0, TurnResult::TookTurn);
    assert!(!objects[1].alive);
    assert_eq!(objects[1].name, "remains of Orc");
    assert_eq!(objects[0].position, (5, 5));
    assert_eq!(move_or_attack(PLAYER, (0, 1), &grid, &mut objects).0, TurnResult::TookTurn);
    assert_eq!(objects[0].position, (5, 6));
}

#[test]
fn attack_comes_before_the_step_even_if_the_target_does_not_block() {
    let grid = open_grid(10, 10);
    let mut ghost = orc_at((6, 5));
    ghost.blocks = false;
    let mut objects = vec![player_at((5, 5)), ghost];
    assert_eq!(move_or_attack(PLAYER, (1, 0), &grid, &mut objects).0, TurnResult::TookTurn);
    assert_eq!(objects[0].position, (5, 5));
    assert_eq!(objects[1].fighter.unwrap().hp, 5);
}

#[test]
fn attack_hits_the_first_of_two_fighters_on_a_cell() {
    let grid = open_grid(10, 10);
    let mut objects = vec![player_at((5, 5)), orc_at((1, 1)), orc_at((6, 5)), orc_at((6, 5))];
    assert_eq!(move_or_attack(PLAYER, (1, 0), &grid, &mut objects).0, TurnResult::TookTurn);
    assert_eq!(objects[2].fighter.unwrap().hp, 5);
    assert_eq!(objects[3].fighter.unwrap().hp, 10);
    assert_eq!(objects[1].fighter.unwrap().hp, 10);
}

#[test]
fn a_later_entity_may_act_on_an_earlier_one() {
    let grid = open_grid(10, 10);
    let mut objects = vec![player_at((5, 5)), orc_at((5, 6))];
    assert_eq!(move_or_attack(1, (0, -1), &grid, &mut objects).0, TurnResult::TookTurn);
    assert_eq!(objects[0].fighter.unwrap().hp, 29);
    assert_eq!(objects[1].position, (5, 6));
}

#[test]
fn direction_keys_move_the_player() {
    let grid = open_grid(10, 10);
    let mut objects = vec![player_at((5, 5))];
    assert_eq!(handle_keys(&grid, &mut objects, Key::Up).0, TurnResult::TookTurn);
    assert_eq!(objects[0].position, (5, 4));
    assert_eq!(handle_keys(&grid, &mut objects, Key::Left).0, TurnResult::TookTurn);
    assert_eq!(objects[0].position, (4, 4));
    assert_eq!(handle_keys(&grid, &mut objects, Key::Down).0, TurnResult::TookTurn);
    assert_eq!(objects[0].position, (4, 5));
    assert_eq!(handle_keys(&grid, &mut objects, Key::Right).0, TurnResult::TookTurn);
    assert_eq!(objects[0].position, (5, 5));
}

#[test]
fn quit_keys_end_the_session() {
    let grid = open_grid(10, 10);
    let mut objects = vec![player_at((5, 5)), orc_at((5, 6))];
    let before = snapshot(&objects);
    assert_eq!(handle_keys(&grid, &mut objects, Key::Quit).0, TurnResult::Exit);
    assert_eq!(handle_keys(&grid, &mut objects, Key::Escape).0, TurnResult::Exit);
    assert_eq!(snapshot(&objects), before);
}

#[test]
fn other_keys_take_no_turn() {
    let grid = open_grid(10, 10);
    let mut objects = vec![player_at((5, 5)), orc_at((5, 6))];
    let before = snapshot(&objects);
    assert_eq!(handle_keys(&grid, &mut objects, Key::ToggleFullscreen).0, TurnResult::DidntTakeTurn);
    assert_eq!(handle_keys(&grid, &mut objects, Key::Other).0, TurnResult::DidntTakeTurn);
    assert_eq!(snapshot(&objects), before);
}

#[test]
fn direction_key_into_a_wall_takes_no_turn() {
    let mut grid = open_grid(10, 10);
    grid.set_tile(6, 5, Tile::wall());
    let mut objects = vec![player_at((5, 5))];
    assert_eq!(handle_keys(&grid, &mut objects, Key::Right).0, TurnResult::DidntTakeTurn);
    assert_eq!(objects[0].position, (5, 5));
}

#[test]
fn a_step_is_reported() {
    let grid = open_grid(10, 10);
    let mut objects = vec![player_at((5, 5)), orc_at((8, 8))];
    let (result, event) = move_or_attack(PLAYER, (1, 0), &grid, &mut objects);
    assert_eq!(result, TurnResult::TookTurn);
    assert_eq!(event, Some(Event::Moved { id: 0, from: (5, 5), to: (6, 5) }));
    let (_, event) = handle_keys(&grid, &mut objects, Key::Up);
    assert_eq!(event, Some(Event::Moved { id: 0, from: (6, 5), to: (6, 4) }));
}

#[test]
fn a_blocked_step_is_not_reported() {
    let mut grid = open_grid(10, 10);
    grid.set_tile(5, 4, Tile::wall());
    let mut objects = vec![player_at((5, 5))];
    assert_eq!(move_or_attack(PLAYER, (0, -1), &grid, &mut objects), (TurnResult::DidntTakeTurn, None));
    assert_eq!(handle_keys(&grid, &mut objects, Key::Up), (TurnResult::DidntTakeTurn, None));
}

#[test]
fn blows_are_reported_with_damage_and_death() {
    let grid = open_grid(10, 10);
    let mut objects = vec![player_at((5, 5)), orc_at((5, 6))];
    let hit = Event::Attacked { attacker: 0, target: 1, damage: 5, death: None };
    assert_eq!(move_or_attack(PLAYER, (0, 1), &grid, &mut objects), (TurnResult::TookTurn, Some(hit)));
    let kill = Event::Attacked { attacker: 0, target: 1, damage: 5, death: Some(DeathCallback::Monster) };
    assert_eq!(handle_keys(&grid, &mut objects, Key::Down), (TurnResult::TookTurn, Some(kill)));
    assert!(!objects[1].alive);
}

#[test]
fn a_blow_without_effect_is_reported_with_no_damage() {
    let grid = open_grid(10, 10);
    let mut wall_of_flesh = orc_at((5, 6));
    wall_of_flesh.fighter = Some(Fighter { max_hp: 10, hp: 10, defense: 9, power: 3, on_death: DeathCallback::Monster });
    let mut objects = vec![player_at((5, 5)), wall_of_flesh];
    let miss = Event::Attacked { attacker: 0, target: 1, damage: 0, death: None };
    assert_eq!(move_or_attack(PLAYER, (0, 1), &grid, &mut objects), (TurnResult::TookTurn, Some(miss)));
    assert_eq!(objects[1].fighter.unwrap().hp, 10);
}

#[test]
fn keys_that_do_nothing_report_nothing() {
    let grid = open_grid(10, 10);
    let mut objects = vec![player_at((5, 5)), orc_at((5, 6))];
    for key in [Key::Quit, Key::Escape, Key::ToggleFullscreen, Key::Other] {
        assert_eq!(handle_keys(&grid, &mut objects, key).1, None);
    }
}
