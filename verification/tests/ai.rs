use roguelike::ai::ai_decide;
use roguelike::ai::ai_take_turn;
use roguelike::ai::distance_squared;
use roguelike::ai::move_towards;
use roguelike::ai::next_step;
use roguelike::ai::AiDecision;
use roguelike::colors::white;
use roguelike::entity::Ai;
use roguelike::entity::DeathCallback;
use roguelike::entity::Fighter;
use roguelike::entity::Object;
use roguelike::fov::FovMap;
use roguelike::grid::Tile;
use roguelike::grid::TileGrid;
use roguelike::registry::Event;
use roguelike::registry::PLAYER;

fn open_grid(width: i32, height: i32) -> TileGrid {
    let mut grid = TileGrid::new(width, height);
    for x in 0..width {
        for y in 0..height {
            grid.set_tile(x, y, Tile::empty());
        }
    }
    grid
}

fn all_visible(width: i32, height: i32) -> FovMap {
    let mut fov = FovMap::new(width, height);
    for x in 0..width {
        for y in 0..height {
            fov.set(x, y, true);
        }
    }
    fov
}

fn player_at(pos: (i32, i32)) -> Object {
    let mut p = Object::new("Player", '@', white(), pos);
    p.fighter = Some(Fighter { max_hp: 30, hp: 30, defense: 2, power: 5, on_death: DeathCallback::Player });
    p
}

fn orc_at(pos: (i32, i32)) -> Object {
    let mut o = Object::new("Orc", 'o', white(), pos);
    o.fighter = Some(Fighter { max_hp: 10, hp: 10, defense: 0, power: 3, on_death: DeathCallback::Monster });
    o.ai = Some(Ai);
    o
}

fn snapshot(objects: &[Object]) -> Vec<(String, char, (i32, i32), bool, bool, Option<Fighter>, Option<Ai>)> {
    objects.iter().map(|o| (o.name.clone(), o.glyph, o.position, o.blocks, o.alive, o.fighter, o.ai)).collect()
}

#[test]
fn distance_squared_values() {
    assert_eq!(distance_squared((0, 0), (0, 0)), 0);
    assert_eq!(distance_squared((0, 0), (3, 4)), 25);
    assert_eq!(distance_squared((3, 4), (0, 0)), 25);
    assert_eq!(distance_squared((10, 10), (10, 12)), 4);
    assert_eq!(distance_squared((10, 10), (11, 11)), 2);
    assert_eq!(distance_squared((-2, 5), (1, 1)), 25);
}

#[test]
fn distance_squared_of_far_corners_does_not_overflow() {
    let d = distance_squared((i32::MIN, i32::MIN), (i32::MAX, i32::MAX));
    let side = (i32::MAX as i128) - (i32::MIN as i128);
    assert_eq!(d, 2 * side * side);
}

#[test]
fn step_along_an_axis() {
    assert_eq!(next_step((10, 12), (10, 10)), (10, 11));
    assert_eq!(next_step((10, 10), (10, 17)), (10, 11));
    assert_eq!(next_step((5, 3), (1, 3)), (4, 3));
    assert_eq!(next_step((5, 3), (6, 3)), (6, 3));
}

#[test]
fn step_on_a_diagonal() {
    assert_eq!(next_step((0, 0), (4, 4)), (1, 1));
    assert_eq!(next_step((9, 9), (7, 11)), (8, 10));
    assert_eq!(next_step((9, 9), (12, 8)), (10, 9));
}

#[test]
fn step_near_the_rounding_threshold() {
    assert_eq!(next_step((0, 0), (3, 5)), (1, 1));
    assert_eq!(next_step((0, 0), (4, 7)), (0, 1));
    assert_eq!(next_step((0, 0), (7, 4)), (1, 0));
    assert_eq!(next_step((0, 0), (-15, 26)), (0, 1));
    assert_eq!(next_step((0, 0), (-15, 25)), (-1, 1));
    assert_eq!(next_step((0, 0), (1, 2)), (0, 1));
    assert_eq!(next_step((0, 0), (2, 1)), (1, 0));
}

#[test]
fn step_to_the_own_cell_stays() {
    assert_eq!(next_step((4, 4), (4, 4)), (4, 4));
}

#[test]
fn step_agrees_with_rounding_the_normalized_direction() {
    for dx in -60i32..=60 {
        for dy in -60i32..=60 {
            if dx == 0 && dy == 0 {
                continue;
            }
            let d = ((dx * dx + dy * dy) as f32).sqrt();
            let sx = (dx as f32 / d).round() as i32;
            let sy = (dy as f32 / d).round() as i32;
            assert_eq!(next_step((100, 100), (100 + dx, 100 + dy)), (100 + sx, 100 + sy));
        }
    }
}

#[test]
fn step_between_extreme_cells_does_not_overflow() {
    assert_eq!(next_step((i32::MIN, i32::MAX), (i32::MAX, i32::MIN)), (i32::MIN + 1, i32::MAX - 1));
    assert_eq!(next_step((i32::MAX, 0), (i32::MAX, i32::MIN)), (i32::MAX, -1));
}

#[test]
fn move_towards_steps_onto_a_free_cell() {
    let grid = open_grid(20, 20);
    let mut objects = vec![player_at((10, 10)), orc_at((10, 15))];
    move_towards(1, (10, 10), &grid, &mut objects);
    assert_eq!(objects[1].position, (10, 14));
    assert_eq!(objects[0].position, (10, 10));
}

#[test]
fn move_towards_does_not_step_into_a_wall() {
    let mut grid = open_grid(20, 20);
    grid.set_tile(10, 14, Tile::wall());
    let mut objects = vec![player_at((10, 10)), orc_at((10, 15))];
    let before = snapshot(&objects);
    move_towards(1, (10, 10), &grid, &mut objects);
    assert_eq!(snapshot(&objects), before);
}

#[test]
fn move_towards_does_not_step_onto_a_blocking_entity() {
    let grid = open_grid(20, 20);
    let mut objects = vec![player_at((10, 10)), orc_at((10, 15)), orc_at((10, 14))];
    let before = snapshot(&objects);
    move_towards(1, (10, 10), &grid, &mut objects);
    assert_eq!(snapshot(&objects), before);
    objects[2].blocks = false;
    move_towards(1, (10, 10), &grid, &mut objects);
    assert_eq!(objects[1].position, (10, 14));
}

#[test]
fn monster_in_sight_and_far_decides_to_step_closer() {
    let grid = open_grid(30, 30);
    let fov = all_visible(30, 30);
    for d in [2, 3, 5, 12] {
        let objects = vec![player_at((10, 10)), orc_at((10, 10 + d))];
        assert_eq!(ai_decide(1, &grid, &objects, &fov), AiDecision::MoveTo((10, 10 + d - 1)));
    }
}

#[test]
fn monster_out_of_sight_stays_idle() {
    let grid = open_grid(30, 30);
    let fov = FovMap::new(30, 30);
    for pos in [(10, 15), (10, 11), (11, 11)] {
        let mut objects = vec![player_at((10, 10)), orc_at(pos)];
        assert_eq!(ai_decide(1, &grid, &objects, &fov), AiDecision::Idle);
        let before = snapshot(&objects);
        ai_take_turn(1, &grid, &mut objects, &fov);
        assert_eq!(snapshot(&objects), before);
    }
}

#[test]
fn only_the_monsters_own_cell_has_to_be_in_sight() {
    let grid = open_grid(30, 30);
    let mut fov = FovMap::new(30, 30);
    fov.set(10, 15, true);
    let objects = vec![player_at((10, 10)), orc_at((10, 15))];
    assert_eq!(ai_decide(1, &grid, &objects, &fov), AiDecision::MoveTo((10, 14)));
    let mut elsewhere = FovMap::new(30, 30);
    elsewhere.set(10, 10, true);
    elsewhere.set(10, 14, true);
    assert_eq!(ai_decide(1, &grid, &objects, &elsewhere), AiDecision::Idle);
}

#[test]
fn monster_next_to_the_player_decides_to_attack() {
    let grid = open_grid(30, 30);
    let fov = all_visible(30, 30);
    for pos in [(10, 11), (11, 10), (9, 9), (11, 11)] {
        let objects = vec![player_at((10, 10)), orc_at(pos)];
        assert_eq!(ai_decide(1, &grid, &objects, &fov), AiDecision::Attack(PLAYER));
    }
}

#[test]
fn monster_next_to_a_dead_player_stays_idle() {
    let grid = open_grid(30, 30);
    let fov = all_visible(30, 30);
    let mut player = player_at((10, 10));
    player.take_damage(30);
    assert!(!player.alive);
    let mut objects = vec![player, orc_at((10, 11))];
    assert_eq!(ai_decide(1, &grid, &objects, &fov), AiDecision::Idle);
    let before = snapshot(&objects);
    ai_take_turn(1, &grid, &mut objects, &fov);
    assert_eq!(snapshot(&objects), before);
}

#[test]
fn monster_whose_way_is_blocked_stays_idle() {
    let mut grid = open_grid(30, 30);
    grid.set_tile(10, 14, Tile::wall());
    let fov = all_visible(30, 30);
    let mut objects = vec![player_at((10, 10)), orc_at((10, 15))];
    assert_eq!(ai_decide(1, &grid, &objects, &fov), AiDecision::Idle);
    let before = snapshot(&objects);
    ai_take_turn(1, &grid, &mut objects, &fov);
    assert_eq!(snapshot(&objects), before);
}

#[test]
fn turn_of_a_far_monster_moves_it() {
    let grid = open_grid(30, 30);
    let fov = all_visible(30, 30);
    let mut objects = vec![player_at((10, 10)), orc_at((14, 13))];
    ai_take_turn(1, &grid, &mut objects, &fov);
    assert_eq!(objects[1].position, (13, 12));
    assert_eq!(objects[0].fighter.unwrap().hp, 30);
    ai_take_turn(1, &grid, &mut objects, &fov);
    assert_eq!(objects[1].position, (12, 11));
}

#[test]
fn turn_of_a_near_monster_hurts_the_player() {
    let grid = open_grid(30, 30);
    let fov = all_visible(30, 30);
    let mut objects = vec![player_at((10, 10)), orc_at((11, 11))];
    ai_take_turn(1, &grid, &mut objects, &fov);
    assert_eq!(objects[0].fighter.unwrap().hp, 29);
    assert_eq!(objects[1].position, (11, 11));
    assert_eq!(objects[1].fighter.unwrap().hp, 10);
    assert_eq!(objects[0].position, (10, 10));
}

#[test]
fn monsters_can_kill_the_player() {
    let grid = open_grid(30, 30);
    let fov = all_visible(30, 30);
    let mut player = player_at((10, 10));
    player.fighter = Some(Fighter { max_hp: 30, hp: 2, defense: 2, power: 5, on_death: DeathCallback::Player });
    let mut objects = vec![player, orc_at((11, 10))];
    ai_take_turn(1, &grid, &mut objects, &fov);
    assert!(objects[0].alive);
    ai_take_turn(1, &grid, &mut objects, &fov);
    assert!(!objects[0].alive);
    assert_eq!(objects[0].glyph, '%');
    assert_eq!(objects[0].fighter.unwrap().hp, 0);
    ai_take_turn(1, &grid, &mut objects, &fov);
    assert_eq!(objects[0].fighter.unwrap().hp, 0);
}

#[test]
fn monsters_report_what_they_did() {
    let grid = open_grid(30, 30);
    let fov = all_visible(30, 30);
    let mut objects = vec![player_at((10, 10)), orc_at((10, 12))];
    assert_eq!(
        ai_take_turn(1, &grid, &mut objects, &fov),
        Some(Event::Moved { id: 1, from: (10, 12), to: (10, 11) })
    );
    assert_eq!(
        ai_take_turn(1, &grid, &mut objects, &fov),
        Some(Event::Attacked { attacker: 1, target: 0, damage: 1, death: None })
    );
    assert_eq!(ai_take_turn(1, &grid, &mut objects, &FovMap::new(30, 30)), None);
    assert_eq!(
        move_towards(1, (10, 20), &grid, &mut objects),
        Some(Event::Moved { id: 1, from: (10, 11), to: (10, 12) })
    );
    assert_eq!(move_towards(0, (10, 20), &grid, &mut objects), Some(Event::Moved { id: 0, from: (10, 10), to: (10, 11) }));
    assert_eq!(move_towards(0, (10, 20), &grid, &mut objects), None);
}
