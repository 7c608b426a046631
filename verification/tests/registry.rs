use roguelike::colors::white;
use roguelike::entity::DeathCallback;
use roguelike::entity::Fighter;
use roguelike::entity::Object;
use roguelike::grid::Tile;
use roguelike::grid::TileGrid;
use roguelike::registry::is_blocked;
use roguelike::registry::mut_two;
use roguelike::registry::Event;
use roguelike::registry::PLAYER;

fn open_grid(width: i32, height: i32) -> TileGrid {
    let mut grid = TileGrid::new(width, height);
    for x in 0..width {
        for y in 0..height {
            grid.set_tile(x, y, Tile::empty());
        }
    }
    grid
}

#[test]
fn player_is_the_first_entity() {
    assert_eq!(PLAYER, 0);
}

#[test]
fn wall_is_blocked() {
    let grid = TileGrid::new(5, 5);
    assert!(is_blocked((2, 2), &grid, &[]));
}

#[test]
fn free_floor_is_not_blocked() {
    let grid = open_grid(5, 5);
    let far = Object::new("Orc", 'o', white(), (4, 4));
    assert!(!is_blocked((2, 2), &grid, &[]));
    assert!(!is_blocked((2, 2), &grid, &[far]));
}

#[test]
fn blocking_entity_blocks_its_cell() {
    let grid = open_grid(5, 5);
    let objects = [Object::new("Player", '@', white(), (1, 1)), Object::new("Orc", 'o', white(), (2, 3))];
    assert!(is_blocked((2, 3), &grid, &objects));
    assert!(is_blocked((1, 1), &grid, &objects));
    assert!(!is_blocked((3, 2), &grid, &objects));
    assert!(!is_blocked((2, 1), &grid, &objects));
}

#[test]
fn entity_that_does_not_block_leaves_its_cell_free() {
    let grid = open_grid(5, 5);
    let mut corpse = Object::new("remains of Orc", '%', white(), (2, 3));
    corpse.blocks = false;
    assert!(!is_blocked((2, 3), &grid, &[corpse]));
}

#[test]
fn mut_two_gives_both_elements_in_either_order() {
    let mut items = vec![10, 20, 30, 40];
    {
        let (a, b) = mut_two(1, 3, &mut items);
        assert_eq!((*a, *b), (20, 40));
        *a += 1;
        *b += 2;
    }
    assert_eq!(items, vec![10, 21, 30, 42]);
    {
        let (a, b) = mut_two(3, 0, &mut items);
        assert_eq!((*a, *b), (42, 10));
        *a = 7;
        *b = 8;
    }
    assert_eq!(items, vec![8, 21, 30, 7]);
}

#[test]
fn mut_two_on_neighbours_and_ends() {
    let mut items = vec!['a', 'b'];
    {
        let (first, second) = mut_two(0, 1, &mut items);
        std::mem::swap(first, second);
    }
    assert_eq!(items, vec!['b', 'a']);
    {
        let (first, second) = mut_two(1, 0, &mut items);
        assert_eq!((*first, *second), ('a', 'b'));
    }
}

#[test]
fn mut_two_lets_one_entity_attack_another() {
    let mut player = Object::new("Player", '@', white(), (1, 1));
    player.fighter = Some(Fighter { max_hp: 30, hp: 30, defense: 2, power: 5, on_death: DeathCallback::Player });
    let mut orc = Object::new("Orc", 'o', white(), (1, 2));
    orc.fighter = Some(Fighter { max_hp: 10, hp: 10, defense: 0, power: 3, on_death: DeathCallback::Monster });
    let mut objects = vec![player, orc];
    {
        let (attacker, target) = mut_two(1, PLAYER, &mut objects);
        attacker.attack(target);
    }
    assert_eq!(objects[0].fighter.unwrap().hp, 29);
    assert_eq!(objects[1].fighter.unwrap().hp, 10);
    {
        let (attacker, target) = mut_two(PLAYER, 1, &mut objects);
        attacker.attack(target);
    }
    assert_eq!(objects[1].fighter.unwrap().hp, 5);
    assert_eq!(objects[0].fighter.unwrap().hp, 29);
}

#[test]
fn attack_by_index_changes_only_the_target() {
    let mut player = Object::new("Player", '@', white(), (1, 1));
    player.fighter = Some(Fighter { max_hp: 30, hp: 30, defense: 2, power: 5, on_death: DeathCallback::Player });
    let mut orc = Object::new("Orc", 'o', white(), (1, 2));
    orc.fighter = Some(Fighter { max_hp: 10, hp: 10, defense: 0, power: 3, on_death: DeathCallback::Monster });
    let mut troll = Object::new("Troll", 'T', white(), (2, 2));
    troll.fighter = Some(Fighter { max_hp: 16, hp: 16, defense: 1, power: 4, on_death: DeathCallback::Monster });
    let mut objects = vec![player, orc, troll];
    roguelike::registry::attack(PLAYER, 2, &mut objects);
    assert_eq!(objects[2].fighter.unwrap().hp, 12);
    assert_eq!(objects[1].fighter.unwrap().hp, 10);
    assert_eq!(objects[0].fighter.unwrap().hp, 30);
    roguelike::registry::attack(2, PLAYER, &mut objects);
    assert_eq!(objects[0].fighter.unwrap().hp, 28);
    assert_eq!(objects[2].fighter.unwrap().hp, 12);
    roguelike::registry::attack(PLAYER, 1, &mut objects);
    roguelike::registry::attack(PLAYER, 1, &mut objects);
    assert!(!objects[1].alive);
    assert_eq!(objects[1].name, "remains of Orc");
    assert_eq!(objects.len(), 3);
}

#[test]
fn attack_by_index_reports_the_blow() {
    let mut player = Object::new("Player", '@', white(), (1, 1));
    player.fighter = Some(Fighter { max_hp: 30, hp: 30, defense: 2, power: 5, on_death: DeathCallback::Player });
    let mut orc = Object::new("Orc", 'o', white(), (1, 2));
    orc.fighter = Some(Fighter { max_hp: 10, hp: 10, defense: 0, power: 2, on_death: DeathCallback::Monster });
    let mut objects = vec![player, orc];
    assert_eq!(
        roguelike::registry::attack(1, PLAYER, &mut objects),
        Event::Attacked { attacker: 1, target: 0, damage: 0, death: None }
    );
    assert_eq!(
        roguelike::registry::attack(PLAYER, 1, &mut objects),
        Event::Attacked { attacker: 0, target: 1, damage: 5, death: None }
    );
    assert_eq!(
        roguelike::registry::attack(PLAYER, 1, &mut objects),
        Event::Attacked { attacker: 0, target: 1, damage: 5, death: Some(DeathCallback::Monster) }
    );
    assert_eq!(
        roguelike::registry::attack(PLAYER, 1, &mut objects),
        Event::Attacked { attacker: 0, target: 1, damage: 5, death: None }
    );
}
