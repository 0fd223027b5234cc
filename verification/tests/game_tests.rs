use roguelike::game::Game;
use roguelike::game::Key;
use roguelike::tile::Tile;

/// A 10x10 grid that is wall everywhere except a single floor corridor
/// running from (1, 1) down to (1, 8).
fn corridor_map() -> Vec<Vec<Tile>> {
    let mut map = vec![vec![Tile::Wall; 10]; 10];
    for y in 1..=8 {
        map[y][1] = Tile::Floor;
    }
    map
}

fn corridor_game() -> Game {
    Game::with_map(corridor_map()).expect("corridor grid is valid")
}

fn player_is_valid(g: &Game) -> bool {
    let px = g.player_x;
    let py = g.player_y;
    1 <= px && px <= g.width - 2 && 1 <= py && py <= g.height - 2 && g.map[py][px] == Tile::Floor
}

#[test]
fn new_map_has_walled_border_and_floor_start() {
    let g = Game::new(10, 10);
    assert_eq!(g.width, 10);
    assert_eq!(g.height, 10);
    assert_eq!(g.map.len(), 10);
    for y in 0..10 {
        assert_eq!(g.map[y].len(), 10);
        for x in 0..10 {
            if x == 0 || x == 9 || y == 0 || y == 9 {
                assert_eq!(g.map[y][x], Tile::Wall);
            }
        }
    }
    assert_eq!(g.map[1][1], Tile::Floor);
    assert_eq!((g.player_x, g.player_y), (1, 1));
}

#[test]
fn spawned_monsters_stand_inside_on_floor() {
    let g = Game::new(10, 10);
    assert_eq!(g.monsters.len(), 5);
    for &(mx, my) in &g.monsters {
        assert!(1 <= mx && mx <= 8);
        assert!(1 <= my && my <= 8);
        assert_eq!(g.map[my][mx], Tile::Floor);
    }
}

#[test]
fn spawn_monsters_appends_floor_cells() {
    let mut g = corridor_game();
    g.spawn_monsters(3);
    assert_eq!(g.monsters.len(), 3);
    for &(mx, my) in &g.monsters {
        // the corridor is the only floor, so every monster lands on it
        assert_eq!(mx, 1);
        assert!(1 <= my && my <= 8);
        assert_eq!(g.map[my][mx], Tile::Floor);
    }
}

#[test]
fn player_stays_inside_and_on_floor() {
    let mut g = corridor_game();
    let keys = [
        Key::Down,
        Key::Left,
        Key::Right,
        Key::Up,
        Key::Down,
        Key::Down,
        Key::Other,
        Key::Down,
        Key::Down,
        Key::Down,
        Key::Down,
        Key::Down,
        Key::Down,
        Key::Up,
    ];
    for &k in &keys {
        g.update(k);
        assert!(player_is_valid(&g));
    }
}

#[test]
fn noop_key_changes_nothing() {
    let mut g = corridor_game();
    g.update(Key::Other);
    assert_eq!((g.player_x, g.player_y), (1, 1));
    assert!(g.monsters.is_empty());
    g.update(Key::Quit);
    assert_eq!((g.player_x, g.player_y), (1, 1));
    assert!(g.monsters.is_empty());
}

#[test]
fn noop_key_still_collides_with_monster_underfoot() {
    // A monster sharing the player's cell is picked up even by a
    // no-movement key: the collision scan runs on every update.
    let mut g = corridor_game();
    g.monsters.push((1, 1));
    g.update(Key::Other);
    assert_eq!((g.player_x, g.player_y), (1, 1));
    assert!(g.monsters.is_empty());
}

#[test]
fn moving_onto_single_monster_removes_it() {
    let mut g = corridor_game();
    g.monsters.push((1, 2));
    g.update(Key::Down);
    assert_eq!((g.player_x, g.player_y), (1, 2));
    assert!(g.monsters.is_empty());
}

#[test]
fn duplicate_monsters_lose_one_instance_per_step() {
    let mut g = corridor_game();
    g.monsters.push((1, 2));
    g.monsters.push((1, 2));
    g.update(Key::Down);
    assert_eq!((g.player_x, g.player_y), (1, 2));
    assert_eq!(g.monsters, vec![(1, 2)]);
}

#[test]
fn first_matching_monster_is_removed() {
    let mut g = corridor_game();
    g.monsters.push((1, 4));
    g.monsters.push((1, 2));
    g.monsters.push((1, 2));
    g.update(Key::Down);
    assert_eq!((g.player_x, g.player_y), (1, 2));
    assert_eq!(g.monsters, vec![(1, 4), (1, 2)]);
}

#[test]
fn blocked_and_clamped_moves_leave_player_in_place() {
    let mut g = corridor_game();
    // Up and Left from (1, 1) are clamped back onto the same floor cell.
    g.update(Key::Up);
    assert_eq!((g.player_x, g.player_y), (1, 1));
    g.update(Key::Left);
    assert_eq!((g.player_x, g.player_y), (1, 1));
    // Right targets the wall at (2, 1): the move silently fails.
    g.update(Key::Right);
    assert_eq!((g.player_x, g.player_y), (1, 1));
}

#[test]
fn corridor_walk_reaches_end_and_stops() {
    let mut g = corridor_game();
    for _ in 0..7 {
        g.update(Key::Down);
    }
    assert_eq!((g.player_x, g.player_y), (1, 8));
    g.update(Key::Down);
    assert_eq!((g.player_x, g.player_y), (1, 8));
}

#[test]
fn with_map_accepts_only_valid_grids() {
    assert!(Game::with_map(corridor_map()).is_some());

    // too small
    assert!(Game::with_map(vec![vec![Tile::Wall; 2]; 2]).is_none());

    // ragged rows
    let mut ragged = corridor_map();
    ragged[4].pop();
    assert!(Game::with_map(ragged).is_none());

    // a hole in the border
    let mut holed = corridor_map();
    holed[0][3] = Tile::Floor;
    assert!(Game::with_map(holed).is_none());

    // the player start is not floor
    let mut blocked = corridor_map();
    blocked[1][1] = Tile::Wall;
    assert!(Game::with_map(blocked).is_none());
}

#[test]
fn generated_interior_is_mixed() {
    // With per-cell draws at probability 8/10 on a 38x38 interior, an
    // all-wall or all-floor interior would mean the random source is stuck.
    let g = Game::new(40, 40);
    let mut floors = 0usize;
    let mut walls = 0usize;
    for y in 1..39 {
        for x in 1..39 {
            if (x, y) == (1, 1) {
                continue;
            }
            match g.map[y][x] {
                Tile::Floor => floors += 1,
                Tile::Wall => walls += 1,
            }
        }
    }
    assert!(floors > 0);
    assert!(walls > 0);
}
