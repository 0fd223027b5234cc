use roguelike::game::Game;
use roguelike::render::Paint;
use roguelike::tile::Tile;

fn corridor_game() -> Game {
    let mut map = vec![vec![Tile::Wall; 10]; 10];
    for y in 1..=8 {
        map[y][1] = Tile::Floor;
    }
    Game::with_map(map).expect("corridor grid is valid")
}

#[test]
fn render_shows_terrain_player_and_monsters() {
    let mut g = corridor_game();
    g.monsters.push((1, 3));
    let cells = g.render();
    assert_eq!(cells.len(), 10);
    for row in &cells {
        assert_eq!(row.len(), 10);
    }
    assert_eq!(cells[0][0], ('#', Paint::Default));
    assert_eq!(cells[1][1], ('@', Paint::Player));
    assert_eq!(cells[2][1], ('.', Paint::Default));
    assert_eq!(cells[3][1], ('M', Paint::Monster));
    assert_eq!(cells[5][5], ('#', Paint::Default));
}

#[test]
fn monster_is_painted_over_the_player() {
    // Monsters are painted last, as the original painter's order had it.
    let mut g = corridor_game();
    g.monsters.push((1, 1));
    let cells = g.render();
    assert_eq!(cells[1][1], ('M', Paint::Monster));
}

#[test]
fn has_monster_at_reports_occupancy() {
    let mut g = corridor_game();
    assert!(!g.has_monster_at(1, 2));
    g.monsters.push((1, 2));
    assert!(g.has_monster_at(1, 2));
    assert!(!g.has_monster_at(2, 1));
}
