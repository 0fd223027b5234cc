//! The game state and its two nontrivial operations: random map generation
//! with monster spawning, and the per-key update step that clamps movement
//! and resolves collisions.

use vstd::prelude::*;
use crate::rng::rand_range;
use crate::tile::Tile;

verus! {

/// One abstract key code handed in by the surrounding terminal layer.
/// `Quit` never reaches `update` in normal play, but if it does it acts,
/// like `Other`, as an explicit no-movement input.
#[derive(Clone, Copy, Debug, PartialEq, Eq, Structural)]
pub enum Key {
    Up,
    Down,
    Left,
    Right,
    Quit,
    Other,
}

/// `v` clamped to the closed interval `[lo, hi]`.
pub open spec fn clamped(v: int, lo: int, hi: int) -> int {
    if v < lo {
        lo
    } else if v > hi {
        hi
    } else {
        v
    }
}

/// Horizontal step of a key: `Left` is -1, `Right` is +1, anything else 0.
pub open spec fn dx_of(key: Key) -> int {
    match key {
        Key::Left => -1,
        Key::Right => 1,
        _ => 0,
    }
}

/// Vertical step of a key: `Up` is -1, `Down` is +1, anything else 0.
pub open spec fn dy_of(key: Key) -> int {
    match key {
        Key::Up => -1,
        Key::Down => 1,
        _ => 0,
    }
}

/// The whole game state. The map never changes after generation; the player
/// position and the monster list change only through `update`.
pub struct Game {
    pub width: usize,
    pub height: usize,
    pub map: Vec<Vec<Tile>>,
    pub player_x: usize,
    pub player_y: usize,
    pub monsters: Vec<(usize, usize)>,
}

/// A caller-supplied terrain grid that a game may be built over: at least
/// 3 by 3, rectangular, walled along the whole border, floor at the player
/// start (1, 1).
pub open spec fn grid_ok(map: Seq<Vec<Tile>>) -> bool {
    &&& 3 <= map.len()
    &&& 3 <= map[0]@.len()
    &&& forall|y: int| 0 <= y < map.len() ==> (#[trigger] map[y])@.len() == map[0]@.len()
    &&& forall|x: int, y: int|
        0 <= x < map[0]@.len() && 0 <= y < map.len() && (x == 0 || x == map[0]@.len() - 1 || y == 0
            || y == map.len() - 1) ==> (#[trigger] map[y]@[x]) == Tile::Wall
    &&& map[1]@[1] == Tile::Floor
}

/// Two states over the same board (map and dimensions) agree on `map_wf`.
proof fn lemma_same_board_map_wf(a: Game, b: Game)
    requires
        a.map_wf(),
        b.width == a.width,
        b.height == a.height,
        b.map == a.map,
    ensures
        b.map_wf(),
{
    assert forall|x: int, y: int|
        0 <= x < b.width && 0 <= y < b.height && b.on_border(x, y) implies #[trigger] b.tile_at(
        x,
        y,
    ) == Tile::Wall by {
        assert(a.tile_at(x, y) == Tile::Wall);
    }
}

impl Game {
    /// The tile at column `x`, row `y`.
    pub open spec fn tile_at(self, x: int, y: int) -> Tile {
        self.map@[y]@[x]
    }

    /// `(x, y)` lies strictly inside the border.
    pub open spec fn in_interior(self, x: int, y: int) -> bool {
        1 <= x <= self.width - 2 && 1 <= y <= self.height - 2
    }

    /// `(x, y)` lies on the outermost ring of the grid.
    pub open spec fn on_border(self, x: int, y: int) -> bool {
        x == 0 || x == self.width - 1 || y == 0 || y == self.height - 1
    }

    /// The map is a `height` by `width` grid, at least 3 cells each way,
    /// with every border cell a wall.
    pub open spec fn map_wf(self) -> bool {
        &&& 3 <= self.width
        &&& 3 <= self.height
        &&& self.map@.len() == self.height
        &&& forall|y: int| 0 <= y < self.height ==> (#[trigger] self.map@[y])@.len() == self.width
        &&& forall|x: int, y: int|
            0 <= x < self.width && 0 <= y < self.height && self.on_border(x, y)
                ==> #[trigger] self.tile_at(x, y) == Tile::Wall
    }

    /// The player stands strictly inside the border, on a floor tile.
    pub open spec fn player_ok(self) -> bool {
        &&& self.in_interior(self.player_x as int, self.player_y as int)
        &&& self.tile_at(self.player_x as int, self.player_y as int) == Tile::Floor
    }

    /// `m` is a valid monster position: strictly inside the border, on floor.
    pub open spec fn monster_ok(self, m: (usize, usize)) -> bool {
        self.in_interior(m.0 as int, m.1 as int) && self.tile_at(m.0 as int, m.1 as int)
            == Tile::Floor
    }

    /// Every monster stands strictly inside the border, on a floor tile.
    pub open spec fn monsters_ok(self) -> bool {
        forall|i: int|
            0 <= i < self.monsters@.len() ==> self.monster_ok(#[trigger] self.monsters@[i])
    }

    /// The state invariant: well-formed map, valid player, valid monsters.
    pub open spec fn wf(self) -> bool {
        self.map_wf() && self.player_ok() && self.monsters_ok()
    }

    /// Candidate x after applying `key` and clamping to the interior.
    pub open spec fn target_x(self, key: Key) -> int {
        clamped(self.player_x + dx_of(key), 1, self.width - 2)
    }

    /// Candidate y after applying `key` and clamping to the interior.
    pub open spec fn target_y(self, key: Key) -> int {
        clamped(self.player_y + dy_of(key), 1, self.height - 2)
    }

    /// The clamped candidate cell is a floor tile, so the move commits.
    pub open spec fn move_allowed(self, key: Key) -> bool {
        self.tile_at(self.target_x(key), self.target_y(key)) == Tile::Floor
    }

    /// The player position after one update with `key`: the clamped candidate
    /// if it is floor, else the old position.
    pub open spec fn pos_after(self, key: Key) -> (int, int) {
        if self.move_allowed(key) {
            (self.target_x(key), self.target_y(key))
        } else {
            (self.player_x as int, self.player_y as int)
        }
    }

    /// Replaces the map with a freshly generated one: every border cell a
    /// wall; each interior cell independently floor with probability 8/10;
    /// the player start (1, 1) forced to floor regardless of the draw. No
    /// connectivity check is made: isolated floor pockets are accepted.
    pub fn generate_map(&mut self)
        requires
            3 <= old(self).width,
            3 <= old(self).height,
        ensures
            final(self).width == old(self).width,
            final(self).height == old(self).height,
            final(self).player_x == old(self).player_x,
            final(self).player_y == old(self).player_y,
            final(self).monsters == old(self).monsters,
            final(self).map_wf(),
            final(self).tile_at(1, 1) == Tile::Floor,
    {
        let width = self.width;
        let height = self.height;
        let mut map: Vec<Vec<Tile>> = Vec::new();
        let mut y: usize = 0;
        while y < height
            invariant
                3 <= width,
                3 <= height,
                y <= height,
                map@.len() == y,
                forall|yy: int| 0 <= yy < y ==> (#[trigger] map@[yy])@.len() == width,
                forall|xx: int, yy: int|
                    0 <= xx < width && 0 <= yy < y && (xx == 0 || xx == width - 1 || yy == 0
                        || yy == height - 1) ==> (#[trigger] map@[yy]@[xx]) == Tile::Wall,
                y >= 2 ==> map@[1]@[1] == Tile::Floor,
            decreases height - y,
        {
            let mut row: Vec<Tile> = Vec::new();
            let mut x: usize = 0;
            while x < width
                invariant
                    3 <= width,
                    3 <= height,
                    y < height,
                    x <= width,
                    row@.len() == x,
                    forall|xx: int|
                        0 <= xx < x && (xx == 0 || xx == width - 1 || y == 0 || y == height - 1)
                            ==> (#[trigger] row@[xx]) == Tile::Wall,
                    y == 1 && x >= 2 ==> row@[1] == Tile::Floor,
                decreases width - x,
            {
                let border = x == 0 || x + 1 == width || y == 0 || y + 1 == height;
                let tile: Tile = if border {
                    Tile::Wall
                } else if x == 1 && y == 1 {
                    Tile::Floor
                } else if rand_range(0, 10) > 1 {
                    Tile::Floor
                } else {
                    Tile::Wall
                };
                row.push(tile);
                x += 1;
            }
            map.push(row);
            y += 1;
        }
        self.map = map;
    }

    /// Row-major scan for the first floor tile of the interior. The player
    /// always stands on a floor tile, so the scan cannot come up empty.
    fn first_floor_cell(&self) -> (p: (usize, usize))
        requires
            self.wf(),
        ensures
            self.in_interior(p.0 as int, p.1 as int),
            self.tile_at(p.0 as int, p.1 as int) == Tile::Floor,
    {
        let mut y: usize = 1;
        while y + 1 < self.height
            invariant
                self.wf(),
                1 <= y <= self.height - 1,
                forall|xx: int, yy: int|
                    1 <= xx <= self.width - 2 && 1 <= yy < y ==> #[trigger] self.tile_at(xx, yy)
                        != Tile::Floor,
            decreases self.height - y,
        {
            let mut x: usize = 1;
            while x + 1 < self.width
                invariant
                    self.wf(),
                    1 <= y <= self.height - 2,
                    1 <= x <= self.width - 1,
                    forall|xx: int, yy: int|
                        1 <= xx <= self.width - 2 && 1 <= yy < y ==> #[trigger] self.tile_at(
                            xx,
                            yy,
                        ) != Tile::Floor,
                    forall|xx: int|
                        1 <= xx < x ==> #[trigger] self.tile_at(xx, y as int) != Tile::Floor,
                decreases self.width - x,
            {
                if self.map[y][x] == Tile::Floor {
                    return (x, y);
                }
                x += 1;
            }
            y += 1;
        }
        proof {
            // Unreachable: every interior cell would be a wall, yet the
            // player stands on a floor tile of the interior.
            assert(self.tile_at(self.player_x as int, self.player_y as int) != Tile::Floor);
            assert(false);
        }
        (self.player_x, self.player_y)
    }

    /// One spawn draw: uniform random interior coordinates, retried until
    /// they hit a floor tile. The original retried without bound, which on a
    /// near-floorless map need not terminate; here the rejection sampling
    /// gives up after a fixed number of tries and falls back to a scan.
    fn pick_floor_cell(&self) -> (p: (usize, usize))
        requires
            self.wf(),
        ensures
            self.in_interior(p.0 as int, p.1 as int),
            self.tile_at(p.0 as int, p.1 as int) == Tile::Floor,
    {
        let mut tries: usize = 0;
        while tries < 100
            invariant
                self.wf(),
                tries <= 100,
            decreases 100 - tries,
        {
            let x = rand_range(1, self.width - 1);
            let y = rand_range(1, self.height - 1);
            if self.map[y][x] == Tile::Floor {
                return (x, y);
            }
            tries += 1;
        }
        self.first_floor_cell()
    }

    /// Appends `count` monsters, each on a randomly chosen interior floor
    /// cell. Monsters may land on each other or on the player: no exclusion
    /// check is made.
    pub fn spawn_monsters(&mut self, count: usize)
        requires
            old(self).wf(),
            old(self).monsters@.len() + count <= usize::MAX,
        ensures
            final(self).wf(),
            final(self).width == old(self).width,
            final(self).height == old(self).height,
            final(self).map == old(self).map,
            final(self).player_x == old(self).player_x,
            final(self).player_y == old(self).player_y,
            final(self).monsters@.len() == old(self).monsters@.len() + count,
            final(self).monsters@.subrange(0, old(self).monsters@.len() as int) == old(
                self,
            ).monsters@,
    {
        let ghost orig = *self;
        let mut k: usize = 0;
        while k < count
            invariant
                k <= count,
                orig.monsters@.len() + count <= usize::MAX,
                self.wf(),
                self.width == orig.width,
                self.height == orig.height,
                self.map == orig.map,
                self.player_x == orig.player_x,
                self.player_y == orig.player_y,
                self.monsters@.len() == orig.monsters@.len() + k,
                self.monsters@.subrange(0, orig.monsters@.len() as int) == orig.monsters@,
            decreases count - k,
        {
            let (mx, my) = self.pick_floor_cell();
            let ghost prev = *self;
            self.monsters.push((mx, my));
            proof {
                assert(self.monsters@.subrange(0, orig.monsters@.len() as int)
                    =~= orig.monsters@);
                lemma_same_board_map_wf(prev, *self);
                assert(prev.tile_at(prev.player_x as int, prev.player_y as int) == Tile::Floor);
                assert forall|i: int|
                    0 <= i < self.monsters@.len() implies self.monster_ok(
                    #[trigger] self.monsters@[i],
                ) by {
                    if i < prev.monsters@.len() {
                        assert(self.monsters@[i] == prev.monsters@[i]);
                        assert(prev.monster_ok(prev.monsters@[i]));
                    } else {
                        assert(self.monsters@[i] == (mx, my));
                        assert(prev.tile_at(mx as int, my as int) == Tile::Floor);
                    }
                }
            }
            k += 1;
        }
    }

    /// A fresh game: all-wall frame, random interior, player at (1, 1),
    /// five monsters on random floor cells.
    pub fn new(width: usize, height: usize) -> (g: Game)
        requires
            3 <= width,
            3 <= height,
        ensures
            g.wf(),
            g.width == width,
            g.height == height,
            g.player_x == 1,
            g.player_y == 1,
            g.tile_at(1, 1) == Tile::Floor,
            g.monsters@.len() == 5,
    {
        let mut g = Game {
            width,
            height,
            map: Vec::new(),
            player_x: 1,
            player_y: 1,
            monsters: Vec::new(),
        };
        g.generate_map();
        g.spawn_monsters(5);
        g
    }

    /// A game over a fixed terrain grid instead of a random one: player at
    /// (1, 1), no monsters. Accepts exactly the grids that `grid_ok` allows
    /// and rejects every other.
    pub fn with_map(map: Vec<Vec<Tile>>) -> (r: Option<Game>)
        ensures
            match r {
                Some(g) => {
                    &&& grid_ok(map@)
                    &&& g.wf()
                    &&& g.map@ == map@
                    &&& g.width == map@[0]@.len()
                    &&& g.height == map@.len()
                    &&& g.player_x == 1
                    &&& g.player_y == 1
                    &&& g.monsters@ == Seq::<(usize, usize)>::empty()
                },
                None => !grid_ok(map@),
            },
    {
        let height = map.len();
        if height < 3 {
            return None;
        }
        let width = map[0].len();
        if width < 3 {
            return None;
        }
        let mut y: usize = 0;
        while y < height
            invariant
                y <= height,
                height == map@.len(),
                width == map@[0]@.len(),
                forall|yy: int| 0 <= yy < y ==> (#[trigger] map@[yy])@.len() == width,
            decreases height - y,
        {
            if map[y].len() != width {
                return None;
            }
            y += 1;
        }
        let mut by: usize = 0;
        while by < height
            invariant
                by <= height,
                height == map@.len(),
                width == map@[0]@.len(),
                forall|yy: int| 0 <= yy < height ==> (#[trigger] map@[yy])@.len() == width,
                forall|xx: int, yy: int|
                    0 <= xx < width && 0 <= yy < by && (xx == 0 || xx == width - 1 || yy == 0
                        || yy == height - 1) ==> (#[trigger] map@[yy]@[xx]) == Tile::Wall,
            decreases height - by,
        {
            let mut bx: usize = 0;
            while bx < width
                invariant
                    by < height,
                    bx <= width,
                    height == map@.len(),
                    width == map@[0]@.len(),
                    forall|yy: int| 0 <= yy < height ==> (#[trigger] map@[yy])@.len() == width,
                    forall|xx: int, yy: int|
                        0 <= xx < width && 0 <= yy < by && (xx == 0 || xx == width - 1 || yy == 0
                            || yy == height - 1) ==> (#[trigger] map@[yy]@[xx]) == Tile::Wall,
                    forall|xx: int|
                        0 <= xx < bx && (xx == 0 || xx == width - 1 || by == 0 || by == height - 1)
                            ==> (#[trigger] map@[by as int]@[xx]) == Tile::Wall,
                decreases width - bx,
            {
                let border = bx == 0 || bx + 1 == width || by == 0 || by + 1 == height;
                if border {
                    if map[by][bx] != Tile::Wall {
                        return None;
                    }
                }
                bx += 1;
            }
            by += 1;
        }
        if map[1][1] != Tile::Floor {
            return None;
        }
        let g = Game { width, height, map, player_x: 1, player_y: 1, monsters: Vec::new() };
        proof {
            assert forall|x: int, y: int|
                0 <= x < g.width && 0 <= y < g.height && g.on_border(x, y) implies #[trigger] g.tile_at(
                x,
                y,
            ) == Tile::Wall by {
                assert(g.map@[y]@[x] == Tile::Wall);
            }
            assert(g.tile_at(1, 1) == Tile::Floor);
        }
        Some(g)
    }

    /// Index of the first monster standing at `(x, y)`, if any.
    fn first_monster_at(&self, x: usize, y: usize) -> (r: Option<usize>)
        ensures
            match r {
                Some(i) => {
                    &&& i < self.monsters@.len()
                    &&& self.monsters@[i as int] == (x, y)
                    &&& forall|j: int| 0 <= j < i ==> self.monsters@[j] != (x, y)
                },
                None => forall|j: int| 0 <= j < self.monsters@.len() ==> self.monsters@[j] != (
                x,
                y,
                ),
            },
    {
        let n = self.monsters.len();
        let mut i: usize = 0;
        while i < n
            invariant
                i <= n,
                n == self.monsters@.len(),
                forall|j: int| 0 <= j < i ==> self.monsters@[j] != (x, y),
            decreases n - i,
        {
            let (mx, my) = self.monsters[i];
            if mx == x && my == y {
                return Some(i);
            }
            i += 1;
        }
        None
    }

    /// One simulation step. The key becomes a direction; the candidate
    /// position is clamped to the interior on each axis; the move commits
    /// only onto a floor tile; then the first monster standing on the
    /// (possibly updated) player cell is removed — at most one per call.
    pub fn update(&mut self, key: Key)
        requires
            old(self).wf(),
        ensures
            final(self).wf(),
            final(self).width == old(self).width,
            final(self).height == old(self).height,
            final(self).map == old(self).map,
            final(self).player_x as int == old(self).pos_after(key).0,
            final(self).player_y as int == old(self).pos_after(key).1,
            final(self).monsters@ == old(self).monsters@.remove_value(
                (final(self).player_x, final(self).player_y),
            ),
    {
        let ghost orig = *self;
        let mut nx = self.player_x;
        let mut ny = self.player_y;
        match key {
            Key::Up => {
                if ny > 1 {
                    ny -= 1;
                }
            },
            Key::Down => {
                if ny < self.height - 2 {
                    ny += 1;
                }
            },
            Key::Left => {
                if nx > 1 {
                    nx -= 1;
                }
            },
            Key::Right => {
                if nx < self.width - 2 {
                    nx += 1;
                }
            },
            _ => {},
        }
        proof {
            assert(nx as int == orig.target_x(key));
            assert(ny as int == orig.target_y(key));
        }
        if self.map[ny][nx] == Tile::Floor {
            self.player_x = nx;
            self.player_y = ny;
        }
        let px = self.player_x;
        let py = self.player_y;
        proof {
            assert(px as int == orig.pos_after(key).0);
            assert(py as int == orig.pos_after(key).1);
        }
        match self.first_monster_at(px, py) {
            Some(i) => {
                let ghost before = *self;
                self.monsters.remove(i);
                proof {
                    orig.monsters@.index_of_first_ensures((px, py));
                    assert(orig.monsters@.contains((px, py)));
                    let k = orig.monsters@.index_of_first((px, py))->Some_0;
                    if k < i {
                        assert(orig.monsters@[k] != (px, py));
                    }
                    if i < k {
                        assert(orig.monsters@[i as int] != (px, py));
                    }
                    assert(k == i);
                    assert(self.monsters@ == orig.monsters@.remove_value((px, py)));
                    orig.monsters@.remove_ensures(i as int);
                    lemma_same_board_map_wf(orig, *self);
                    assert(orig.tile_at(px as int, py as int) == Tile::Floor);
                    assert forall|j: int|
                        0 <= j < self.monsters@.len() implies self.monster_ok(
                        #[trigger] self.monsters@[j],
                    ) by {
                        if j < i {
                            assert(self.monsters@[j] == orig.monsters@[j]);
                            assert(orig.monster_ok(orig.monsters@[j]));
                        } else {
                            assert(self.monsters@[j] == orig.monsters@[j + 1]);
                            assert(orig.monster_ok(orig.monsters@[j + 1]));
                        }
                    }
                }
            },
            None => {
                proof {
                    orig.monsters@.index_of_first_ensures((px, py));
                    assert(!orig.monsters@.contains((px, py))) by {
                        if orig.monsters@.contains((px, py)) {
                            let j = choose|j: int|
                                0 <= j < orig.monsters@.len() && orig.monsters@[j] == (px, py);
                            assert(orig.monsters@[j] != (px, py));
                        }
                    }
                    assert(self.monsters@ == orig.monsters@.remove_value((px, py)));
                    lemma_same_board_map_wf(orig, *self);
                    assert(orig.tile_at(px as int, py as int) == Tile::Floor);
                }
            },
        }
    }
}

} // verus!
