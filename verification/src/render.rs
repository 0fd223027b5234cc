//! Pure rendering: the character grid the terminal layer paints each frame.
//! The painter's order of the original is kept: terrain first, the player
//! over it, monsters last — so a monster on the player's cell shows on top.

use vstd::prelude::*;
use crate::game::Game;
use crate::tile::Tile;

verus! {

/// Three-color classification of an emitted glyph.
#[derive(Clone, Copy, Debug, PartialEq, Eq, Structural)]
pub enum Paint {
    Default,
    Player,
    Monster,
}

/// Glyph of a bare terrain tile: `#` wall, `.` floor.
pub open spec fn tile_glyph(t: Tile) -> char {
    match t {
        Tile::Wall => '#',
        Tile::Floor => '.',
    }
}

/// Some monster stands at `(x, y)`.
pub open spec fn monster_at(g: Game, x: usize, y: usize) -> bool {
    exists|i: int| 0 <= i < g.monsters@.len() && (#[trigger] g.monsters@[i]) == (x, y)
}

/// What one cell shows: a monster if any stands there, else the player if it
/// stands there, else the terrain.
pub open spec fn cell_glyph(g: Game, x: usize, y: usize) -> (char, Paint) {
    if monster_at(g, x, y) {
        ('M', Paint::Monster)
    } else if x == g.player_x && y == g.player_y {
        ('@', Paint::Player)
    } else {
        (tile_glyph(g.tile_at(x as int, y as int)), Paint::Default)
    }
}

impl Game {
    /// Whether some monster currently stands at `(x, y)`.
    pub fn has_monster_at(&self, x: usize, y: usize) -> (r: bool)
        ensures
            r == monster_at(*self, x, y),
    {
        let n = self.monsters.len();
        let mut i: usize = 0;
        while i < n
            invariant
                i <= n,
                n == self.monsters@.len(),
                forall|j: int| 0 <= j < i ==> (#[trigger] self.monsters@[j]) != (x, y),
            decreases n - i,
        {
            let (mx, my) = self.monsters[i];
            if mx == x && my == y {
                return true;
            }
            i += 1;
        }
        false
    }

    /// The full character grid for one frame, one glyph and color class per
    /// cell. The terminal layer only has to paint it.
    pub fn render(&self) -> (cells: Vec<Vec<(char, Paint)>>)
        requires
            self.wf(),
        ensures
            cells@.len() == self.height,
            forall|y: int| 0 <= y < self.height ==> (#[trigger] cells@[y])@.len() == self.width,
            forall|x: int, y: int|
                0 <= x < self.width && 0 <= y < self.height ==> (#[trigger] cells@[y]@[x])
                    == cell_glyph(*self, x as usize, y as usize),
    {
        let mut cells: Vec<Vec<(char, Paint)>> = Vec::new();
        let mut y: usize = 0;
        while y < self.height
            invariant
                self.wf(),
                y <= self.height,
                cells@.len() == y,
                forall|yy: int| 0 <= yy < y ==> (#[trigger] cells@[yy])@.len() == self.width,
                forall|xx: int, yy: int|
                    0 <= xx < self.width && 0 <= yy < y ==> (#[trigger] cells@[yy]@[xx])
                        == cell_glyph(*self, xx as usize, yy as usize),
            decreases self.height - y,
        {
            let mut row: Vec<(char, Paint)> = Vec::new();
            let mut x: usize = 0;
            while x < self.width
                invariant
                    self.wf(),
                    y < self.height,
                    x <= self.width,
                    row@.len() == x,
                    forall|xx: int|
                        0 <= xx < x ==> (#[trigger] row@[xx]) == cell_glyph(
                            *self,
                            xx as usize,
                            y as usize,
                        ),
                decreases self.width - x,
            {
                let cell: (char, Paint) = if self.has_monster_at(x, y) {
                    ('M', Paint::Monster)
                } else if x == self.player_x && y == self.player_y {
                    ('@', Paint::Player)
                } else {
                    let t = self.map[y][x];
                    (if t == Tile::Floor { '.' } else { '#' }, Paint::Default)
                };
                row.push(cell);
                x += 1;
            }
            cells.push(row);
            y += 1;
        }
        cells
    }
}

} // verus!
