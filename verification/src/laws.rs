//! The game's laws, proved once over the specification functions that the
//! executable contracts speak of. `update`'s own contract ties the running
//! code to `pos_after` and `remove_value`; these lemmas say what those mean
//! for play.

use vstd::prelude::*;
use vstd::seq_lib::group_to_multiset_ensures;
use crate::game::{clamped, dx_of, dy_of, Game, Key};
use crate::tile::Tile;

verus! {

/// Across one update from any well-formed state, the player stays strictly
/// inside the border and on a floor tile — whatever key comes in. Applied
/// after each step of a run, this keeps the player valid over any sequence
/// of moves.
pub proof fn lemma_player_stays_valid(g: Game, key: Key)
    requires
        g.wf(),
    ensures
        g.in_interior(g.pos_after(key).0, g.pos_after(key).1),
        g.tile_at(g.pos_after(key).0, g.pos_after(key).1) == Tile::Floor,
{
}

/// A key that moves in no direction leaves the player exactly where it was,
/// and — as long as no monster stands on the player's cell — leaves the
/// monster list untouched as well.
pub proof fn lemma_noop_update(g: Game, key: Key)
    requires
        g.wf(),
        dx_of(key) == 0,
        dy_of(key) == 0,
        !g.monsters@.contains((g.player_x, g.player_y)),
    ensures
        g.pos_after(key) == (g.player_x as int, g.player_y as int),
        g.monsters@.remove_value((g.player_x, g.player_y)) == g.monsters@,
{
    g.monsters@.index_of_first_ensures((g.player_x, g.player_y));
}

/// Collision resolution removes exactly one instance. If the cell the player
/// ends on holds exactly one monster, the list shrinks by one and the
/// coordinate is gone; if two monsters share that cell, one instance goes
/// and one stays.
pub proof fn lemma_collision(ms: Seq<(usize, usize)>, p: (usize, usize))
    ensures
        ms.to_multiset().count(p) == 1 ==> {
            &&& ms.remove_value(p).len() == ms.len() - 1
            &&& !ms.remove_value(p).contains(p)
        },
        ms.to_multiset().count(p) == 2 ==> {
            &&& ms.remove_value(p).len() == ms.len() - 1
            &&& ms.remove_value(p).to_multiset().count(p) == 1
        },
{
    broadcast use group_to_multiset_ensures;
    broadcast use vstd::multiset::group_multiset_axioms;

    if ms.to_multiset().count(p) >= 1 {
        assert(ms.contains(p));
        ms.index_of_first_ensures(p);
        let i = ms.index_of_first(p)->Some_0;
        assert(ms.remove_value(p) == ms.remove(i));
        assert(ms.remove(i).to_multiset() =~= ms.to_multiset().remove(ms[i]));
        assert(ms.remove_value(p).to_multiset().count(p) == ms.to_multiset().count(p) - 1);
    }
}

/// A move that would leave the interior is clamped back to it on each axis;
/// and whenever the clamped candidate cell is a wall, the player does not
/// move at all.
pub proof fn lemma_boundary(g: Game, key: Key)
    requires
        g.wf(),
    ensures
        g.target_x(key) == clamped(g.player_x + dx_of(key), 1, g.width - 2),
        g.target_y(key) == clamped(g.player_y + dy_of(key), 1, g.height - 2),
        1 <= g.target_x(key) <= g.width - 2,
        1 <= g.target_y(key) <= g.height - 2,
        g.tile_at(g.target_x(key), g.target_y(key)) == Tile::Wall ==> g.pos_after(key) == (
            g.player_x as int,
            g.player_y as int,
        ),
{
}

} // verus!
