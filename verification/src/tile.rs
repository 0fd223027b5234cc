//! Terrain cells of the map grid.

use vstd::prelude::*;

verus! {

/// One cell of the map: either a non-traversable wall or a traversable floor.
/// Every border cell of a generated map is a wall.
#[derive(Clone, Copy, Debug, PartialEq, Eq, Structural)]
pub enum Tile {
    Wall,
    Floor,
}

} // verus!
