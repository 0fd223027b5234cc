//! A minimal roguelike core: a randomly generated walled grid, stationary
//! monsters, and a per-key update step that clamps the player's movement to
//! the interior and removes the first monster it collides with. The state
//! invariant — walled border, player and monsters strictly inside on floor
//! tiles — is established by the constructors and preserved by every update.
//! The surrounding terminal layer only paints the grid that `render` hands
//! it and feeds one key code per frame into `update`.

pub mod game;
pub mod laws;
pub mod render;
pub mod rng;
pub mod tile;
