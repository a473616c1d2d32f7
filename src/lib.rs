//! The map-to-physics pipeline of a tile-based 2D game: collision shapes
//! for tileset tiles, collision bodies placed on levels, entrances between
//! levels and the teleport state machine that drives them, navigation meshes
//! pruned by visibility probes, and sliding movement through collision
//! boxes. Work that needs images, physics queries or floating point is
//! handed in by the caller as closures or plain values.
use vstd::prelude::*;

pub mod camera;
pub mod color;
pub mod entrances;
pub mod geometry;
pub mod level;
pub mod map_state;
pub mod movement;
pub mod navmesh;
pub mod pathfinder;
pub mod query;
pub mod spawner;
pub mod teleport;
pub mod text;
pub mod tiles;

verus! {

/// Remaining hit points of something that can be destroyed.
pub struct Health {
    pub current: u32,
    pub max: u32,
}

impl Health {
    /// Subtracts `amount`, stopping at zero.
    pub fn take_damage(&mut self, amount: u32)
        ensures
            final(self).max == old(self).max,
            final(self).current as int == if amount >= old(self).current {
                0
            } else {
                old(self).current - amount
            },
    {
        if amount >= self.current {
            self.current = 0;
        } else {
            self.current = self.current - amount;
        }
    }

    /// No hit points are left: the game is over for this character.
    pub fn is_depleted(&self) -> (r: bool)
        ensures
            r == (self.current == 0),
    {
        self.current == 0
    }
}

} // verus!
