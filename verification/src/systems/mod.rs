//! The systems of a tick, each a pass over the entities.

pub mod damage;
pub mod map_indexing;
pub mod visibility;
pub mod melee_combat;
pub mod inventory;
pub mod item_drop;
pub mod item_usage;
pub mod monster_ai;
