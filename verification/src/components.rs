//! The typed data that an entity may carry.

use vstd::prelude::*;

verus! {

/// Handle of one simulated object: the index of its slot in the [`crate::world::World`].
///
/// A handle is plain data. It may outlive its entity, and every lookup through a
/// handle whose entity is gone finds nothing. The store gives each handle out
/// once; a handle made up by the caller may come to name an entity that is
/// created later.
#[derive(Clone, Copy, Debug, PartialEq, Eq, Hash, Structural)]
pub struct Entity {
    pub id: usize,
}

/// A cell of the map grid.
#[derive(Clone, Copy, Debug, PartialEq, Eq, Hash, Structural)]
pub struct Position {
    pub x: i32,
    pub y: i32,
}

/// A colour, one byte per channel.
#[derive(Clone, Copy, Debug, PartialEq, Eq, Structural)]
pub struct Rgb {
    pub r: u8,
    pub g: u8,
    pub b: u8,
}

/// How an entity is drawn. Entities are drawn in ascending order of `index`.
#[derive(Clone, Copy, Debug, PartialEq, Eq, Structural)]
pub struct Renderable {
    pub glyph: u8,
    pub fg: Rgb,
    pub bg: Rgb,
    pub index: u8,
}

/// Marks the entity that the user steers.
#[derive(Clone, Copy, Debug, PartialEq, Eq, Structural)]
pub struct Player {}

/// What an entity currently sees.
#[derive(Clone, Debug, PartialEq, Eq)]
pub struct Viewshed {
    /// The visible cells, in ascending order of their map index.
    pub visible_tiles: Vec<Position>,
    pub range: i32,
    /// Set when `visible_tiles` is out of date.
    pub dirty: bool,
}

/// Marks an entity that the monster AI steers.
#[derive(Clone, Copy, Debug, PartialEq, Eq, Structural)]
pub struct Monster {}

#[derive(Clone, Debug, PartialEq, Eq)]
pub struct Name {
    pub name: String,
}

/// Marks an entity that nothing can walk through.
#[derive(Clone, Copy, Debug, PartialEq, Eq, Structural)]
pub struct BlocksTile {}

#[derive(Clone, Copy, Debug, PartialEq, Eq, Structural)]
pub struct CombatStats {
    pub max_hp: i32,
    pub hp: i32,
    pub defense: i32,
    pub power: i32,
}

/// Intent: attack `target` this tick.
#[derive(Clone, Copy, Debug, PartialEq, Eq, Structural)]
pub struct WantsToMelee {
    pub target: Entity,
}

/// Damage taken this tick and not yet subtracted from the hit points.
#[derive(Clone, Copy, Debug, PartialEq, Eq, Structural)]
pub struct SufferDamage {
    pub amount: i32,
}

/// Marks an entity that can be picked up.
#[derive(Clone, Copy, Debug, PartialEq, Eq, Structural)]
pub struct Item {}

/// Placement of a carried item: it lies in the backpack of `owner`.
#[derive(Clone, Copy, Debug, PartialEq, Eq, Structural)]
pub struct InBackpack {
    pub owner: Entity,
}

/// Intent: `collected_by` picks up `item` this tick.
#[derive(Clone, Copy, Debug, PartialEq, Eq, Structural)]
pub struct WantsToPickupItem {
    pub collected_by: Entity,
    pub item: Entity,
}

/// Intent: use `item` this tick, on the user itself or at the cell `target`.
#[derive(Clone, Copy, Debug, PartialEq, Eq, Structural)]
pub struct WantsToUseItem {
    pub item: Entity,
    pub target: Option<Position>,
}

/// Intent: put `item` down this tick.
#[derive(Clone, Copy, Debug, PartialEq, Eq, Structural)]
pub struct WantsToDropItem {
    pub item: Entity,
}

/// Marks an item that is used up by its first use.
#[derive(Clone, Copy, Debug, PartialEq, Eq, Structural)]
pub struct Consumable {}

#[derive(Clone, Copy, Debug, PartialEq, Eq, Structural)]
pub struct ProvidesHealing {
    pub heal_amount: i32,
}

#[derive(Clone, Copy, Debug, PartialEq, Eq, Structural)]
pub struct Ranged {
    pub range: i32,
}

#[derive(Clone, Copy, Debug, PartialEq, Eq, Structural)]
pub struct InflictsDamage {
    pub damage: i32,
}

#[derive(Clone, Copy, Debug, PartialEq, Eq, Structural)]
pub struct AreaOfEffect {
    pub radius: i32,
}

/// On an item: the confusion it causes. On a creature: the turns it stays confused.
#[derive(Clone, Copy, Debug, PartialEq, Eq, Structural)]
pub struct Confusion {
    pub turns: i32,
}

/// The integer `v` brought into the range of `i32`.
pub open spec fn clamp_i32(v: int) -> int {
    if v < i32::MIN {
        i32::MIN as int
    } else if v > i32::MAX {
        i32::MAX as int
    } else {
        v
    }
}

/// `a + b`, held at the ends of the `i32` range.
pub fn saturating_add(a: i32, b: i32) -> (r: i32)
    ensures
        r == clamp_i32(a + b),
{
    let v: i64 = a as i64 + b as i64;
    if v < i32::MIN as i64 {
        i32::MIN
    } else if v > i32::MAX as i64 {
        i32::MAX
    } else {
        v as i32
    }
}

/// `a - b`, held at the ends of the `i32` range.
pub fn saturating_sub(a: i32, b: i32) -> (r: i32)
    ensures
        r == clamp_i32(a - b),
{
    let v: i64 = a as i64 - b as i64;
    if v < i32::MIN as i64 {
        i32::MIN
    } else if v > i32::MAX as i64 {
        i32::MAX
    } else {
        v as i32
    }
}

} // verus!
