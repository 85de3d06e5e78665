//! The entity store: one record of optional components per entity.

use vstd::prelude::*;
use crate::gamelog::LogEntry;
use crate::components::{
    AreaOfEffect, BlocksTile, CombatStats, Confusion, Consumable, Entity, InBackpack,
    InflictsDamage, Item, Monster, Name, Player, Position, ProvidesHealing, Ranged, Renderable,
    SufferDamage, Viewshed, WantsToDropItem, WantsToMelee, WantsToPickupItem, WantsToUseItem,
};

verus! {

/// Everything the store holds about one entity.
///
/// `live` is false from the moment the entity is deleted. Its components stay in
/// the record until [`World::maintain`] drops them, but no query sees them.
#[derive(Clone, Debug, PartialEq, Eq)]
pub struct EntityData {
    pub live: bool,
    pub position: Option<Position>,
    pub renderable: Option<Renderable>,
    pub player: Option<Player>,
    pub viewshed: Option<Viewshed>,
    pub monster: Option<Monster>,
    pub name: Option<Name>,
    pub blocks_tile: Option<BlocksTile>,
    pub combat_stats: Option<CombatStats>,
    pub wants_to_melee: Option<WantsToMelee>,
    pub suffer_damage: Option<SufferDamage>,
    pub item: Option<Item>,
    pub in_backpack: Option<InBackpack>,
    pub wants_to_pickup_item: Option<WantsToPickupItem>,
    pub wants_to_use_item: Option<WantsToUseItem>,
    pub wants_to_drop_item: Option<WantsToDropItem>,
    pub consumable: Option<Consumable>,
    pub provides_healing: Option<ProvidesHealing>,
    pub ranged: Option<Ranged>,
    pub inflicts_damage: Option<InflictsDamage>,
    pub area_of_effect: Option<AreaOfEffect>,
    pub confusion: Option<Confusion>,
}

/// The records of a world, indexed by entity id.
pub type Slots = Seq<EntityData>;

impl EntityData {
    /// The record of a live entity without components.
    pub open spec fn spec_blank() -> EntityData {
        EntityData {
            live: true,
            position: None,
            renderable: None,
            player: None,
            viewshed: None,
            monster: None,
            name: None,
            blocks_tile: None,
            combat_stats: None,
            wants_to_melee: None,
            suffer_damage: None,
            item: None,
            in_backpack: None,
            wants_to_pickup_item: None,
            wants_to_use_item: None,
            wants_to_drop_item: None,
            consumable: None,
            provides_healing: None,
            ranged: None,
            inflicts_damage: None,
            area_of_effect: None,
            confusion: None,
        }
    }

    /// The record of an entity that is gone.
    pub open spec fn spec_vacant() -> EntityData {
        EntityData { live: false, ..Self::spec_blank() }
    }

    pub fn blank() -> (r: EntityData)
        ensures
            r == Self::spec_blank(),
    {
        EntityData {
            live: true,
            position: None,
            renderable: None,
            player: None,
            viewshed: None,
            monster: None,
            name: None,
            blocks_tile: None,
            combat_stats: None,
            wants_to_melee: None,
            suffer_damage: None,
            item: None,
            in_backpack: None,
            wants_to_pickup_item: None,
            wants_to_use_item: None,
            wants_to_drop_item: None,
            consumable: None,
            provides_healing: None,
            ranged: None,
            inflicts_damage: None,
            area_of_effect: None,
            confusion: None,
        }
    }

    /// The name the record carries, if any.
    pub open spec fn label(self) -> Option<String> {
        match self.name {
            Some(n) => Some(n.name),
            None => None,
        }
    }
}

/// Is `e` an entity of `w` that has not been deleted?
pub open spec fn alive(w: Slots, e: Entity) -> bool {
    e.id < w.len() && w[e.id as int].live
}

/// The record that queries see for `e`: its own while it lives, a vacant one after.
pub open spec fn seen(w: Slots, e: Entity) -> EntityData {
    if alive(w, e) {
        w[e.id as int]
    } else {
        EntityData::spec_vacant()
    }
}

/// The name that queries see for `e`.
pub open spec fn label_of(w: Slots, e: Entity) -> Option<String> {
    seen(w, e).label()
}

/// The first of `occupants`, from the place `from` on, that lives and has
/// combat stats.
pub open spec fn fighter_among(w: Slots, occupants: Seq<Entity>, from: int) -> Option<Entity>
    decreases occupants.len() - from,
{
    if from < 0 || from >= occupants.len() {
        None
    } else if alive(w, occupants[from]) && w[occupants[from].id as int].combat_stats.is_some() {
        Some(occupants[from])
    } else {
        fighter_among(w, occupants, from + 1)
    }
}

/// The first of `occupants` that lives and has combat stats, as a list of
/// one or none.
pub open spec fn first_fighter(w: Slots, occupants: Seq<Entity>) -> Seq<Entity> {
    match fighter_among(w, occupants, 0) {
        Some(t) => seq![t],
        None => Seq::empty(),
    }
}

/// Is the entity of this record placed at most once: on the map or in a
/// backpack, not both?
pub open spec fn placed_once(d: EntityData) -> bool {
    !(d.position.is_some() && d.in_backpack.is_some())
}

/// The entities of a world together with the message log: what the systems
/// that write messages turn into a new such pair.
pub struct Sim {
    pub world: Slots,
    pub log: Seq<LogEntry>,
}

/// The name that a record carries, if any.
pub fn label(d: &EntityData) -> (r: Option<String>)
    ensures
        r == d.label(),
{
    match &d.name {
        Some(n) => Some(n.name.clone()),
        None => None,
    }
}

/// What [`World::maintain`] leaves of a record.
pub open spec fn swept(d: EntityData) -> EntityData {
    if d.live {
        d
    } else {
        EntityData::spec_vacant()
    }
}

pub struct World {
    pub slots: Vec<EntityData>,
}

impl View for World {
    type V = Seq<EntityData>;

    open spec fn view(&self) -> Seq<EntityData> {
        self.slots@
    }
}

impl World {
    /// The first of `occupants` that lives and has combat stats.
    pub fn first_fighter(&self, occupants: &Vec<Entity>) -> (found: Option<Entity>)
        ensures
            found == fighter_among(self@, occupants@, 0),
    {
        let mut k: usize = 0;
        while k < occupants.len()
            invariant
                k <= occupants@.len(),
                fighter_among(self@, occupants@, 0) == fighter_among(self@, occupants@, k as int),
            decreases occupants@.len() - k,
        {
            let t = occupants[k];
            if self.is_alive(t) && self.slots[t.id].combat_stats.is_some() {
                return Some(t);
            }
            k += 1;
        }
        None
    }

    pub fn new() -> (w: World)
        ensures
            w@.len() == 0,
    {
        World { slots: Vec::new() }
    }

    /// Number of handles given out so far, deleted entities included.
    pub fn len(&self) -> (n: usize)
        ensures
            n == self@.len(),
    {
        self.slots.len()
    }

    /// Makes a new entity without components. Its handle was never given out before.
    pub fn create(&mut self) -> (e: Entity)
        ensures
            e.id == old(self)@.len(),
            final(self)@ == old(self)@.push(EntityData::spec_blank()),
    {
        let e = Entity { id: self.slots.len() };
        self.slots.push(EntityData::blank());
        e
    }

    pub fn is_alive(&self, e: Entity) -> (b: bool)
        ensures
            b == alive(self@, e),
    {
        e.id < self.slots.len() && self.slots[e.id].live
    }

    /// The name of `e`, if it lives and has one.
    pub fn label_of(&self, e: Entity) -> (r: Option<String>)
        ensures
            r == label_of(self@, e),
    {
        if e.id < self.slots.len() && self.slots[e.id].live {
            match &self.slots[e.id].name {
                Some(n) => Some(n.name.clone()),
                None => None,
            }
        } else {
            None
        }
    }

    /// Marks `e` as deleted: from now on no query sees it. Its components are
    /// dropped by the next [`World::maintain`]. Without effect on a handle
    /// whose entity is gone already.
    pub fn delete(&mut self, e: Entity)
        ensures
            final(self)@ == (if alive(old(self)@, e) {
                old(self)@.update(e.id as int, EntityData { live: false, ..old(self)@[e.id as int] })
            } else {
                old(self)@
            }),
            !alive(final(self)@, e),
    {
        if e.id < self.slots.len() && self.slots[e.id].live {
            self.slots[e.id].live = false;
        }
    }

    /// The synchronisation point of a tick: drops the components of every
    /// deleted entity. Live entities and all handles stay as they are.
    pub fn maintain(&mut self)
        ensures
            final(self)@ == old(self)@.map_values(|d: EntityData| swept(d)),
    {
        let n = self.slots.len();
        let mut i: usize = 0;
        while i < n
            invariant
                n == self@.len(),
                n == old(self)@.len(),
                i <= n,
                forall|j: int| 0 <= j < i ==> self@[j] == swept(old(self)@[j]),
                forall|j: int| i <= j < n ==> self@[j] == old(self)@[j],
            decreases n - i,
        {
            if !self.slots[i].live {
                self.slots[i] = EntityData::blank();
                self.slots[i].live = false;
            }
            i += 1;
        }
        assert(self@ =~= old(self)@.map_values(|d: EntityData| swept(d)));
    }
}

} // verus!
