//! The entity store by component: attach, look up, remove, and list the
//! entities that carry a given set of components.

use vstd::prelude::*;
use crate::components::{
    AreaOfEffect, BlocksTile, CombatStats, Confusion, Consumable, Entity, InBackpack,
    InflictsDamage, Item, Monster, Name, Player, Position, ProvidesHealing, Ranged, Renderable,
    SufferDamage, Viewshed, WantsToDropItem, WantsToMelee, WantsToPickupItem, WantsToUseItem,
};
use crate::world::{alive, seen, EntityData, Slots, World};

verus! {

/// A component of any type.
#[derive(Clone, Debug, PartialEq, Eq)]
pub enum Component {
    Position(Position),
    Renderable(Renderable),
    Player(Player),
    Viewshed(Viewshed),
    Monster(Monster),
    Name(Name),
    BlocksTile(BlocksTile),
    CombatStats(CombatStats),
    WantsToMelee(WantsToMelee),
    SufferDamage(SufferDamage),
    Item(Item),
    InBackpack(InBackpack),
    WantsToPickupItem(WantsToPickupItem),
    WantsToUseItem(WantsToUseItem),
    WantsToDropItem(WantsToDropItem),
    Consumable(Consumable),
    ProvidesHealing(ProvidesHealing),
    Ranged(Ranged),
    InflictsDamage(InflictsDamage),
    AreaOfEffect(AreaOfEffect),
    Confusion(Confusion),
}

/// The type of a component.
#[derive(Clone, Copy, Debug, PartialEq, Eq, Structural)]
pub enum ComponentKind {
    Position,
    Renderable,
    Player,
    Viewshed,
    Monster,
    Name,
    BlocksTile,
    CombatStats,
    WantsToMelee,
    SufferDamage,
    Item,
    InBackpack,
    WantsToPickupItem,
    WantsToUseItem,
    WantsToDropItem,
    Consumable,
    ProvidesHealing,
    Ranged,
    InflictsDamage,
    AreaOfEffect,
    Confusion,
}

impl EntityData {
    /// The record with `c` in the place of its component of that type.
    pub open spec fn with(self, c: Component) -> EntityData {
        match c {
            Component::Position(v) => EntityData { position: Some(v), ..self },
            Component::Renderable(v) => EntityData { renderable: Some(v), ..self },
            Component::Player(v) => EntityData { player: Some(v), ..self },
            Component::Viewshed(v) => EntityData { viewshed: Some(v), ..self },
            Component::Monster(v) => EntityData { monster: Some(v), ..self },
            Component::Name(v) => EntityData { name: Some(v), ..self },
            Component::BlocksTile(v) => EntityData { blocks_tile: Some(v), ..self },
            Component::CombatStats(v) => EntityData { combat_stats: Some(v), ..self },
            Component::WantsToMelee(v) => EntityData { wants_to_melee: Some(v), ..self },
            Component::SufferDamage(v) => EntityData { suffer_damage: Some(v), ..self },
            Component::Item(v) => EntityData { item: Some(v), ..self },
            Component::InBackpack(v) => EntityData { in_backpack: Some(v), ..self },
            Component::WantsToPickupItem(v) => EntityData { wants_to_pickup_item: Some(v), ..self },
            Component::WantsToUseItem(v) => EntityData { wants_to_use_item: Some(v), ..self },
            Component::WantsToDropItem(v) => EntityData { wants_to_drop_item: Some(v), ..self },
            Component::Consumable(v) => EntityData { consumable: Some(v), ..self },
            Component::ProvidesHealing(v) => EntityData { provides_healing: Some(v), ..self },
            Component::Ranged(v) => EntityData { ranged: Some(v), ..self },
            Component::InflictsDamage(v) => EntityData { inflicts_damage: Some(v), ..self },
            Component::AreaOfEffect(v) => EntityData { area_of_effect: Some(v), ..self },
            Component::Confusion(v) => EntityData { confusion: Some(v), ..self },
        }
    }

    /// The record without its component of the type `kind`.
    pub open spec fn without(self, kind: ComponentKind) -> EntityData {
        match kind {
            ComponentKind::Position => EntityData { position: None, ..self },
            ComponentKind::Renderable => EntityData { renderable: None, ..self },
            ComponentKind::Player => EntityData { player: None, ..self },
            ComponentKind::Viewshed => EntityData { viewshed: None, ..self },
            ComponentKind::Monster => EntityData { monster: None, ..self },
            ComponentKind::Name => EntityData { name: None, ..self },
            ComponentKind::BlocksTile => EntityData { blocks_tile: None, ..self },
            ComponentKind::CombatStats => EntityData { combat_stats: None, ..self },
            ComponentKind::WantsToMelee => EntityData { wants_to_melee: None, ..self },
            ComponentKind::SufferDamage => EntityData { suffer_damage: None, ..self },
            ComponentKind::Item => EntityData { item: None, ..self },
            ComponentKind::InBackpack => EntityData { in_backpack: None, ..self },
            ComponentKind::WantsToPickupItem => EntityData { wants_to_pickup_item: None, ..self },
            ComponentKind::WantsToUseItem => EntityData { wants_to_use_item: None, ..self },
            ComponentKind::WantsToDropItem => EntityData { wants_to_drop_item: None, ..self },
            ComponentKind::Consumable => EntityData { consumable: None, ..self },
            ComponentKind::ProvidesHealing => EntityData { provides_healing: None, ..self },
            ComponentKind::Ranged => EntityData { ranged: None, ..self },
            ComponentKind::InflictsDamage => EntityData { inflicts_damage: None, ..self },
            ComponentKind::AreaOfEffect => EntityData { area_of_effect: None, ..self },
            ComponentKind::Confusion => EntityData { confusion: None, ..self },
        }
    }

    /// Does the record hold a component of the type `kind`?
    pub open spec fn has(self, kind: ComponentKind) -> bool {
        match kind {
            ComponentKind::Position => self.position.is_some(),
            ComponentKind::Renderable => self.renderable.is_some(),
            ComponentKind::Player => self.player.is_some(),
            ComponentKind::Viewshed => self.viewshed.is_some(),
            ComponentKind::Monster => self.monster.is_some(),
            ComponentKind::Name => self.name.is_some(),
            ComponentKind::BlocksTile => self.blocks_tile.is_some(),
            ComponentKind::CombatStats => self.combat_stats.is_some(),
            ComponentKind::WantsToMelee => self.wants_to_melee.is_some(),
            ComponentKind::SufferDamage => self.suffer_damage.is_some(),
            ComponentKind::Item => self.item.is_some(),
            ComponentKind::InBackpack => self.in_backpack.is_some(),
            ComponentKind::WantsToPickupItem => self.wants_to_pickup_item.is_some(),
            ComponentKind::WantsToUseItem => self.wants_to_use_item.is_some(),
            ComponentKind::WantsToDropItem => self.wants_to_drop_item.is_some(),
            ComponentKind::Consumable => self.consumable.is_some(),
            ComponentKind::ProvidesHealing => self.provides_healing.is_some(),
            ComponentKind::Ranged => self.ranged.is_some(),
            ComponentKind::InflictsDamage => self.inflicts_damage.is_some(),
            ComponentKind::AreaOfEffect => self.area_of_effect.is_some(),
            ComponentKind::Confusion => self.confusion.is_some(),
        }
    }

    /// Does the record hold a component of each of the first `k` of `kinds`?
    pub open spec fn has_all(self, kinds: Seq<ComponentKind>, k: int) -> bool {
        forall|i: int| 0 <= i < k && i < kinds.len() ==> self.has(#[trigger] kinds[i])
    }

    pub fn carries(&self, kind: ComponentKind) -> (b: bool)
        ensures
            b == self.has(kind),
    {
        match kind {
            ComponentKind::Position => self.position.is_some(),
            ComponentKind::Renderable => self.renderable.is_some(),
            ComponentKind::Player => self.player.is_some(),
            ComponentKind::Viewshed => self.viewshed.is_some(),
            ComponentKind::Monster => self.monster.is_some(),
            ComponentKind::Name => self.name.is_some(),
            ComponentKind::BlocksTile => self.blocks_tile.is_some(),
            ComponentKind::CombatStats => self.combat_stats.is_some(),
            ComponentKind::WantsToMelee => self.wants_to_melee.is_some(),
            ComponentKind::SufferDamage => self.suffer_damage.is_some(),
            ComponentKind::Item => self.item.is_some(),
            ComponentKind::InBackpack => self.in_backpack.is_some(),
            ComponentKind::WantsToPickupItem => self.wants_to_pickup_item.is_some(),
            ComponentKind::WantsToUseItem => self.wants_to_use_item.is_some(),
            ComponentKind::WantsToDropItem => self.wants_to_drop_item.is_some(),
            ComponentKind::Consumable => self.consumable.is_some(),
            ComponentKind::ProvidesHealing => self.provides_healing.is_some(),
            ComponentKind::Ranged => self.ranged.is_some(),
            ComponentKind::InflictsDamage => self.inflicts_damage.is_some(),
            ComponentKind::AreaOfEffect => self.area_of_effect.is_some(),
            ComponentKind::Confusion => self.confusion.is_some(),
        }
    }

    pub fn carries_all(&self, kinds: &Vec<ComponentKind>) -> (b: bool)
        ensures
            b == self.has_all(kinds@, kinds@.len() as int),
    {
        let mut i: usize = 0;
        while i < kinds.len()
            invariant
                i <= kinds@.len(),
                self.has_all(kinds@, i as int),
            decreases kinds@.len() - i,
        {
            if !self.carries(kinds[i]) {
                return false;
            }
            i += 1;
        }
        true
    }
}

/// The live entities with an id below `k` that hold a component of each of
/// `kinds`, by ascending id.
pub open spec fn holders(w: Slots, kinds: Seq<ComponentKind>, k: int) -> Seq<Entity>
    decreases k,
{
    if k <= 0 {
        Seq::empty()
    } else if k <= w.len() && w[k - 1].live && w[k - 1].has_all(kinds, kinds.len() as int) {
        holders(w, kinds, k - 1).push(Entity { id: (k - 1) as usize })
    } else {
        holders(w, kinds, k - 1)
    }
}

impl World {
    /// The record of `e`, while it lives.
    pub fn get(&self, e: Entity) -> (r: Option<&EntityData>)
        ensures
            r == (if alive(self@, e) {
                Some(&self@[e.id as int])
            } else {
                None
            }),
    {
        if self.is_alive(e) {
            Some(&self.slots[e.id])
        } else {
            None
        }
    }

    /// Does `e` live and hold a component of the type `kind`?
    pub fn has(&self, e: Entity, kind: ComponentKind) -> (b: bool)
        ensures
            b == seen(self@, e).has(kind),
    {
        if self.is_alive(e) {
            self.slots[e.id].carries(kind)
        } else {
            false
        }
    }

    /// Gives `e` the component `c`, in the place of the one of that type
    /// that it may hold.
    pub fn attach(&mut self, e: Entity, c: Component)
        requires
            alive(old(self)@, e),
        ensures
            final(self)@ == old(self)@.update(e.id as int, old(self)@[e.id as int].with(c)),
    {
        match c {
            Component::Position(v) => {
                self.slots[e.id].position = Some(v);
            },
            Component::Renderable(v) => {
                self.slots[e.id].renderable = Some(v);
            },
            Component::Player(v) => {
                self.slots[e.id].player = Some(v);
            },
            Component::Viewshed(v) => {
                self.slots[e.id].viewshed = Some(v);
            },
            Component::Monster(v) => {
                self.slots[e.id].monster = Some(v);
            },
            Component::Name(v) => {
                self.slots[e.id].name = Some(v);
            },
            Component::BlocksTile(v) => {
                self.slots[e.id].blocks_tile = Some(v);
            },
            Component::CombatStats(v) => {
                self.slots[e.id].combat_stats = Some(v);
            },
            Component::WantsToMelee(v) => {
                self.slots[e.id].wants_to_melee = Some(v);
            },
            Component::SufferDamage(v) => {
                self.slots[e.id].suffer_damage = Some(v);
            },
            Component::Item(v) => {
                self.slots[e.id].item = Some(v);
            },
            Component::InBackpack(v) => {
                self.slots[e.id].in_backpack = Some(v);
            },
            Component::WantsToPickupItem(v) => {
                self.slots[e.id].wants_to_pickup_item = Some(v);
            },
            Component::WantsToUseItem(v) => {
                self.slots[e.id].wants_to_use_item = Some(v);
            },
            Component::WantsToDropItem(v) => {
                self.slots[e.id].wants_to_drop_item = Some(v);
            },
            Component::Consumable(v) => {
                self.slots[e.id].consumable = Some(v);
            },
            Component::ProvidesHealing(v) => {
                self.slots[e.id].provides_healing = Some(v);
            },
            Component::Ranged(v) => {
                self.slots[e.id].ranged = Some(v);
            },
            Component::InflictsDamage(v) => {
                self.slots[e.id].inflicts_damage = Some(v);
            },
            Component::AreaOfEffect(v) => {
                self.slots[e.id].area_of_effect = Some(v);
            },
            Component::Confusion(v) => {
                self.slots[e.id].confusion = Some(v);
            },
        }
    }

    /// Takes the component of the type `kind` from `e`. Without effect on an
    /// entity that is gone.
    pub fn remove(&mut self, e: Entity, kind: ComponentKind)
        ensures
            final(self)@ == (if alive(old(self)@, e) {
                old(self)@.update(e.id as int, old(self)@[e.id as int].without(kind))
            } else {
                old(self)@
            }),
    {
        if !self.is_alive(e) {
            return ;
        }
        match kind {
            ComponentKind::Position => {
                self.slots[e.id].position = None;
            },
            ComponentKind::Renderable => {
                self.slots[e.id].renderable = None;
            },
            ComponentKind::Player => {
                self.slots[e.id].player = None;
            },
            ComponentKind::Viewshed => {
                self.slots[e.id].viewshed = None;
            },
            ComponentKind::Monster => {
                self.slots[e.id].monster = None;
            },
            ComponentKind::Name => {
                self.slots[e.id].name = None;
            },
            ComponentKind::BlocksTile => {
                self.slots[e.id].blocks_tile = None;
            },
            ComponentKind::CombatStats => {
                self.slots[e.id].combat_stats = None;
            },
            ComponentKind::WantsToMelee => {
                self.slots[e.id].wants_to_melee = None;
            },
            ComponentKind::SufferDamage => {
                self.slots[e.id].suffer_damage = None;
            },
            ComponentKind::Item => {
                self.slots[e.id].item = None;
            },
            ComponentKind::InBackpack => {
                self.slots[e.id].in_backpack = None;
            },
            ComponentKind::WantsToPickupItem => {
                self.slots[e.id].wants_to_pickup_item = None;
            },
            ComponentKind::WantsToUseItem => {
                self.slots[e.id].wants_to_use_item = None;
            },
            ComponentKind::WantsToDropItem => {
                self.slots[e.id].wants_to_drop_item = None;
            },
            ComponentKind::Consumable => {
                self.slots[e.id].consumable = None;
            },
            ComponentKind::ProvidesHealing => {
                self.slots[e.id].provides_healing = None;
            },
            ComponentKind::Ranged => {
                self.slots[e.id].ranged = None;
            },
            ComponentKind::InflictsDamage => {
                self.slots[e.id].inflicts_damage = None;
            },
            ComponentKind::AreaOfEffect => {
                self.slots[e.id].area_of_effect = None;
            },
            ComponentKind::Confusion => {
                self.slots[e.id].confusion = None;
            },
        }
    }

    /// The live entities that hold a component of each of `kinds`, by
    /// ascending id.
    pub fn entities_with(&self, kinds: &Vec<ComponentKind>) -> (found: Vec<Entity>)
        ensures
            found@ == holders(self@, kinds@, self@.len() as int),
    {
        let n = self.slots.len();
        let mut found: Vec<Entity> = Vec::new();
        let mut i: usize = 0;
        while i < n
            invariant
                n == self@.len(),
                i <= n,
                found@ == holders(self@, kinds@, i as int),
            decreases n - i,
        {
            if self.slots[i].live && self.slots[i].carries_all(kinds) {
                found.push(Entity { id: i });
            }
            i += 1;
        }
        found
    }
}

/// A deleted entity is invisible at once: it is listed for no set of
/// components, whether or not the store was swept since.
pub proof fn lemma_deleted_are_not_listed(w: Slots, kinds: Seq<ComponentKind>, k: int, e: Entity)
    requires
        !alive(w, e),
        w.len() <= usize::MAX,
    ensures
        !holders(w, kinds, k).contains(e),
    decreases k,
{
    if k > 0 {
        lemma_deleted_are_not_listed(w, kinds, k - 1, e);
        let rest = holders(w, kinds, k - 1);
        if holders(w, kinds, k).contains(e) {
            let c = choose|c: int| 0 <= c < holders(w, kinds, k).len() && holders(w, kinds, k)[c] == e;
            if c < rest.len() {
                assert(rest[c] == e);
                assert(rest.contains(e));
            }
        }
    } else {
        assert(holders(w, kinds, k).len() == 0);
    }
}

} // verus!
