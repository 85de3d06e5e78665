//! Picking up: an item leaves the map and enters a backpack.

use vstd::prelude::*;
use crate::components::{Entity, InBackpack};
use crate::gamelog::{GameLog, LogEntry};
use crate::world::{alive, label, placed_once, EntityData, Sim, Slots, World};

verus! {

/// Does entity `i` pick something up this tick? It does where it lives,
/// wants to, and the item it names lives.
pub open spec fn collects(w: Slots, i: int) -> bool {
    &&& 0 <= i < w.len()
    &&& w[i].live
    &&& w[i].wants_to_pickup_item.is_some()
    &&& alive(w, w[i].wants_to_pickup_item.unwrap().item)
}

/// The pickup of entity `i`: the item loses its position and lies in the
/// backpack of the collector that the intent names. Logged where that
/// collector is `player`.
pub open spec fn pick_up(s: Sim, i: int, player: Entity) -> Sim {
    if !collects(s.world, i) {
        s
    } else {
        let intent = s.world[i].wants_to_pickup_item.unwrap();
        let item = s.world[intent.item.id as int];
        let world = s.world.update(
            intent.item.id as int,
            EntityData {
                position: None,
                in_backpack: Some(InBackpack { owner: intent.collected_by }),
                ..item
            },
        );
        if intent.collected_by == player {
            Sim { world, log: s.log.push(LogEntry::PickedUp { item: item.label() }) }
        } else {
            Sim { world, log: s.log }
        }
    }
}

/// The pickups of the entities with an id below `k`, by ascending id.
pub open spec fn pick_ups(s: Sim, k: int, player: Entity) -> Sim
    decreases k,
{
    if k <= 0 {
        s
    } else {
        pick_up(pick_ups(s, k - 1, player), k - 1, player)
    }
}

/// A record without its pickup intent.
pub open spec fn sated(d: EntityData) -> EntityData {
    EntityData { wants_to_pickup_item: None, ..d }
}

/// What the pickup pass makes of the entities and the log.
pub open spec fn pickup_result(s: Sim, player: Entity) -> Sim {
    let done = pick_ups(s, s.world.len() as int, player);
    Sim { world: done.world.map_values(|d: EntityData| sated(d)), log: done.log }
}

/// The pickups change no record but in its position and its backpack.
pub proof fn lemma_pick_ups_keep(s: Sim, k: int, player: Entity)
    ensures
        pick_ups(s, k, player).world.len() == s.world.len(),
        forall|j: int|
            0 <= j < s.world.len() ==> (#[trigger] pick_ups(s, k, player).world[j]) == (EntityData {
                position: pick_ups(s, k, player).world[j].position,
                in_backpack: pick_ups(s, k, player).world[j].in_backpack,
                ..s.world[j]
            }),
    decreases k,
{
    if k > 0 {
        lemma_pick_ups_keep(s, k - 1, player);
    }
}

/// Does entity `j` hold the intent to pick up `item`?
pub open spec fn reaches_for(w: Slots, j: int, item: Entity) -> bool {
    0 <= j < w.len() && w[j].live && w[j].wants_to_pickup_item.is_some()
        && w[j].wants_to_pickup_item.unwrap().item == item
}

proof fn lemma_picked_up(s: Sim, player: Entity, e: int, item: Entity, k: int)
    requires
        reaches_for(s.world, e, item),
        alive(s.world, item),
        e < k <= s.world.len(),
        forall|j: int| e < j < s.world.len() ==> !#[trigger] reaches_for(s.world, j, item),
    ensures
        pick_ups(s, k, player).world[item.id as int].position.is_none(),
        pick_ups(s, k, player).world[item.id as int].in_backpack == Some(
            InBackpack { owner: s.world[e].wants_to_pickup_item.unwrap().collected_by },
        ),
    decreases k,
{
    lemma_pick_ups_keep(s, k - 1, player);
    let before = pick_ups(s, k - 1, player);
    assert(before.world[k - 1] == (EntityData {
        position: before.world[k - 1].position,
        in_backpack: before.world[k - 1].in_backpack,
        ..s.world[k - 1]
    }));
    assert(before.world[item.id as int] == (EntityData {
        position: before.world[item.id as int].position,
        in_backpack: before.world[item.id as int].in_backpack,
        ..s.world[item.id as int]
    }));
    if k - 1 > e {
        lemma_picked_up(s, player, e, item, k - 1);
        assert(!reaches_for(s.world, k - 1, item));
    }
}

/// Pickup puts the item away: where `e` holds the intent to pick up `item`,
/// the item lives, and no entity behind `e` reaches for the same item, the
/// pickup pass leaves the item without a position and in the backpack of
/// the collector that the intent names.
pub proof fn lemma_pickup_stows(s: Sim, player: Entity, e: int, item: Entity)
    requires
        reaches_for(s.world, e, item),
        alive(s.world, item),
        forall|j: int| e < j < s.world.len() ==> !#[trigger] reaches_for(s.world, j, item),
    ensures
        alive(pickup_result(s, player).world, item),
        pickup_result(s, player).world[item.id as int].position.is_none(),
        pickup_result(s, player).world[item.id as int].in_backpack == Some(
            InBackpack { owner: s.world[e].wants_to_pickup_item.unwrap().collected_by },
        ),
{
    lemma_picked_up(s, player, e, item, s.world.len() as int);
    lemma_pick_ups_keep(s, s.world.len() as int, player);
    let done = pick_ups(s, s.world.len() as int, player);
    assert(done.world[item.id as int] == (EntityData {
        position: done.world[item.id as int].position,
        in_backpack: done.world[item.id as int].in_backpack,
        ..s.world[item.id as int]
    }));
}

pub struct Inventory {}

impl Inventory {
    /// Resolves the pickup intents by ascending id of their holder, and
    /// clears them all.
    pub fn run(&mut self, world: &mut World, log: &mut GameLog, player: Entity)
        ensures
            (Sim { world: final(world)@, log: final(log)@ }) == pickup_result(
                Sim { world: old(world)@, log: old(log)@ },
                player,
            ),
    {
        let ghost start = Sim { world: old(world)@, log: old(log)@ };
        let n = world.slots.len();
        let mut i: usize = 0;
        while i < n
            invariant
                n == start.world.len(),
                i <= n,
                (Sim { world: world@, log: log@ }) == pick_ups(start, i as int, player),
            decreases n - i,
        {
            proof {
                lemma_pick_ups_keep(start, i as int, player);
            }
            if world.slots[i].live {
                if let Some(intent) = world.slots[i].wants_to_pickup_item {
                    let item = intent.item;
                    if item.id < n && world.slots[item.id].live {
                        if intent.collected_by == player {
                            let name = label(&world.slots[item.id]);
                            log.push(LogEntry::PickedUp { item: name });
                        }
                        world.slots[item.id].position = None;
                        world.slots[item.id].in_backpack = Some(
                            InBackpack { owner: intent.collected_by },
                        );
                    }
                }
            }
            proof {
                let next = pick_ups(start, i + 1, player);
                assert(world@ =~= next.world);
                assert(log@ =~= next.log);
            }
            i += 1;
        }
        let ghost done = world@;
        let mut j: usize = 0;
        proof {
            lemma_pick_ups_keep(start, n as int, player);
        }
        while j < n
            invariant
                n == world@.len(),
                n == done.len(),
                j <= n,
                forall|c: int| 0 <= c < j ==> #[trigger] world@[c] == sated(done[c]),
                forall|c: int| j <= c < n ==> #[trigger] world@[c] == done[c],
            decreases n - j,
        {
            world.slots[j].wants_to_pickup_item = None;
            j += 1;
        }
        assert(world@ =~= done.map_values(|d: EntityData| sated(d)));
    }
}

/// Pickup intents are one-shot: the pickup pass leaves none.
pub proof fn lemma_pickup_clears_intents(s: Sim, player: Entity, j: int)
    requires
        0 <= j < s.world.len(),
    ensures
        pickup_result(s, player).world.len() == s.world.len(),
        pickup_result(s, player).world[j].wants_to_pickup_item.is_none(),
{
    lemma_pick_ups_keep(s, s.world.len() as int, player);
}

proof fn lemma_pick_ups_place_once(s: Sim, player: Entity, k: int)
    requires
        forall|j: int| 0 <= j < s.world.len() ==> placed_once(#[trigger] s.world[j]),
    ensures
        forall|j: int| 0 <= j < s.world.len() ==> placed_once(#[trigger] pick_ups(s, k, player).world[j]),
    decreases k,
{
    lemma_pick_ups_keep(s, k, player);
    if k > 0 {
        lemma_pick_ups_keep(s, k - 1, player);
        lemma_pick_ups_place_once(s, player, k - 1);
    }
}

/// The pickup pass keeps every entity placed at most once: what is on the
/// map is in no backpack, and what is in a backpack is not on the map.
pub proof fn lemma_pickup_places_once(s: Sim, player: Entity)
    requires
        forall|j: int| 0 <= j < s.world.len() ==> placed_once(#[trigger] s.world[j]),
    ensures
        forall|j: int|
            0 <= j < s.world.len() ==> placed_once(#[trigger] pickup_result(s, player).world[j]),
{
    lemma_pick_ups_keep(s, s.world.len() as int, player);
    lemma_pick_ups_place_once(s, player, s.world.len() as int);
    assert forall|j: int| 0 <= j < s.world.len() implies placed_once(
        #[trigger] pickup_result(s, player).world[j],
    ) by {
        assert(placed_once(pick_ups(s, s.world.len() as int, player).world[j]));
    }
}

} // verus!
