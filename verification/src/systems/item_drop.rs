//! Dropping: an item leaves a backpack and lies where its bearer stands.

use vstd::prelude::*;
use crate::components::Entity;
use crate::world::{alive, placed_once, EntityData, Slots, World};

verus! {

/// Does entity `i` drop something this tick? It does where it lives, wants
/// to, stands somewhere, and the item it names lives.
pub open spec fn drops(w: Slots, i: int) -> bool {
    &&& 0 <= i < w.len()
    &&& w[i].live
    &&& w[i].wants_to_drop_item.is_some()
    &&& w[i].position.is_some()
    &&& alive(w, w[i].wants_to_drop_item.unwrap().item)
}

/// The drop of entity `i`: the item leaves its backpack and gets the
/// position of `i`.
pub open spec fn put_down(w: Slots, i: int) -> Slots {
    if !drops(w, i) {
        w
    } else {
        let item = w[i].wants_to_drop_item.unwrap().item;
        w.update(
            item.id as int,
            EntityData { position: w[i].position, in_backpack: None, ..w[item.id as int] },
        )
    }
}

/// The drops of the entities with an id below `k`, by ascending id.
pub open spec fn put_downs(w: Slots, k: int) -> Slots
    decreases k,
{
    if k <= 0 {
        w
    } else {
        put_down(put_downs(w, k - 1), k - 1)
    }
}

/// A record without its drop intent.
pub open spec fn unburdened(d: EntityData) -> EntityData {
    EntityData { wants_to_drop_item: None, ..d }
}

/// What the drop pass makes of the entities.
pub open spec fn drop_result(w: Slots) -> Slots {
    put_downs(w, w.len() as int).map_values(|d: EntityData| unburdened(d))
}

/// The drops change no record but in its position and its backpack.
pub proof fn lemma_put_downs_keep(w: Slots, k: int)
    ensures
        put_downs(w, k).len() == w.len(),
        forall|j: int|
            0 <= j < w.len() ==> (#[trigger] put_downs(w, k)[j]) == (EntityData {
                position: put_downs(w, k)[j].position,
                in_backpack: put_downs(w, k)[j].in_backpack,
                ..w[j]
            }),
    decreases k,
{
    if k > 0 {
        lemma_put_downs_keep(w, k - 1);
    }
}

/// Does entity `j` hold the intent to drop `item`?
pub open spec fn lets_go(w: Slots, j: int, item: Entity) -> bool {
    0 <= j < w.len() && w[j].live && w[j].wants_to_drop_item.is_some()
        && w[j].wants_to_drop_item.unwrap().item == item
}

proof fn lemma_dropped(w: Slots, e: int, item: Entity, k: int)
    requires
        lets_go(w, e, item),
        put_downs(w, e)[e].position.is_some(),
        alive(w, item),
        e < k <= w.len(),
        forall|j: int| e < j < w.len() ==> !#[trigger] lets_go(w, j, item),
    ensures
        put_downs(w, k)[item.id as int].position == put_downs(w, e)[e].position,
        put_downs(w, k)[item.id as int].in_backpack.is_none(),
    decreases k,
{
    lemma_put_downs_keep(w, k - 1);
    let before = put_downs(w, k - 1);
    assert(before[k - 1] == (EntityData {
        position: before[k - 1].position,
        in_backpack: before[k - 1].in_backpack,
        ..w[k - 1]
    }));
    assert(before[item.id as int] == (EntityData {
        position: before[item.id as int].position,
        in_backpack: before[item.id as int].in_backpack,
        ..w[item.id as int]
    }));
    if k - 1 > e {
        lemma_dropped(w, e, item, k - 1);
        assert(!lets_go(w, k - 1, item));
    }
}

/// Dropping puts the item down: where `e` holds the intent to drop `item`
/// and stands somewhere when its turn comes, the item lives, and no entity
/// behind `e` drops the same item, the drop pass leaves the item outside
/// any backpack, at the position that `e` has when its turn comes.
pub proof fn lemma_drop_places(w: Slots, e: int, item: Entity)
    requires
        lets_go(w, e, item),
        put_downs(w, e)[e].position.is_some(),
        alive(w, item),
        forall|j: int| e < j < w.len() ==> !#[trigger] lets_go(w, j, item),
    ensures
        alive(drop_result(w), item),
        drop_result(w)[item.id as int].position == put_downs(w, e)[e].position,
        drop_result(w)[item.id as int].in_backpack.is_none(),
{
    lemma_dropped(w, e, item, w.len() as int);
    lemma_put_downs_keep(w, w.len() as int);
    let done = put_downs(w, w.len() as int);
    assert(done[item.id as int] == (EntityData {
        position: done[item.id as int].position,
        in_backpack: done[item.id as int].in_backpack,
        ..w[item.id as int]
    }));
}

/// Nobody moves before the first drop: an entity that no entity before it
/// drops has, when its turn comes, the position it had at the start.
pub proof fn lemma_position_until_turn(w: Slots, e: int, k: int)
    requires
        0 <= e < w.len(),
        0 <= k <= e,
        forall|j: int| 0 <= j < e ==> !#[trigger] lets_go(w, j, Entity { id: e as usize }),
    ensures
        put_downs(w, k)[e].position == w[e].position,
    decreases k,
{
    if k > 0 {
        lemma_put_downs_keep(w, k - 1);
        lemma_position_until_turn(w, e, k - 1);
        let before = put_downs(w, k - 1);
        assert(before[k - 1] == (EntityData {
            position: before[k - 1].position,
            in_backpack: before[k - 1].in_backpack,
            ..w[k - 1]
        }));
        assert(!lets_go(w, k - 1, Entity { id: e as usize }));
    }
}

/// Drop intents are one-shot: the drop pass leaves none.
pub proof fn lemma_drop_clears_intents(w: Slots, j: int)
    requires
        0 <= j < w.len(),
    ensures
        drop_result(w).len() == w.len(),
        drop_result(w)[j].wants_to_drop_item.is_none(),
{
    lemma_put_downs_keep(w, w.len() as int);
}

proof fn lemma_put_downs_place_once(w: Slots, k: int)
    requires
        forall|j: int| 0 <= j < w.len() ==> placed_once(#[trigger] w[j]),
    ensures
        forall|j: int| 0 <= j < w.len() ==> placed_once(#[trigger] put_downs(w, k)[j]),
    decreases k,
{
    lemma_put_downs_keep(w, k);
    if k > 0 {
        lemma_put_downs_keep(w, k - 1);
        lemma_put_downs_place_once(w, k - 1);
    }
}

/// The drop pass keeps every entity placed at most once.
pub proof fn lemma_drop_places_once(w: Slots)
    requires
        forall|j: int| 0 <= j < w.len() ==> placed_once(#[trigger] w[j]),
    ensures
        forall|j: int| 0 <= j < w.len() ==> placed_once(#[trigger] drop_result(w)[j]),
{
    lemma_put_downs_keep(w, w.len() as int);
    lemma_put_downs_place_once(w, w.len() as int);
    assert forall|j: int| 0 <= j < w.len() implies placed_once(#[trigger] drop_result(w)[j]) by {
        assert(placed_once(put_downs(w, w.len() as int)[j]));
    }
}

pub struct ItemDrop {}

impl ItemDrop {
    /// Resolves the drop intents by ascending id of their holder, and clears
    /// them all.
    pub fn run(&mut self, world: &mut World)
        ensures
            final(world)@ == drop_result(old(world)@),
    {
        let ghost start = old(world)@;
        let n = world.slots.len();
        let mut i: usize = 0;
        while i < n
            invariant
                n == start.len(),
                i <= n,
                world@ == put_downs(start, i as int),
            decreases n - i,
        {
            proof {
                lemma_put_downs_keep(start, i as int);
            }
            if world.slots[i].live {
                if let Some(intent) = world.slots[i].wants_to_drop_item {
                    if let Some(here) = world.slots[i].position {
                        let item = intent.item;
                        if item.id < n && world.slots[item.id].live {
                            world.slots[item.id].position = Some(here);
                            world.slots[item.id].in_backpack = None;
                        }
                    }
                }
            }
            assert(world@ =~= put_downs(start, i + 1));
            i += 1;
        }
        let ghost done = world@;
        let mut j: usize = 0;
        proof {
            lemma_put_downs_keep(start, n as int);
        }
        while j < n
            invariant
                n == world@.len(),
                n == done.len(),
                j <= n,
                forall|c: int| 0 <= c < j ==> #[trigger] world@[c] == unburdened(done[c]),
                forall|c: int| j <= c < n ==> #[trigger] world@[c] == done[c],
            decreases n - j,
        {
            world.slots[j].wants_to_drop_item = None;
            j += 1;
        }
        assert(world@ =~= done.map_values(|d: EntityData| unburdened(d)));
    }
}

} // verus!
