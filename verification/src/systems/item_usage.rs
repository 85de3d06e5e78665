//! Using items: whom a use reaches, and what it does to them.

use vstd::prelude::*;
use crate::components::{
    clamp_i32, saturating_add, CombatStats, Confusion, Entity, Position, SufferDamage,
    WantsToUseItem,
};
use crate::gamelog::{GameLog, LogEntry};
use crate::map::TileMap;
use crate::systems::melee_combat::pending;
use crate::world::{alive, fighter_among, first_fighter, seen, EntityData, Sim, Slots, World};

verus! {

/// The occupant list of the cell `p`; empty for a cell off the map.
pub open spec fn occupants_at(map: &TileMap, p: Position) -> Seq<Entity> {
    match map.cell_index(p) {
        Some(idx) => map.tile_content@[idx]@,
        None => Seq::empty(),
    }
}

/// The occupant lists of the first `k` of `cells`, one after the other.
pub open spec fn gathered(map: &TileMap, cells: Seq<Position>, k: int) -> Seq<Entity>
    decreases k,
{
    if k <= 0 {
        Seq::empty()
    } else {
        gathered(map, cells, k - 1) + occupants_at(map, cells[k - 1])
    }
}

/// Whom a use reaches. Without a target cell: the user. With a target cell
/// and an item without area of effect: the first occupant of that cell that
/// lives and has combat stats. With a target cell and an item with an area
/// of effect: the occupants of every cell in the field of view from the
/// target cell within the radius.
pub open spec fn targets_of(map: &TileMap, w: Slots, user: Entity, intent: WantsToUseItem) -> Seq<
    Entity,
> {
    match intent.target {
        None => seq![user],
        Some(at) => match seen(w, intent.item).area_of_effect {
            None => first_fighter(w, occupants_at(map, at)),
            Some(blast) => {
                let cells = map.view_from(at, blast.radius as int);
                gathered(map, cells, cells.len() as int)
            },
        },
    }
}

/// Healing of one target: a live target with combat stats gains `amount`
/// hit points, up to its maximum.
pub open spec fn heal(s: Sim, t: Entity, amount: i32, item: Option<String>, announce: bool) -> Sim {
    if alive(s.world, t) && s.world[t.id as int].combat_stats.is_some() {
        let d = s.world[t.id as int];
        let stats = d.combat_stats.unwrap();
        let up = clamp_i32(stats.hp + amount);
        let hp = if stats.max_hp <= up {
            stats.max_hp
        } else {
            up as i32
        };
        Sim {
            world: s.world.update(
                t.id as int,
                EntityData { combat_stats: Some(CombatStats { hp, ..stats }), ..d },
            ),
            log: if announce {
                s.log.push(LogEntry::Healed { item, amount })
            } else {
                s.log
            },
        }
    } else {
        s
    }
}

pub open spec fn heal_all(
    s: Sim,
    targets: Seq<Entity>,
    k: int,
    amount: i32,
    item: Option<String>,
    announce: bool,
) -> Sim
    decreases k,
{
    if k <= 0 {
        s
    } else {
        heal(heal_all(s, targets, k - 1, amount, item, announce), targets[k - 1], amount, item, announce)
    }
}

/// Damage to one target: a live target has `damage` more pending.
pub open spec fn hurt(s: Sim, t: Entity, damage: i32, item: Option<String>, announce: bool) -> Sim {
    if alive(s.world, t) {
        let d = s.world[t.id as int];
        Sim {
            world: s.world.update(
                t.id as int,
                EntityData {
                    suffer_damage: Some(SufferDamage { amount: clamp_i32(pending(d) + damage) as i32 }),
                    ..d
                },
            ),
            log: if announce {
                s.log.push(LogEntry::Hurt { item, target: d.label(), damage })
            } else {
                s.log
            },
        }
    } else {
        s
    }
}

pub open spec fn hurt_all(
    s: Sim,
    targets: Seq<Entity>,
    k: int,
    damage: i32,
    item: Option<String>,
    announce: bool,
) -> Sim
    decreases k,
{
    if k <= 0 {
        s
    } else {
        hurt(hurt_all(s, targets, k - 1, damage, item, announce), targets[k - 1], damage, item, announce)
    }
}

/// Confusion of one target: a live target is confused for `turns` turns,
/// whatever it was before.
pub open spec fn confuse(s: Sim, t: Entity, turns: i32, item: Option<String>, announce: bool) -> Sim {
    if alive(s.world, t) {
        let d = s.world[t.id as int];
        Sim {
            world: s.world.update(t.id as int, EntityData { confusion: Some(Confusion { turns }), ..d }),
            log: if announce {
                s.log.push(LogEntry::Confused { item, target: d.label(), turns })
            } else {
                s.log
            },
        }
    } else {
        s
    }
}

pub open spec fn confuse_all(
    s: Sim,
    targets: Seq<Entity>,
    k: int,
    turns: i32,
    item: Option<String>,
    announce: bool,
) -> Sim
    decreases k,
{
    if k <= 0 {
        s
    } else {
        confuse(
            confuse_all(s, targets, k - 1, turns, item, announce),
            targets[k - 1],
            turns,
            item,
            announce,
        )
    }
}

/// The world once `item` is used up: a live item that is consumable is deleted.
pub open spec fn consumed(w: Slots, item: Entity) -> Slots {
    if alive(w, item) && w[item.id as int].consumable.is_some() {
        w.update(item.id as int, EntityData { live: false, ..w[item.id as int] })
    } else {
        w
    }
}

/// Does entity `i` use an item this tick?
pub open spec fn uses(w: Slots, i: int) -> bool {
    0 <= i < w.len() && w[i].live && w[i].wants_to_use_item.is_some()
}

/// The use of entity `i`. What the item does is read off the item before any
/// of it is done: it heals, then hurts, then confuses each of its targets, as
/// far as it has the component for it, and is then used up. The effects are
/// logged where `i` is `player`.
pub open spec fn use_item(s: Sim, map: &TileMap, i: int, player: Entity) -> Sim {
    if !uses(s.world, i) {
        s
    } else {
        let intent = s.world[i].wants_to_use_item.unwrap();
        let item = seen(s.world, intent.item);
        let targets = targets_of(map, s.world, Entity { id: i as usize }, intent);
        let announce = player.id == i;
        let s1 = match item.provides_healing {
            Some(h) => heal_all(s, targets, targets.len() as int, h.heal_amount, item.label(), announce),
            None => s,
        };
        let s2 = match item.inflicts_damage {
            Some(h) => hurt_all(s1, targets, targets.len() as int, h.damage, item.label(), announce),
            None => s1,
        };
        let s3 = match item.confusion {
            Some(c) => confuse_all(s2, targets, targets.len() as int, c.turns, item.label(), announce),
            None => s2,
        };
        Sim { world: consumed(s3.world, intent.item), log: s3.log }
    }
}

/// The uses of the entities with an id below `k`, by ascending id.
pub open spec fn use_items(s: Sim, map: &TileMap, k: int, player: Entity) -> Sim
    decreases k,
{
    if k <= 0 {
        s
    } else {
        use_item(use_items(s, map, k - 1, player), map, k - 1, player)
    }
}

/// A record without its use intent.
pub open spec fn spent(d: EntityData) -> EntityData {
    EntityData { wants_to_use_item: None, ..d }
}

/// What the item pass makes of the entities and the log.
pub open spec fn usage_result(s: Sim, map: &TileMap, player: Entity) -> Sim {
    let done = use_items(s, map, s.world.len() as int, player);
    Sim { world: done.world.map_values(|d: EntityData| spent(d)), log: done.log }
}

fn copy_label(name: &Option<String>) -> (r: Option<String>)
    ensures
        r == *name,
{
    match name {
        Some(n) => Some(n.clone()),
        None => None,
    }
}

/// The occupant lists of `cells`, one after the other.
pub fn gather(map: &TileMap, cells: &Vec<Position>) -> (found: Vec<Entity>)
    requires
        map.wf(),
    ensures
        found@ == gathered(map, cells@, cells@.len() as int),
{
    let mut found: Vec<Entity> = Vec::new();
    let mut k: usize = 0;
    assert(found@ =~= gathered(map, cells@, 0));
    while k < cells.len()
        invariant
            map.wf(),
            k <= cells@.len(),
            found@ == gathered(map, cells@, k as int),
        decreases cells@.len() - k,
    {
        let cell = cells[k];
        if map.is_inside_map(cell.x, cell.y) {
            let idx = map.xy_idx(cell.x, cell.y);
            let ghost so_far = found@;
            let mut j: usize = 0;
            while j < map.tile_content[idx].len()
                invariant
                    idx < map.tile_content@.len(),
                    j <= map.tile_content@[idx as int]@.len(),
                    found@ == so_far + map.tile_content@[idx as int]@.subrange(0, j as int),
                decreases map.tile_content@[idx as int]@.len() - j,
            {
                found.push(map.tile_content[idx][j]);
                j += 1;
            }
            assert(map.tile_content@[idx as int]@.subrange(0, j as int) =~= map.tile_content@[idx as int]@);
        } else {
            assert(found@ =~= found@ + occupants_at(map, cell));
        }
        k += 1;
    }
    found
}

/// Whom the use `intent` of `user` reaches.
pub fn get_targets(map: &TileMap, world: &World, user: Entity, intent: &WantsToUseItem) -> (targets:
    Vec<Entity>)
    requires
        map.wf(),
    ensures
        targets@ == targets_of(map, world@, user, *intent),
        intent.target.is_none() ==> targets@ == seq![user],
        intent.target.is_some() && seen(world@, intent.item).area_of_effect.is_none()
            ==> targets@.len() <= 1,
{
    let mut targets: Vec<Entity> = Vec::new();
    match intent.target {
        None => {
            targets.push(user);
        },
        Some(at) => {
            let mut blast: Option<i32> = None;
            if world.is_alive(intent.item) {
                if let Some(a) = world.slots[intent.item.id].area_of_effect {
                    blast = Some(a.radius);
                }
            }
            match blast {
                None => {
                    if map.is_inside_map(at.x, at.y) {
                        let idx = map.xy_idx(at.x, at.y);
                        if let Some(t) = world.first_fighter(&map.tile_content[idx]) {
                            targets.push(t);
                        }
                    } else {
                        assert(fighter_among(world@, Seq::<Entity>::empty(), 0).is_none());
                    }
                },
                Some(radius) => {
                    let cells = map.visible_from(at, radius);
                    targets = gather(map, &cells);
                },
            }
        },
    }
    targets
}

/// Heals each of `targets` in turn.
pub fn apply_healing(
    world: &mut World,
    log: &mut GameLog,
    targets: &Vec<Entity>,
    amount: i32,
    item: &Option<String>,
    announce: bool,
)
    ensures
        (Sim { world: final(world)@, log: final(log)@ }) == heal_all(
            Sim { world: old(world)@, log: old(log)@ },
            targets@,
            targets@.len() as int,
            amount,
            *item,
            announce,
        ),
{
    let ghost start = Sim { world: old(world)@, log: old(log)@ };
    let mut k: usize = 0;
    while k < targets.len()
        invariant
            k <= targets@.len(),
            (Sim { world: world@, log: log@ }) == heal_all(start, targets@, k as int, amount, *item, announce),
        decreases targets@.len() - k,
    {
        let t = targets[k];
        if world.is_alive(t) {
            if let Some(stats) = world.slots[t.id].combat_stats {
                let up = saturating_add(stats.hp, amount);
                let hp = if stats.max_hp <= up {
                    stats.max_hp
                } else {
                    up
                };
                world.slots[t.id].combat_stats = Some(
                    CombatStats { max_hp: stats.max_hp, hp, defense: stats.defense, power: stats.power },
                );
                if announce {
                    log.push(LogEntry::Healed { item: copy_label(item), amount });
                }
            }
        }
        proof {
            let next = heal_all(start, targets@, k + 1, amount, *item, announce);
            assert(world@ =~= next.world);
            assert(log@ =~= next.log);
        }
        k += 1;
    }
}

/// Adds `damage` to what each of `targets` has pending, in turn.
pub fn apply_damage(
    world: &mut World,
    log: &mut GameLog,
    targets: &Vec<Entity>,
    damage: i32,
    item: &Option<String>,
    announce: bool,
)
    ensures
        (Sim { world: final(world)@, log: final(log)@ }) == hurt_all(
            Sim { world: old(world)@, log: old(log)@ },
            targets@,
            targets@.len() as int,
            damage,
            *item,
            announce,
        ),
{
    let ghost start = Sim { world: old(world)@, log: old(log)@ };
    let mut k: usize = 0;
    while k < targets.len()
        invariant
            k <= targets@.len(),
            (Sim { world: world@, log: log@ }) == hurt_all(start, targets@, k as int, damage, *item, announce),
        decreases targets@.len() - k,
    {
        let t = targets[k];
        if world.is_alive(t) {
            let before = match world.slots[t.id].suffer_damage {
                Some(s) => s.amount,
                None => 0,
            };
            if announce {
                let target = crate::world::label(&world.slots[t.id]);
                log.push(LogEntry::Hurt { item: copy_label(item), target, damage });
            }
            world.slots[t.id].suffer_damage = Some(
                SufferDamage { amount: saturating_add(before, damage) },
            );
        }
        proof {
            let next = hurt_all(start, targets@, k + 1, damage, *item, announce);
            assert(world@ =~= next.world);
            assert(log@ =~= next.log);
        }
        k += 1;
    }
}

/// Confuses each of `targets` in turn.
pub fn apply_confusion(
    world: &mut World,
    log: &mut GameLog,
    targets: &Vec<Entity>,
    turns: i32,
    item: &Option<String>,
    announce: bool,
)
    ensures
        (Sim { world: final(world)@, log: final(log)@ }) == confuse_all(
            Sim { world: old(world)@, log: old(log)@ },
            targets@,
            targets@.len() as int,
            turns,
            *item,
            announce,
        ),
{
    let ghost start = Sim { world: old(world)@, log: old(log)@ };
    let mut k: usize = 0;
    while k < targets.len()
        invariant
            k <= targets@.len(),
            (Sim { world: world@, log: log@ }) == confuse_all(
                start,
                targets@,
                k as int,
                turns,
                *item,
                announce,
            ),
        decreases targets@.len() - k,
    {
        let t = targets[k];
        if world.is_alive(t) {
            if announce {
                let target = crate::world::label(&world.slots[t.id]);
                log.push(LogEntry::Confused { item: copy_label(item), target, turns });
            }
            world.slots[t.id].confusion = Some(Confusion { turns });
        }
        proof {
            let next = confuse_all(start, targets@, k + 1, turns, *item, announce);
            assert(world@ =~= next.world);
            assert(log@ =~= next.log);
        }
        k += 1;
    }
}

/// Deletes `item` if it lives and is consumable.
pub fn clear_consumables(world: &mut World, item: Entity)
    ensures
        final(world)@ == consumed(old(world)@, item),
{
    if world.is_alive(item) && world.slots[item.id].consumable.is_some() {
        world.delete(item);
    }
}

pub struct ItemUsage {}

impl ItemUsage {
    /// Resolves the use intents by ascending id of the user, and clears them all.
    pub fn run(&mut self, world: &mut World, log: &mut GameLog, map: &TileMap, player: Entity)
        requires
            map.wf(),
        ensures
            (Sim { world: final(world)@, log: final(log)@ }) == usage_result(
                Sim { world: old(world)@, log: old(log)@ },
                map,
                player,
            ),
    {
        let ghost start = Sim { world: old(world)@, log: old(log)@ };
        let n = world.slots.len();
        let mut i: usize = 0;
        while i < n
            invariant
                map.wf(),
                n == world@.len(),
                i <= n,
                (Sim { world: world@, log: log@ }) == use_items(start, map, i as int, player),
            decreases n - i,
        {
            let ghost here = Sim { world: world@, log: log@ };
            if world.slots[i].live {
                if let Some(intent) = world.slots[i].wants_to_use_item {
                    let user = Entity { id: i };
                    let announce = player.id == i;
                    let targets = get_targets(map, world, user, &intent);
                    let mut name: Option<String> = None;
                    let mut healing: Option<i32> = None;
                    let mut damage: Option<i32> = None;
                    let mut turns: Option<i32> = None;
                    if world.is_alive(intent.item) {
                        name = crate::world::label(&world.slots[intent.item.id]);
                        if let Some(h) = world.slots[intent.item.id].provides_healing {
                            healing = Some(h.heal_amount);
                        }
                        if let Some(d) = world.slots[intent.item.id].inflicts_damage {
                            damage = Some(d.damage);
                        }
                        if let Some(c) = world.slots[intent.item.id].confusion {
                            turns = Some(c.turns);
                        }
                    }
                    if let Some(amount) = healing {
                        apply_healing(world, log, &targets, amount, &name, announce);
                    }
                    proof {
                        lemma_heal_all_keeps(here, targets@, targets@.len() as int, healing.unwrap_or(0), name, announce);
                    }
                    let ghost s1 = Sim { world: world@, log: log@ };
                    if let Some(amount) = damage {
                        apply_damage(world, log, &targets, amount, &name, announce);
                    }
                    proof {
                        lemma_hurt_all_keeps(s1, targets@, targets@.len() as int, damage.unwrap_or(0), name, announce);
                    }
                    let ghost s2 = Sim { world: world@, log: log@ };
                    if let Some(t) = turns {
                        apply_confusion(world, log, &targets, t, &name, announce);
                    }
                    proof {
                        lemma_confuse_all_keeps(s2, targets@, targets@.len() as int, turns.unwrap_or(0), name, announce);
                    }
                    clear_consumables(world, intent.item);
                }
            }
            proof {
                let next = use_items(start, map, i + 1, player);
                assert(world@ =~= next.world);
                assert(log@ =~= next.log);
            }
            i += 1;
        }
        let ghost done = world@;
        let mut j: usize = 0;
        while j < n
            invariant
                n == world@.len(),
                n == done.len(),
                j <= n,
                forall|c: int| 0 <= c < j ==> #[trigger] world@[c] == spent(done[c]),
                forall|c: int| j <= c < n ==> #[trigger] world@[c] == done[c],
            decreases n - j,
        {
            world.slots[j].wants_to_use_item = None;
            j += 1;
        }
        assert(world@ =~= done.map_values(|d: EntityData| spent(d)));
    }
}

/// Healing leaves the number of entities, and who lives, as they are.
pub proof fn lemma_heal_all_keeps(
    s: Sim,
    targets: Seq<Entity>,
    k: int,
    amount: i32,
    item: Option<String>,
    announce: bool,
)
    ensures
        heal_all(s, targets, k, amount, item, announce).world.len() == s.world.len(),
        forall|j: int|
            0 <= j < s.world.len() ==> (#[trigger] heal_all(s, targets, k, amount, item, announce).world[j])
                == (EntityData {
                combat_stats: heal_all(s, targets, k, amount, item, announce).world[j].combat_stats,
                ..s.world[j]
            }),
    decreases k,
{
    if k > 0 {
        lemma_heal_all_keeps(s, targets, k - 1, amount, item, announce);
    }
}

/// Damage leaves the number of entities, and who lives, as they are.
pub proof fn lemma_hurt_all_keeps(
    s: Sim,
    targets: Seq<Entity>,
    k: int,
    damage: i32,
    item: Option<String>,
    announce: bool,
)
    ensures
        hurt_all(s, targets, k, damage, item, announce).world.len() == s.world.len(),
        forall|j: int|
            0 <= j < s.world.len() ==> (#[trigger] hurt_all(s, targets, k, damage, item, announce).world[j])
                == (EntityData {
                suffer_damage: hurt_all(s, targets, k, damage, item, announce).world[j].suffer_damage,
                ..s.world[j]
            }),
    decreases k,
{
    if k > 0 {
        lemma_hurt_all_keeps(s, targets, k - 1, damage, item, announce);
    }
}

/// Confusion leaves the number of entities, and who lives, as they are.
pub proof fn lemma_confuse_all_keeps(
    s: Sim,
    targets: Seq<Entity>,
    k: int,
    turns: i32,
    item: Option<String>,
    announce: bool,
)
    ensures
        confuse_all(s, targets, k, turns, item, announce).world.len() == s.world.len(),
        forall|j: int|
            0 <= j < s.world.len() ==> (#[trigger] confuse_all(s, targets, k, turns, item, announce).world[j])
                == (EntityData {
                confusion: confuse_all(s, targets, k, turns, item, announce).world[j].confusion,
                ..s.world[j]
            }),
    decreases k,
{
    if k > 0 {
        lemma_confuse_all_keeps(s, targets, k - 1, turns, item, announce);
    }
}

/// Whom a use reaches, case by case: the user alone where no cell is aimed
/// at; at most one entity where the item has no area of effect; and else
/// the occupants of the whole field of view around the cell, which walls
/// may cut to any shape.
pub proof fn lemma_targets(map: &TileMap, w: Slots, user: Entity, intent: WantsToUseItem)
    ensures
        intent.target.is_none() ==> targets_of(map, w, user, intent) == seq![user],
        intent.target.is_some() && seen(w, intent.item).area_of_effect.is_none() ==> targets_of(
            map,
            w,
            user,
            intent,
        ).len() <= 1,
        intent.target.is_some() && seen(w, intent.item).area_of_effect.is_some() ==> {
            let cells = map.view_from(
                intent.target.unwrap(),
                seen(w, intent.item).area_of_effect.unwrap().radius as int,
            );
            targets_of(map, w, user, intent) == gathered(map, cells, cells.len() as int)
        },
{
}

/// A use at a cell, of an item without area of effect, reaches the first
/// occupant of the cell, where that occupant lives and has combat stats.
pub proof fn lemma_first_occupant_is_hit(map: &TileMap, w: Slots, user: Entity, intent: WantsToUseItem)
    requires
        intent.target.is_some(),
        seen(w, intent.item).area_of_effect.is_none(),
        occupants_at(map, intent.target.unwrap()).len() > 0,
        alive(w, occupants_at(map, intent.target.unwrap())[0]),
        w[occupants_at(map, intent.target.unwrap())[0].id as int].combat_stats.is_some(),
    ensures
        targets_of(map, w, user, intent) == seq![occupants_at(map, intent.target.unwrap())[0]],
{
}

/// The uses create no entity and remove none from the store.
pub proof fn lemma_use_items_len(s: Sim, map: &TileMap, k: int, player: Entity)
    ensures
        use_items(s, map, k, player).world.len() == s.world.len(),
    decreases k,
{
    if k > 0 {
        lemma_use_items_len(s, map, k - 1, player);
        let before = use_items(s, map, k - 1, player);
        if uses(before.world, k - 1) {
            let intent = before.world[k - 1].wants_to_use_item.unwrap();
            let item = seen(before.world, intent.item);
            let targets = targets_of(map, before.world, Entity { id: (k - 1) as usize }, intent);
            let announce = player.id == k - 1;
            let n = targets.len() as int;
            let s1 = match item.provides_healing {
                Some(h) => heal_all(before, targets, n, h.heal_amount, item.label(), announce),
                None => before,
            };
            if item.provides_healing.is_some() {
                lemma_heal_all_keeps(
                    before,
                    targets,
                    n,
                    item.provides_healing.unwrap().heal_amount,
                    item.label(),
                    announce,
                );
            }
            let s2 = match item.inflicts_damage {
                Some(h) => hurt_all(s1, targets, n, h.damage, item.label(), announce),
                None => s1,
            };
            if item.inflicts_damage.is_some() {
                lemma_hurt_all_keeps(s1, targets, n, item.inflicts_damage.unwrap().damage, item.label(), announce);
            }
            if item.confusion.is_some() {
                lemma_confuse_all_keeps(s2, targets, n, item.confusion.unwrap().turns, item.label(), announce);
            }
        }
    }
}

/// Use intents are one-shot: the item pass leaves none.
pub proof fn lemma_usage_clears_intents(s: Sim, map: &TileMap, player: Entity, j: int)
    requires
        0 <= j < s.world.len(),
    ensures
        usage_result(s, map, player).world.len() == s.world.len(),
        usage_result(s, map, player).world[j].wants_to_use_item.is_none(),
{
    lemma_use_items_len(s, map, s.world.len() as int, player);
}

} // verus!
