//! Damage and death: pending damage is taken off the hit points, and the
//! creatures it killed leave the world.

use vstd::prelude::*;
use crate::components::{clamp_i32, saturating_sub, CombatStats, Entity};
use crate::gamelog::{GameLog, LogEntry};
use crate::world::{alive, EntityData, Slots, World};

verus! {

/// A record after its pending damage was applied: the hit points of a live
/// creature go down by the amount, held at the ends of `i32`, and the
/// pending damage is gone.
pub open spec fn wounded(d: EntityData) -> EntityData {
    if d.live && d.combat_stats.is_some() && d.suffer_damage.is_some() {
        let s = d.combat_stats.unwrap();
        EntityData {
            combat_stats: Some(
                CombatStats { hp: clamp_i32(s.hp - d.suffer_damage.unwrap().amount) as i32, ..s },
            ),
            suffer_damage: None,
            ..d
        }
    } else {
        EntityData { suffer_damage: None, ..d }
    }
}

/// Is this the record of a creature that the death sweep removes?
pub open spec fn doomed(d: EntityData) -> bool {
    d.live && d.combat_stats.is_some() && d.combat_stats.unwrap().hp < 1 && d.player.is_none()
}

/// A record after the death sweep.
pub open spec fn buried(d: EntityData) -> EntityData {
    if doomed(d) {
        EntityData { live: false, ..d }
    } else {
        d
    }
}

/// The death notices of the entities with an id below `k`: one for each
/// creature that the sweep removes and that has a name, by ascending id.
pub open spec fn obituaries(w: Slots, k: int) -> Seq<LogEntry>
    decreases k,
{
    if k <= 0 {
        Seq::empty()
    } else if k <= w.len() && doomed(w[k - 1]) && w[k - 1].name.is_some() {
        obituaries(w, k - 1).push(LogEntry::Dead { name: w[k - 1].name.unwrap().name })
    } else {
        obituaries(w, k - 1)
    }
}

pub struct Damage {}

impl Damage {
    /// Applies the pending damage of every entity and clears it.
    pub fn run(&mut self, world: &mut World)
        ensures
            final(world)@ == old(world)@.map_values(|d: EntityData| wounded(d)),
    {
        let n = world.slots.len();
        let mut i: usize = 0;
        while i < n
            invariant
                n == world@.len(),
                n == old(world)@.len(),
                i <= n,
                forall|j: int| 0 <= j < i ==> world@[j] == wounded(old(world)@[j]),
                forall|j: int| i <= j < n ==> world@[j] == old(world)@[j],
            decreases n - i,
        {
            if world.slots[i].live {
                if let Some(s) = world.slots[i].combat_stats {
                    if let Some(dmg) = world.slots[i].suffer_damage {
                        world.slots[i].combat_stats = Some(
                            CombatStats {
                                max_hp: s.max_hp,
                                hp: saturating_sub(s.hp, dmg.amount),
                                defense: s.defense,
                                power: s.power,
                            },
                        );
                    }
                }
            }
            world.slots[i].suffer_damage = None;
            i += 1;
        }
        assert(world@ =~= old(world)@.map_values(|d: EntityData| wounded(d)));
    }
}

/// The death sweep: deletes every live entity that has hit points below 1 and
/// is no player, and logs the death of those that have a name. A player
/// stays, whatever their hit points.
pub fn delete_the_dead(world: &mut World, log: &mut GameLog)
    ensures
        final(world)@ == old(world)@.map_values(|d: EntityData| buried(d)),
        final(log)@ == old(log)@ + obituaries(old(world)@, old(world)@.len() as int),
{
    let n = world.slots.len();
    let mut i: usize = 0;
    assert(log@ =~= old(log)@ + obituaries(old(world)@, 0));
    while i < n
        invariant
            n == world@.len(),
            n == old(world)@.len(),
            i <= n,
            forall|j: int| 0 <= j < i ==> world@[j] == buried(old(world)@[j]),
            forall|j: int| i <= j < n ==> world@[j] == old(world)@[j],
            log@ == old(log)@ + obituaries(old(world)@, i as int),
        decreases n - i,
    {
        let mut dead = false;
        if world.slots[i].live && world.slots[i].player.is_none() {
            if let Some(s) = world.slots[i].combat_stats {
                dead = s.hp < 1;
            }
        }
        if dead {
            match &world.slots[i].name {
                Some(n) => {
                    log.push(LogEntry::Dead { name: n.name.clone() });
                },
                None => {},
            }
            world.slots[i].live = false;
        }
        assert(log@ =~= old(log)@ + obituaries(old(world)@, i + 1));
        i += 1;
    }
    assert(world@ =~= old(world)@.map_values(|d: EntityData| buried(d)));
}

/// After the damage pass and the death sweep that follows it, no creature
/// that queries see has hit points below 1, unless it is a player; and
/// every player that lived before both still lives.
pub proof fn lemma_dead_are_gone(w: Slots, e: Entity)
    ensures
        ({
            let after = w.map_values(|d: EntityData| wounded(d)).map_values(|d: EntityData| buried(d));
            &&& after.len() == w.len()
            &&& alive(after, e) && after[e.id as int].combat_stats.is_some() && after[e.id as int].player.is_none()
                ==> after[e.id as int].combat_stats.unwrap().hp >= 1
            &&& alive(w, e) && w[e.id as int].player.is_some() ==> alive(after, e)
        }),
{
}

/// The death sweep removes a creature without hit points that is no player,
/// and leaves a player as it is.
pub proof fn lemma_sweep(w: Slots, e: Entity)
    requires
        alive(w, e),
    ensures
        ({
            let after = w.map_values(|d: EntityData| buried(d));
            &&& doomed(w[e.id as int]) ==> !alive(after, e)
            &&& w[e.id as int].player.is_some() ==> alive(after, e) && after[e.id as int] == w[e.id as int]
        }),
{
}

/// Pending damage does not outlast the damage pass.
pub proof fn lemma_damage_is_consumed(w: Slots, j: int)
    requires
        0 <= j < w.len(),
    ensures
        w.map_values(|d: EntityData| wounded(d))[j].suffer_damage.is_none(),
{
}

} // verus!
