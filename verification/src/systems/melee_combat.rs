//! Melee: every attack intent becomes pending damage on its target.

use vstd::prelude::*;
use crate::components::{clamp_i32, saturating_add, SufferDamage};
use crate::gamelog::{GameLog, LogEntry};
use crate::world::{alive, label, EntityData, Sim, Slots, World};

verus! {

/// The damage of a blow of strength `power` against the armour `defense`:
/// their difference where it is positive and fits `i32`, else the nearest
/// of 0 and `i32::MAX`.
pub open spec fn spec_melee_damage(power: int, defense: int) -> int {
    if power <= defense {
        0
    } else {
        clamp_i32(power - defense)
    }
}

pub fn melee_damage(power: i32, defense: i32) -> (damage: i32)
    ensures
        damage == spec_melee_damage(power as int, defense as int),
        damage >= 0,
{
    if power <= defense {
        0
    } else {
        let d: i64 = power as i64 - defense as i64;
        if d > i32::MAX as i64 {
            i32::MAX
        } else {
            d as i32
        }
    }
}

/// The damage that a record has pending.
pub open spec fn pending(d: EntityData) -> int {
    match d.suffer_damage {
        Some(s) => s.amount as int,
        None => 0,
    }
}

/// Does entity `i` strike this tick? It does where it lives, wants to, has
/// hit points above 0, and its target lives and has hit points above 0.
pub open spec fn strikes(w: Slots, i: int) -> bool {
    &&& 0 <= i < w.len()
    &&& w[i].live
    &&& w[i].wants_to_melee.is_some()
    &&& w[i].combat_stats.is_some()
    &&& w[i].combat_stats.unwrap().hp > 0
    &&& alive(w, w[i].wants_to_melee.unwrap().target)
    &&& w[w[i].wants_to_melee.unwrap().target.id as int].combat_stats.is_some()
    &&& w[w[i].wants_to_melee.unwrap().target.id as int].combat_stats.unwrap().hp > 0
}

/// The blow of entity `i`: a blow without damage is logged and changes
/// nothing; any other adds its damage to what the target has pending, held
/// at `i32::MAX`, and is logged.
pub open spec fn blow(s: Sim, i: int) -> Sim {
    if !strikes(s.world, i) {
        s
    } else {
        let t = s.world[i].wants_to_melee.unwrap().target;
        let victim = s.world[t.id as int];
        let damage = spec_melee_damage(
            s.world[i].combat_stats.unwrap().power as int,
            victim.combat_stats.unwrap().defense as int,
        );
        if damage == 0 {
            Sim {
                world: s.world,
                log: s.log.push(
                    LogEntry::NoEffect { attacker: s.world[i].label(), target: victim.label() },
                ),
            }
        } else {
            Sim {
                world: s.world.update(
                    t.id as int,
                    EntityData {
                        suffer_damage: Some(
                            SufferDamage { amount: clamp_i32(pending(victim) + damage) as i32 },
                        ),
                        ..victim
                    },
                ),
                log: s.log.push(
                    LogEntry::Hit {
                        attacker: s.world[i].label(),
                        target: victim.label(),
                        damage: damage as i32,
                    },
                ),
            }
        }
    }
}

/// The blows of the entities with an id below `k`, by ascending id.
pub open spec fn blows(s: Sim, k: int) -> Sim
    decreases k,
{
    if k <= 0 {
        s
    } else {
        blow(blows(s, k - 1), k - 1)
    }
}

/// A record without its attack intent.
pub open spec fn calmed(d: EntityData) -> EntityData {
    EntityData { wants_to_melee: None, ..d }
}

/// What the melee pass makes of the entities and the log.
pub open spec fn melee_result(s: Sim) -> Sim {
    let fought = blows(s, s.world.len() as int);
    Sim { world: fought.world.map_values(|d: EntityData| calmed(d)), log: fought.log }
}

/// The blows change no record but in its pending damage.
pub proof fn lemma_blows_keep(s: Sim, k: int)
    ensures
        blows(s, k).world.len() == s.world.len(),
        forall|j: int|
            0 <= j < s.world.len() ==> (#[trigger] blows(s, k).world[j]) == (EntityData {
                suffer_damage: blows(s, k).world[j].suffer_damage,
                ..s.world[j]
            }),
    decreases k,
{
    if k > 0 {
        lemma_blows_keep(s, k - 1);
    }
}

pub struct MeleeCombat {}

impl MeleeCombat {
    /// Resolves the attack intents by ascending id of the attacker, and
    /// clears them all.
    pub fn run(&mut self, world: &mut World, log: &mut GameLog)
        ensures
            (Sim { world: final(world)@, log: final(log)@ }) == melee_result(
                Sim { world: old(world)@, log: old(log)@ },
            ),
    {
        let ghost start = Sim { world: old(world)@, log: old(log)@ };
        let n = world.slots.len();
        let mut i: usize = 0;
        while i < n
            invariant
                n == start.world.len(),
                i <= n,
                (Sim { world: world@, log: log@ }) == blows(start, i as int),
            decreases n - i,
        {
            proof {
                lemma_blows_keep(start, i as int);
            }
            if world.slots[i].live {
                if let Some(intent) = world.slots[i].wants_to_melee {
                    if let Some(mine) = world.slots[i].combat_stats {
                        let t = intent.target;
                        if mine.hp > 0 && t.id < n && world.slots[t.id].live {
                            if let Some(theirs) = world.slots[t.id].combat_stats {
                                if theirs.hp > 0 {
                                    let damage = melee_damage(mine.power, theirs.defense);
                                    let attacker = label(&world.slots[i]);
                                    let target = label(&world.slots[t.id]);
                                    if damage == 0 {
                                        log.push(LogEntry::NoEffect { attacker, target });
                                    } else {
                                        let before = match world.slots[t.id].suffer_damage {
                                            Some(s) => s.amount,
                                            None => 0,
                                        };
                                        world.slots[t.id].suffer_damage = Some(
                                            SufferDamage { amount: saturating_add(before, damage) },
                                        );
                                        log.push(LogEntry::Hit { attacker, target, damage });
                                    }
                                }
                            }
                        }
                    }
                }
            }
            i += 1;
        }
        let ghost fought = world@;
        let mut j: usize = 0;
        proof {
            lemma_blows_keep(start, n as int);
        }
        while j < n
            invariant
                n == world@.len(),
                n == fought.len(),
                j <= n,
                forall|c: int| 0 <= c < j ==> #[trigger] world@[c] == calmed(fought[c]),
                forall|c: int| j <= c < n ==> #[trigger] world@[c] == fought[c],
            decreases n - j,
        {
            world.slots[j].wants_to_melee = None;
            j += 1;
        }
        assert(world@ =~= fought.map_values(|d: EntityData| calmed(d)));
    }
}

/// Attack intents are one-shot: the melee pass leaves none.
pub proof fn lemma_melee_clears_intents(s: Sim, j: int)
    requires
        0 <= j < s.world.len(),
    ensures
        melee_result(s).world.len() == s.world.len(),
        melee_result(s).world[j].wants_to_melee.is_none(),
{
    lemma_blows_keep(s, s.world.len() as int);
}

} // verus!
