//! Monster AI: a monster that sees the player attacks when it stands next to
//! them, and else asks for a path to them and takes its first step.
//!
//! Path finding is the caller's: a pass hands out one request at a time and is
//! taken up again behind the monster that asked.

use vstd::prelude::*;
use crate::components::{saturating_sub, Confusion, Entity, Position, Viewshed, WantsToMelee};
use crate::map::TileMap;
use crate::state::RunState;
use crate::world::{alive, EntityData, Slots, World};

verus! {

/// What a pass of the monsters ends with.
#[derive(Clone, Copy, Debug, PartialEq, Eq, Structural)]
pub enum AiStep {
    /// The pass is over.
    Finished,
    /// `monster` wants a shortest path from the cell `start` to the cell
    /// `goal`. The pass goes on behind it.
    PathWanted { monster: Entity, start: usize, goal: usize },
}

/// Are the two cells less than one and a half cells apart, in a straight line?
pub open spec fn within_reach(a: Position, b: Position) -> bool {
    4 * ((a.x - b.x) * (a.x - b.x) + (a.y - b.y) * (a.y - b.y)) < 9
}

pub fn in_melee_range(a: Position, b: Position) -> (r: bool)
    ensures
        r == within_reach(a, b),
{
    let dx: i64 = a.x as i64 - b.x as i64;
    let dy: i64 = a.y as i64 - b.y as i64;
    let near = -1 <= dx && dx <= 1 && -1 <= dy && dy <= 1;
    proof {
        if !(-1 <= dx <= 1) {
            assert(dx * dx >= 4) by (nonlinear_arith)
                requires
                    dx <= -2 || dx >= 2,
            ;
            assert(dy * dy >= 0) by (nonlinear_arith);
        }
        if !(-1 <= dy <= 1) {
            assert(dy * dy >= 4) by (nonlinear_arith)
                requires
                    dy <= -2 || dy >= 2,
            ;
            assert(dx * dx >= 0) by (nonlinear_arith);
        }
        if near {
            assert(dx * dx <= 1 && dy * dy <= 1) by (nonlinear_arith)
                requires
                    -1 <= dx <= 1,
                    -1 <= dy <= 1,
            ;
        }
    }
    near
}

/// Is this the record of a monster that takes part in the pass?
pub open spec fn hunts(d: EntityData) -> bool {
    d.live && d.monster.is_some() && d.viewshed.is_some() && d.position.is_some()
}

/// A record after a turn went by for its confusion: a confused creature has
/// one turn less to go, and is confused no more once none is left.
pub open spec fn sobered(d: EntityData) -> EntityData {
    match d.confusion {
        Some(c) => if c.turns - 1 < 1 {
            EntityData { confusion: None, ..d }
        } else {
            EntityData { confusion: Some(Confusion { turns: (c.turns - 1) as i32 }), ..d }
        },
        None => d,
    }
}

/// Can the creature of this record act this turn? It cannot while, after
/// this turn, it still has a turn of confusion to go.
pub open spec fn can_act(d: EntityData) -> bool {
    match d.confusion {
        Some(c) => c.turns - 1 < 1,
        None => true,
    }
}

/// Does the monster of this record go for the player this turn?
pub open spec fn pursues(d: EntityData, player_pos: Position) -> bool {
    hunts(d) && can_act(d) && d.viewshed.unwrap().visible_tiles@.contains(player_pos)
}

/// The path that a pursuing monster asks for, if both ends are on the map.
pub open spec fn request_of(map: &TileMap, e: Entity, d: EntityData, player_pos: Position) -> Option<
    AiStep,
> {
    match (map.cell_index(d.position.unwrap()), map.cell_index(player_pos)) {
        (Some(start), Some(goal)) => Some(
            AiStep::PathWanted { monster: e, start: start as usize, goal: goal as usize },
        ),
        _ => None,
    }
}

/// The pass over the entities with an id from `from` on. Each monster first
/// pays for its confusion. One that then goes for the player and stands
/// within reach of them wants to attack, and does not move. One that is
/// farther away asks for a path, and the pass stops until it is taken up
/// behind it.
pub open spec fn scan(w: Slots, map: &TileMap, from: int, player: Entity, player_pos: Position) -> (
    Slots,
    AiStep,
)
    decreases w.len() - from,
{
    if from < 0 || from >= w.len() {
        (w, AiStep::Finished)
    } else if !hunts(w[from]) {
        scan(w, map, from + 1, player, player_pos)
    } else {
        let d = sobered(w[from]);
        let w1 = w.update(from, d);
        if !pursues(w[from], player_pos) {
            scan(w1, map, from + 1, player, player_pos)
        } else if within_reach(d.position.unwrap(), player_pos) {
            scan(
                w1.update(from, EntityData { wants_to_melee: Some(WantsToMelee { target: player }), ..d }),
                map,
                from + 1,
                player,
                player_pos,
            )
        } else {
            match request_of(map, Entity { id: from as usize }, d, player_pos) {
                Some(request) => (w1, request),
                None => scan(w1, map, from + 1, player, player_pos),
            }
        }
    }
}

/// Does `monster` take the first step of the path it was given? It does
/// where a path was found that has more than its starting cell, the monster
/// still lives and stands on the map, and the step leads to a cell of the map.
pub open spec fn steps_out(w: Slots, map: &TileMap, monster: Entity, found: bool, steps: Seq<usize>) -> bool {
    &&& found
    &&& steps.len() > 1
    &&& steps[1] < map.size()
    &&& alive(w, monster)
    &&& w[monster.id as int].viewshed.is_some()
    &&& w[monster.id as int].position.is_some()
    &&& map.cell_index(w[monster.id as int].position.unwrap()).is_some()
}

/// The record of an entity that has stepped to `to`: it stands there, and
/// its view, if it has one, is out of date.
pub open spec fn stepped(d: EntityData, to: Position) -> EntityData {
    EntityData {
        position: Some(to),
        viewshed: match d.viewshed {
            Some(v) => Some(Viewshed { dirty: true, ..v }),
            None => None,
        },
        ..d
    }
}

pub fn sees(cells: &Vec<Position>, p: Position) -> (r: bool)
    ensures
        r == cells@.contains(p),
{
    let mut k: usize = 0;
    while k < cells.len()
        invariant
            k <= cells@.len(),
            forall|j: int| 0 <= j < k ==> cells@[j] != p,
        decreases cells@.len() - k,
    {
        if cells[k].x == p.x && cells[k].y == p.y {
            return true;
        }
        k += 1;
    }
    false
}

pub struct MonsterAI {}

impl MonsterAI {
    /// Runs the monsters with an id from `from` on, until one asks for a
    /// path or none is left. Outside a monster turn nothing happens.
    pub fn run(
        &mut self,
        world: &mut World,
        map: &TileMap,
        run_state: RunState,
        player: Entity,
        player_pos: Position,
        from: usize,
    ) -> (step: AiStep)
        requires
            map.wf(),
        ensures
            run_state != RunState::MonsterTurn ==> step == AiStep::Finished && final(world)@ == old(world)@,
            run_state == RunState::MonsterTurn ==> (final(world)@, step) == scan(
                old(world)@,
                map,
                from as int,
                player,
                player_pos,
            ),
    {
        match run_state {
            RunState::MonsterTurn => {},
            _ => {
                return AiStep::Finished;
            },
        }
        let n = world.slots.len();
        let mut i: usize = from;
        while i < n
            invariant
                run_state == RunState::MonsterTurn,
                map.wf(),
                n == world@.len(),
                from <= i,
                scan(old(world)@, map, from as int, player, player_pos) == scan(
                    world@,
                    map,
                    i as int,
                    player,
                    player_pos,
                ),
            decreases n - i,
        {
            let ghost before = world@;
            let mut hunting = false;
            if world.slots[i].live && world.slots[i].monster.is_some()
                && world.slots[i].position.is_some() && world.slots[i].viewshed.is_some() {
                hunting = true;
            }
            if hunting {
                let mut able = true;
                if let Some(c) = world.slots[i].confusion {
                    let left = saturating_sub(c.turns, 1);
                    if left < 1 {
                        world.slots[i].confusion = None;
                    } else {
                        world.slots[i].confusion = Some(Confusion { turns: left });
                        able = false;
                    }
                }
                assert(world@ =~= before.update(i as int, sobered(before[i as int])));
                assert(able == can_act(before[i as int]));
                let here = world.slots[i].position.unwrap();
                let in_view = match &world.slots[i].viewshed {
                    Some(v) => sees(&v.visible_tiles, player_pos),
                    None => false,
                };
                if able && in_view {
                    if in_melee_range(here, player_pos) {
                        world.slots[i].wants_to_melee = Some(WantsToMelee { target: player });
                        proof {
                            let d = sobered(before[i as int]);
                            assert(world@ =~= before.update(i as int, d).update(
                                i as int,
                                EntityData { wants_to_melee: Some(WantsToMelee { target: player }), ..d },
                            ));
                        }
                    } else if map.is_inside_map(here.x, here.y) && map.is_inside_map(
                        player_pos.x,
                        player_pos.y,
                    ) {
                        let start = map.xy_idx(here.x, here.y);
                        let goal = map.xy_idx(player_pos.x, player_pos.y);
                        return AiStep::PathWanted { monster: Entity { id: i }, start, goal };
                    }
                }
            }
            i += 1;
        }
        AiStep::Finished
    }

    /// Hands `monster` the answer to its request. Where it steps out, it
    /// unblocks the cell it stands on, moves to the second cell of the path,
    /// blocks that cell, and its view is out of date. Else nothing changes.
    pub fn follow(
        &mut self,
        world: &mut World,
        map: &mut TileMap,
        monster: Entity,
        found: bool,
        steps: &Vec<usize>,
    )
        requires
            old(map).wf(),
        ensures
            final(map).wf(),
            !steps_out(old(world)@, old(map), monster, found, steps@) ==> final(world)@ == old(world)@
                && *final(map) == *old(map),
            steps_out(old(world)@, old(map), monster, found, steps@) ==> {
                &&& final(world)@ == old(world)@.update(
                    monster.id as int,
                    stepped(old(world)@[monster.id as int], old(map).cell(steps@[1] as int)),
                )
                &&& *final(map) == (TileMap { blocked_tiles: final(map).blocked_tiles, ..*old(map) })
                &&& final(map).blocked_tiles@ == old(map).blocked_tiles@.update(
                    old(map).cell_index(old(world)@[monster.id as int].position.unwrap()).unwrap(),
                    false,
                ).update(steps@[1] as int, true)
            },
    {
        if !found || steps.len() < 2 || steps[1] >= map.tiles.len() || !world.is_alive(monster) {
            return ;
        }
        if world.slots[monster.id].viewshed.is_none() {
            return ;
        }
        if let Some(here) = world.slots[monster.id].position {
            if map.is_inside_map(here.x, here.y) {
                let idx = map.xy_idx(here.x, here.y);
                map.blocked_tiles[idx] = false;
                let to = map.pos_from_idx(steps[1]);
                world.slots[monster.id].position = Some(to);
                map.blocked_tiles[steps[1]] = true;
                match &mut world.slots[monster.id].viewshed {
                    Some(v) => {
                        v.dirty = true;
                    },
                    None => {},
                }
                assert(world@ =~= old(world)@.update(
                    monster.id as int,
                    stepped(old(world)@[monster.id as int], old(map).cell(steps@[1] as int)),
                ));
            }
        }
    }
}

/// The dead do not act: a creature that the death sweep removes takes no
/// part in the pass of the monsters.
pub proof fn lemma_the_dead_do_not_hunt(d: EntityData)
    requires
        crate::systems::damage::doomed(d),
    ensures
        !hunts(crate::systems::damage::buried(d)),
{
}

} // verus!
