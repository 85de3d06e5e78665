//! What the player can ask for: a step, a pickup, a rest, the way down.

use vstd::prelude::*;
use crate::components::{Entity, Position, WantsToMelee, WantsToPickupItem};
use crate::gamelog::LogEntry;
use crate::gui::Key;
use crate::map::{TileMap, TileType};
use crate::state::{RunState, State};
use crate::systems::item_usage::heal;
use crate::systems::monster_ai::{sees, stepped};
use crate::world::{alive, fighter_among, EntityData, Sim, Slots, World};

verus! {

/// How an attempt to move ended.
#[derive(Clone, Copy, Debug, PartialEq, Eq, Structural)]
pub enum MoveOutcome {
    /// Nothing changed.
    Stayed,
    /// The mover wants to attack the entity in its way.
    Attacks(Entity),
    /// The mover stands on a new cell.
    MovedTo(Position),
}

/// How the attempt of `mover` to move by `(dx, dy)` ends. A mover that is
/// gone or stands nowhere stays, and so does one whose goal is off the map.
/// Where an occupant of the goal can fight, the mover attacks the first
/// such. Else it moves if the goal is not blocked.
pub open spec fn move_outcome(w: Slots, map: &TileMap, mover: Entity, dx: int, dy: int) -> MoveOutcome {
    if !(alive(w, mover) && w[mover.id as int].position.is_some()) {
        MoveOutcome::Stayed
    } else {
        let x = w[mover.id as int].position.unwrap().x + dx;
        let y = w[mover.id as int].position.unwrap().y + dy;
        if !map.in_bounds(x, y) {
            MoveOutcome::Stayed
        } else {
            match fighter_among(w, map.tile_content@[map.index(x, y)]@, 0) {
                Some(t) => MoveOutcome::Attacks(t),
                None => if map.blocked_tiles@[map.index(x, y)] {
                    MoveOutcome::Stayed
                } else {
                    MoveOutcome::MovedTo(Position { x: x as i32, y: y as i32 })
                },
            }
        }
    }
}

/// The entities after the attempt of `mover` ended in `outcome`: an attacker
/// has the intent to attack, and one that moved has its new position and,
/// if it sees at all, a view that is out of date.
pub open spec fn moved(w: Slots, mover: Entity, outcome: MoveOutcome) -> Slots {
    match outcome {
        MoveOutcome::Stayed => w,
        MoveOutcome::Attacks(t) => w.update(
            mover.id as int,
            EntityData { wants_to_melee: Some(WantsToMelee { target: t }), ..w[mover.id as int] },
        ),
        MoveOutcome::MovedTo(p) => w.update(mover.id as int, stepped(w[mover.id as int], p)),
    }
}

/// Tries to move `mover` by `(delta_x, delta_y)`.
pub fn try_move(world: &mut World, map: &TileMap, mover: Entity, delta_x: i32, delta_y: i32) -> (outcome:
    MoveOutcome)
    requires
        map.wf(),
    ensures
        outcome == move_outcome(old(world)@, map, mover, delta_x as int, delta_y as int),
        final(world)@ == moved(old(world)@, mover, outcome),
{
    if !world.is_alive(mover) {
        return MoveOutcome::Stayed;
    }
    let here = match world.slots[mover.id].position {
        Some(p) => p,
        None => {
            return MoveOutcome::Stayed;
        },
    };
    let x: i64 = here.x as i64 + delta_x as i64;
    let y: i64 = here.y as i64 + delta_y as i64;
    if x < 0 || x >= map.width as i64 || y < 0 || y >= map.height as i64 {
        return MoveOutcome::Stayed;
    }
    let to = Position { x: x as i32, y: y as i32 };
    let idx = map.xy_idx(to.x, to.y);
    if let Some(t) = world.first_fighter(&map.tile_content[idx]) {
        world.slots[mover.id].wants_to_melee = Some(WantsToMelee { target: t });
        return MoveOutcome::Attacks(t);
    }
    if map.blocked_tiles[idx] {
        return MoveOutcome::Stayed;
    }
    world.slots[mover.id].position = Some(to);
    match &mut world.slots[mover.id].viewshed {
        Some(v) => {
            v.dirty = true;
        },
        None => {},
    }
    assert(world@ =~= old(world)@.update(mover.id as int, stepped(old(world)@[mover.id as int], to)));
    MoveOutcome::MovedTo(to)
}

/// How the player's attempt to move ends: as that of any mover, but that an
/// entity which is not marked as a player stays.
pub open spec fn player_outcome(pre: &State, dx: int, dy: int) -> MoveOutcome {
    if alive(pre.world@, pre.player) && pre.world@[pre.player.id as int].player.is_some() {
        move_outcome(pre.world@, &pre.map, pre.player, dx, dy)
    } else {
        MoveOutcome::Stayed
    }
}

/// What an attempt of the player to move by `(dx, dy)` makes of the game.
pub open spec fn player_moved(pre: &State, post: &State, dx: int, dy: int) -> bool {
    &&& post.world@ == moved(pre.world@, pre.player, player_outcome(pre, dx, dy))
    &&& post.player_pos == (match player_outcome(pre, dx, dy) {
        MoveOutcome::MovedTo(p) => p,
        _ => pre.player_pos,
    })
    &&& *post == (State { world: post.world, player_pos: post.player_pos, ..*pre })
}

/// Tries to move the player by `(delta_x, delta_y)`, and keeps the game's
/// record of where the player stands.
pub fn try_move_player(delta_x: i32, delta_y: i32, state: &mut State)
    requires
        old(state).map.wf(),
    ensures
        player_moved(old(state), final(state), delta_x as int, delta_y as int),
{
    if state.world.is_alive(state.player) && state.world.slots[state.player.id].player.is_some() {
        let outcome = try_move(&mut state.world, &state.map, state.player, delta_x, delta_y);
        if let MoveOutcome::MovedTo(p) = outcome {
            state.player_pos = p;
        }
    }
}

/// The first live item, from the id `from` on, that lies on the cell `p`.
pub open spec fn item_at(w: Slots, p: Position, from: int) -> Option<Entity>
    decreases w.len() - from,
{
    if from < 0 || from >= w.len() {
        None
    } else if w[from].live && w[from].item.is_some() && w[from].position == Some(p) {
        Some(Entity { id: from as usize })
    } else {
        item_at(w, p, from + 1)
    }
}

/// What the player's wish to pick up makes of the game: the player wants
/// to pick up the first item on its cell, or learns that there is none.
pub open spec fn item_sought(pre: &State, post: &State) -> bool {
    match item_at(pre.world@, pre.player_pos, 0) {
        None => {
            &&& post.log@ == pre.log@.push(LogEntry::NothingToPickUp)
            &&& *post == (State { log: post.log, ..*pre })
        },
        Some(item) => {
            &&& post.world@ == (if alive(pre.world@, pre.player) {
                pre.world@.update(
                    pre.player.id as int,
                    EntityData {
                        wants_to_pickup_item: Some(
                            WantsToPickupItem { collected_by: pre.player, item },
                        ),
                        ..pre.world@[pre.player.id as int]
                    },
                )
            } else {
                pre.world@
            })
            &&& *post == (State { world: post.world, ..*pre })
        },
    }
}

/// Looks for an item on the player's cell, to pick it up in the coming turn.
pub fn get_item(state: &mut State)
    ensures
        item_sought(old(state), final(state)),
{
    let n = state.world.slots.len();
    let here = state.player_pos;
    let mut i: usize = 0;
    while i < n
        invariant
            n == state.world@.len(),
            *state == *old(state),
            here == state.player_pos,
            item_at(state.world@, here, 0) == item_at(state.world@, here, i as int),
        decreases n - i,
    {
        let mut lies_here = false;
        if state.world.slots[i].live && state.world.slots[i].item.is_some() {
            if let Some(p) = state.world.slots[i].position {
                lies_here = p.x == here.x && p.y == here.y;
            }
        }
        if lies_here {
            if state.world.is_alive(state.player) {
                state.world.slots[state.player.id].wants_to_pickup_item = Some(
                    WantsToPickupItem { collected_by: state.player, item: Entity { id: i } },
                );
            }
            return ;
        }
        i += 1;
    }
    state.log.push(LogEntry::NothingToPickUp);
}

/// Does the monster of this record see the cell `p`?
pub open spec fn watches(d: EntityData, p: Position) -> bool {
    d.live && d.monster.is_some() && d.viewshed.is_some() && d.viewshed.unwrap().visible_tiles@.contains(p)
}

/// Does a monster with an id below `k` have the player's cell in view?
pub open spec fn watched(pre: &State, k: int) -> bool {
    exists|j: int| 0 <= j < k && j < pre.world@.len() && watches(#[trigger] pre.world@[j], pre.player_pos)
}

/// Does any monster have the player's cell in view?
pub open spec fn threatened(pre: &State) -> bool {
    watched(pre, pre.world@.len() as int)
}

/// What a turn of rest makes of the game: the player gains one hit point,
/// up to its maximum, unless a monster has the player's cell in view.
pub open spec fn turn_skipped(pre: &State, post: &State) -> bool {
    &&& post.world@ == (if threatened(pre) {
        pre.world@
    } else {
        heal(Sim { world: pre.world@, log: pre.log@ }, pre.player, 1, None, false).world
    })
    &&& *post == (State { world: post.world, ..*pre })
}

/// Lets the player rest for a turn.
pub fn skip_turn(state: &mut State) -> (next: RunState)
    ensures
        next == RunState::PlayerTurn,
        turn_skipped(old(state), final(state)),
{
    let n = state.world.slots.len();
    let mut can_heal = true;
    let mut j: usize = 0;
    while j < n
        invariant
            n == state.world@.len(),
            j <= n,
            *state == *old(state),
            can_heal == !watched(state, j as int),
        decreases n - j,
    {
        let mut sees_player = false;
        if state.world.slots[j].live && state.world.slots[j].monster.is_some() {
            match &state.world.slots[j].viewshed {
                Some(v) => {
                    sees_player = sees(&v.visible_tiles, state.player_pos);
                },
                None => {},
            }
        }
        proof {
            assert(sees_player == watches(state.world@[j as int], state.player_pos));
            if watched(state, j as int) {
                let c = choose|c: int|
                    0 <= c < j && c < state.world@.len() && watches(#[trigger] state.world@[c], state.player_pos);
                assert(0 <= c < j + 1 && watches(state.world@[c], state.player_pos));
            }
            if watched(state, j + 1) {
                let c = choose|c: int|
                    0 <= c < j + 1 && c < state.world@.len() && watches(
                        #[trigger] state.world@[c],
                        state.player_pos,
                    );
                if c < j {
                    assert(watched(state, j as int));
                }
            }
        }
        if sees_player {
            can_heal = false;
        }
        j += 1;
    }
    if can_heal && state.world.is_alive(state.player) {
        if let Some(stats) = state.world.slots[state.player.id].combat_stats {
            let up = crate::components::saturating_add(stats.hp, 1);
            let hp = if stats.max_hp <= up {
                stats.max_hp
            } else {
                up
            };
            state.world.slots[state.player.id].combat_stats = Some(
                crate::components::CombatStats {
                    max_hp: stats.max_hp,
                    hp,
                    defense: stats.defense,
                    power: stats.power,
                },
            );
        }
    }
    RunState::PlayerTurn
}

/// Does the player stand on stairs that lead down?
pub open spec fn on_stairs(pre: &State) -> bool {
    pre.map.cell_index(pre.player_pos).is_some() && pre.map.tiles@[pre.map.cell_index(
        pre.player_pos,
    ).unwrap()] == TileType::DownStairs
}

/// What the player's wish to descend makes of the game: on stairs the next
/// level is due; anywhere else the player learns that there is no way down.
pub open spec fn descent_tried(pre: &State, post: &State, next: RunState) -> bool {
    if on_stairs(pre) {
        next == RunState::NextLevel && *post == *pre
    } else {
        &&& next == RunState::AwaitingInput
        &&& post.log@ == pre.log@.push(LogEntry::NoWayDown)
        &&& *post == (State { log: post.log, ..*pre })
    }
}

pub fn try_next_level(state: &mut State) -> (next: RunState)
    requires
        old(state).map.wf(),
    ensures
        descent_tried(old(state), final(state), next),
{
    let here = state.player_pos;
    if state.map.is_inside_map(here.x, here.y) {
        let idx = state.map.xy_idx(here.x, here.y);
        if state.map.tiles[idx] == TileType::DownStairs {
            return RunState::NextLevel;
        }
    }
    state.log.push(LogEntry::NoWayDown);
    RunState::AwaitingInput
}

/// The step that a key asks for, if it asks for one.
pub open spec fn step_of(key: Key) -> Option<(int, int)> {
    match key {
        Key::Left | Key::A => Some((-1, 0)),
        Key::Right | Key::D => Some((1, 0)),
        Key::Up | Key::W => Some((0, -1)),
        Key::Down | Key::S => Some((0, 1)),
        Key::Numpad9 | Key::Y => Some((1, -1)),
        Key::Numpad7 | Key::U => Some((-1, -1)),
        Key::Numpad3 | Key::N => Some((1, 1)),
        Key::Numpad1 | Key::B => Some((-1, 1)),
        _ => None,
    }
}

/// What a key, or none, makes of a game that awaits input, and the state
/// that follows. A step and a pickup take the player's turn, and so does a
/// rest. The menus and the way down have states of their own. Any other key
/// changes nothing.
pub open spec fn input_taken(pre: &State, post: &State, key: Option<Key>, next: RunState) -> bool {
    match key {
        None => next == RunState::AwaitingInput && *post == *pre,
        Some(k) => match step_of(k) {
            Some(step) => next == RunState::PlayerTurn && player_moved(pre, post, step.0, step.1),
            None => match k {
                Key::Numpad5 | Key::Space => next == RunState::PlayerTurn && turn_skipped(pre, post),
                Key::G => next == RunState::PlayerTurn && item_sought(pre, post),
                Key::E => next == RunState::ShowInventory && *post == *pre,
                Key::Q => next == RunState::ShowDropItem && *post == *pre,
                Key::Period => descent_tried(pre, post, next),
                Key::Escape => next == RunState::SaveGame && *post == *pre,
                _ => next == RunState::AwaitingInput && *post == *pre,
            },
        },
    }
}

/// Takes the player's input for this frame.
pub fn player_input(gs: &mut State, key: Option<Key>) -> (next: RunState)
    requires
        old(gs).map.wf(),
    ensures
        input_taken(old(gs), final(gs), key, next),
{
    match key {
        None => {
            return RunState::AwaitingInput;
        },
        Some(key) => match key {
            Key::Left | Key::A => try_move_player(-1, 0, gs),
            Key::Right | Key::D => try_move_player(1, 0, gs),
            Key::Up | Key::W => try_move_player(0, -1, gs),
            Key::Down | Key::S => try_move_player(0, 1, gs),
            Key::Numpad9 | Key::Y => try_move_player(1, -1, gs),
            Key::Numpad7 | Key::U => try_move_player(-1, -1, gs),
            Key::Numpad3 | Key::N => try_move_player(1, 1, gs),
            Key::Numpad1 | Key::B => try_move_player(-1, 1, gs),
            Key::Numpad5 | Key::Space => {
                return skip_turn(gs);
            },
            Key::G => get_item(gs),
            Key::E => {
                return RunState::ShowInventory;
            },
            Key::Q => {
                return RunState::ShowDropItem;
            },
            Key::Period => {
                return try_next_level(gs);
            },
            Key::Escape => {
                return RunState::SaveGame;
            },
            _ => {
                return RunState::AwaitingInput;
            },
        },
    }
    RunState::PlayerTurn
}

} // verus!
